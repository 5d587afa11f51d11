use vstd::prelude::*;
use crate::text::chars::push_chars;
use crate::text::chars::chars_of;

verus! {

/// An installed app under the daemon's management.
#[derive(Debug, Clone, PartialEq, Eq)]
pub struct ManagedApp {
    pub package_name: String,
    pub user_id: u32,
    pub uid: u32,
    pub label: String,
    pub is_system_app: bool,
    pub protected_reason: Option<ProtectedReason>,
    pub policy_id: String,
    pub last_seen_baseline: String,
}

impl ManagedApp {
    /// The package name and user id that identify the app's policy.
    pub fn policy_identity(&self) -> (r: (&str, u32))
        ensures
            r.0@ == self.package_name@,
            r.1 == self.user_id,
    {
        (self.package_name.as_str(), self.user_id)
    }

    /// Whether the app is protected from control.
    pub fn is_protected(&self) -> (r: bool)
        ensures
            r == (self.protected_reason is Some),
    {
        self.protected_reason.is_some()
    }

    /// A system app, or one that already has a protection reason, is
    /// protected (by default as system critical) under a `protected:` policy.
    pub fn apply_protected_defaults(&mut self)
        ensures
            old(self).protected_reason is Some || old(self).is_system_app ==> {
                &&& final(self).protected_reason == (match old(self).protected_reason {
                    Some(r) => Some(r),
                    None => Some(ProtectedReason::SystemCritical),
                })
                &&& final(self).policy_id@ == "protected:"@ + old(self).package_name@
            },
            !(old(self).protected_reason is Some || old(self).is_system_app) ==> {
                &&& final(self).protected_reason == old(self).protected_reason
                &&& final(self).policy_id == old(self).policy_id
            },
            final(self).package_name == old(self).package_name,
            final(self).user_id == old(self).user_id,
            final(self).uid == old(self).uid,
            final(self).label == old(self).label,
            final(self).is_system_app == old(self).is_system_app,
            final(self).last_seen_baseline == old(self).last_seen_baseline,
    {
        if self.protected_reason.is_some() || self.is_system_app {
            self.protected_reason = match self.protected_reason {
                Some(r) => Some(r),
                None => Some(ProtectedReason::SystemCritical),
            };
            let mut id = "protected:".to_owned();
            let name = chars_of(self.package_name.as_str());
            push_chars(&mut id, name.as_slice());
            self.policy_id = id;
        }
    }
}

/// Why an app is protected from control.
#[derive(Debug, Clone, Copy, PartialEq, Eq, Structural)]
pub enum ProtectedReason {
    Manager,
    Launcher,
    InputMethod,
    RootManager,
    HookManager,
    SystemCritical,
    UserProtected,
}

/// The freeze mode that a policy selects.
#[derive(Debug, Clone, Copy, PartialEq, Eq, Structural)]
pub enum FreezeMode {
    Protected,
    Free,
    Freeze,
    FreezeWithRestrictions,
    Terminate,
}

/// How foreground state is judged.
#[derive(Debug, Clone, Copy, PartialEq, Eq, Structural)]
pub enum ForegroundStrategy {
    Strict,
    Permissive,
}

/// What to do when the preferred freezer cannot be used.
#[derive(Debug, Clone, Copy, PartialEq, Eq, Structural)]
pub enum FallbackAction {
    Postpone,
    AlternateFreezer,
    Signal,
    Terminate,
    Skip,
}

/// The freeze policy selected for an app.
#[derive(Debug, Clone, PartialEq, Eq)]
pub enum FreezePolicy {
    Selected {
        mode: FreezeMode,
        delay_ms: u64,
        foreground_strategy: ForegroundStrategy,
        allow_network_restriction: bool,
        allow_wakelock_restriction: bool,
        fallback_strategy: Vec<FallbackAction>,
        updated_at_ms: u128,
    },
}

/// Whether a freeze mode puts an app under control.
pub open spec fn controls(mode: FreezeMode) -> bool {
    mode == FreezeMode::Freeze || mode == FreezeMode::FreezeWithRestrictions || mode
        == FreezeMode::Terminate
}

impl FreezePolicy {
    /// The policy of a protected app: no control, strict foreground, skip as
    /// the only fallback.
    pub fn protected_default() -> (p: Self)
        ensures
            p->mode == FreezeMode::Protected,
            p->delay_ms == 0,
            p->foreground_strategy == ForegroundStrategy::Strict,
            !p->allow_network_restriction,
            !p->allow_wakelock_restriction,
            p->fallback_strategy@ == seq![FallbackAction::Skip],
            p->updated_at_ms == 0,
    {
        FreezePolicy::Selected {
            mode: FreezeMode::Protected,
            delay_ms: 0,
            foreground_strategy: ForegroundStrategy::Strict,
            allow_network_restriction: false,
            allow_wakelock_restriction: false,
            fallback_strategy: vec![FallbackAction::Skip],
            updated_at_ms: 0,
        }
    }

    /// Control is allowed when the app is not protected and the mode freezes
    /// or terminates.
    pub fn is_control_allowed_for(&self, app: &ManagedApp) -> (r: bool)
        ensures
            r == (app.protected_reason is None && controls(self->mode)),
    {
        if app.is_protected() {
            return false;
        }
        match self {
            FreezePolicy::Selected { mode, .. } => match mode {
                FreezeMode::Freeze | FreezeMode::FreezeWithRestrictions | FreezeMode::Terminate => true,
                _ => false,
            },
        }
    }
}

} // verus!
