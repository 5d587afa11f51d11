use vstd::prelude::*;
use crate::app::error::{denies_permission, error_message, DaemonError};
use crate::domain::capability::{CapabilityName, CapabilityStatus, ControlCapability, RiskLevel};
use crate::domain::operation::{ControlAction, ControlOperation, OperationResult};
use crate::domain::policy::{controls, FallbackAction, FreezeMode, FreezePolicy, ManagedApp};
use crate::domain::runtime::{ControlState, ProcessState, RuntimeProcess};
use crate::sys::binder::BinderFreezerCapability;
use crate::sys::cgroup::CgroupFreezerCapability;
use crate::text::chars::{chars_of, push_chars};
use crate::text::format::{
    ascii_lowercase, decimal, push_decimal, push_signed_decimal, signed_decimal, to_ascii_lowercase,
};
use crate::text::scan::{contains, contains_chars};

verus! {

/// What the backend decided to do with an app.
#[derive(Debug, Clone, Copy, PartialEq, Eq, Structural)]
pub enum DecisionAction {
    Freeze,
    Postpone,
    AlternateFreezer,
    Signal,
    Terminate,
    Skip,
}

/// A decision and the reason for it.
#[derive(Debug, Clone, PartialEq, Eq)]
pub struct FreezeDecision {
    pub action: DecisionAction,
    pub reason: String,
}

/// The evidence the backend has about the system.
#[derive(Debug, Clone, PartialEq, Eq, Structural)]
pub struct BackendEnvironment {
    pub cgroup_available: bool,
    pub binder_available: bool,
    pub network_available: bool,
    pub wakelock_available: bool,
    pub screen_state_available: bool,
    pub hook_fresh: bool,
}

/// The environment in which every primitive is available and all evidence
/// is fresh.
pub open spec fn full_environment() -> BackendEnvironment {
    BackendEnvironment {
        cgroup_available: true,
        binder_available: true,
        network_available: true,
        wakelock_available: true,
        screen_state_available: true,
        hook_fresh: true,
    }
}

impl Default for BackendEnvironment {
    /// Every primitive available and all evidence fresh.
    fn default() -> (e: Self)
        ensures
            e == full_environment(),
    {
        BackendEnvironment {
            cgroup_available: true,
            binder_available: true,
            network_available: true,
            wakelock_available: true,
            screen_state_available: true,
            hook_fresh: true,
        }
    }
}

/// The freezer backend built on the cgroup v2 and binder freezers.
pub struct SystemAwareCgroupBinderBackend {
    environment: BackendEnvironment,
}

/// The decision for a configured fallback action.
pub open spec fn fallback_action(a: FallbackAction) -> DecisionAction {
    match a {
        FallbackAction::Postpone => DecisionAction::Postpone,
        FallbackAction::AlternateFreezer => DecisionAction::AlternateFreezer,
        FallbackAction::Signal => DecisionAction::Signal,
        FallbackAction::Terminate => DecisionAction::Terminate,
        FallbackAction::Skip => DecisionAction::Skip,
    }
}

/// The first configured fallback of a policy, `Skip` when none is
/// configured.
pub open spec fn first_fallback(policy: FreezePolicy) -> FallbackAction {
    let s = policy->fallback_strategy@;
    if s.len() > 0 {
        s[0]
    } else {
        FallbackAction::Skip
    }
}

/// A process state in which an app must not be frozen.
pub open spec fn blocks_freeze(s: ProcessState) -> bool {
    s == ProcessState::Foreground || s == ProcessState::Visible || s == ProcessState::Unknown
}

/// Binder state text that shows pending work.
pub open spec fn busy_binder_text(t: Seq<char>) -> bool {
    contains(t, "busy"@) || contains(t, "sync_txn"@) || contains(t, "txns_pending"@) || contains(
        t,
        "binder_pending"@,
    )
}

/// A process pending freeze whose binder state shows pending work.
pub open spec fn is_idle_blocker(p: RuntimeProcess) -> bool {
    &&& p.control_state == ControlState::PendingFreeze
    &&& p.binder_state is Some
    &&& busy_binder_text(ascii_lowercase(p.binder_state->0@))
}

/// The first process at or after `i` that blocks on idle evidence.
pub open spec fn first_idle_blocker(ps: Seq<RuntimeProcess>, i: int) -> Option<int>
    decreases ps.len() - i,
{
    if i < 0 || i >= ps.len() {
        None
    } else if is_idle_blocker(ps[i]) {
        Some(i)
    } else {
        first_idle_blocker(ps, i + 1)
    }
}

/// The reason given when a process blocks on idle evidence.
pub open spec fn idle_reason(p: RuntimeProcess) -> Seq<char> {
    "pending freeze idle evidence not satisfied for pid "@ + signed_decimal(p.pid as int) + ": "@
        + p.binder_state->0@
}

/// Whether some process is in a state that blocks freezing.
pub open spec fn any_blocking_state(ps: Seq<RuntimeProcess>) -> bool {
    exists|i: int| 0 <= i < ps.len() && blocks_freeze(#[trigger] ps[i].proc_state)
}

/// The backend's decision about freezing an app with the given processes,
/// and the reason for it. Control must be allowed, some process must run,
/// no process may be visible or of unknown state, the hook and screen
/// evidence must be fresh, and no pending process may have binder work;
/// then both freezers are used when available, and the policy's first
/// fallback otherwise.
pub open spec fn freeze_decision(
    env: BackendEnvironment,
    app: ManagedApp,
    policy: FreezePolicy,
    ps: Seq<RuntimeProcess>,
) -> (DecisionAction, Seq<char>) {
    if !(app.protected_reason is None && controls(policy->mode)) {
        (DecisionAction::Skip, "policy or protected package blocks control"@)
    } else if ps.len() == 0 {
        (DecisionAction::Skip, "no runtime processes"@)
    } else if any_blocking_state(ps) {
        (DecisionAction::Postpone, "foreground, visible, or unknown process state"@)
    } else if !env.hook_fresh || !env.screen_state_available {
        (DecisionAction::Postpone, "fresh hook and screen-state evidence required"@)
    } else if first_idle_blocker(ps, 0) is Some {
        (DecisionAction::Postpone, idle_reason(ps[first_idle_blocker(ps, 0)->0]))
    } else if env.cgroup_available && env.binder_available {
        (DecisionAction::Freeze, "cgroup and binder freezer available"@)
    } else {
        (fallback_action(first_fallback(policy)), "preferred freezer unavailable"@)
    }
}

/// The pids of the processes, in order.
pub open spec fn pids_of(ps: Seq<RuntimeProcess>) -> Seq<i32> {
    ps.map_values(|p: RuntimeProcess| p.pid)
}

/// The details text of an operation over `n` processes.
pub open spec fn process_count_text(n: nat) -> Seq<char> {
    "process_count="@ + decimal(n)
}

/// The operation that the backend records for an action on an app's
/// processes.
pub open spec fn backend_operation(
    op: ControlOperation,
    app: ManagedApp,
    ps: Seq<RuntimeProcess>,
    action: ControlAction,
    result: OperationResult,
    reason: Seq<char>,
) -> bool {
    &&& op.operation_id == 0
    &&& op.timestamp_ms == 0
    &&& op.package_name@ == app.package_name@
    &&& op.uid == app.uid
    &&& op.pid_list@ == pids_of(ps)
    &&& op.action == action
    &&& op.backend@ == "SystemAwareCgroupBinderBackend"@
    &&& op.reason@ == reason
    &&& op.result == result
    &&& op.details@ == process_count_text(ps.len())
}

/// The risk of the binder freezer for each probe status.
pub open spec fn binder_risk(status: CapabilityStatus) -> RiskLevel {
    match status {
        CapabilityStatus::Available => RiskLevel::Normal,
        CapabilityStatus::Untested | CapabilityStatus::Degraded => RiskLevel::Caution,
        CapabilityStatus::Missing => RiskLevel::Disabled,
    }
}

/// A capability with the given fields, checked at time zero.
pub open spec fn capability_is(
    c: ControlCapability,
    name: CapabilityName,
    status: CapabilityStatus,
    evidence: Seq<char>,
    risk: RiskLevel,
) -> bool {
    &&& c.name == name
    &&& c.status == status
    &&& c.evidence@ == evidence
    &&& c.checked_at_ms == 0
    &&& c.risk_level == risk
}

/// A capability that is available with normal risk, or missing and
/// disabled.
pub open spec fn switch_capability(
    c: ControlCapability,
    name: CapabilityName,
    available: bool,
    evidence: Seq<char>,
) -> bool {
    capability_is(
        c,
        name,
        if available {
            CapabilityStatus::Available
        } else {
            CapabilityStatus::Missing
        },
        evidence,
        if available {
            RiskLevel::Normal
        } else {
            RiskLevel::Disabled
        },
    )
}

/// The reason given when applying a freeze failed with `error`: the
/// error's message after `permission denied while applying cgroup.freeze: `
/// when the operating system refused the write, and after
/// `freezer apply failed: ` otherwise.
pub open spec fn apply_failure_reason(error: DaemonError) -> Seq<char> {
    if denies_permission(&error) {
        "permission denied while applying cgroup.freeze: "@ + error_message(&error)
    } else {
        "freezer apply failed: "@ + error_message(&error)
    }
}

impl SystemAwareCgroupBinderBackend {
    /// The environment the backend decides with.
    pub closed spec fn env(&self) -> BackendEnvironment {
        self.environment
    }

    /// A backend deciding with the given environment.
    pub fn new(environment: BackendEnvironment) -> (b: Self)
        ensures
            b.env() == environment,
    {
        SystemAwareCgroupBinderBackend { environment }
    }

    /// The capabilities found by the cgroup and binder probes, followed by
    /// network break and wake-lock control as the environment reports them.
    /// A cgroup probe that failed counts as a missing freezer.
    pub fn capabilities_from_probes(
        &self,
        cgroup_probe: Result<CgroupFreezerCapability, DaemonError>,
        binder_probe: BinderFreezerCapability,
    ) -> (caps: Vec<ControlCapability>)
        ensures
            caps@.len() == 4,
            cgroup_probe matches Ok(c) ==> capability_is(
                caps@[0],
                CapabilityName::CgroupV2Freezer,
                c.status,
                c.evidence@,
                if c.status == CapabilityStatus::Available {
                    RiskLevel::Normal
                } else {
                    RiskLevel::Disabled
                },
            ),
            cgroup_probe matches Err(e) ==> caps@[0].name == CapabilityName::CgroupV2Freezer
                && caps@[0].status == CapabilityStatus::Missing && caps@[0].risk_level
                == RiskLevel::Disabled && caps@[0].checked_at_ms == 0 && caps@[0].evidence@
                == "cgroup capability probe failed: "@ + error_message(&e),
            capability_is(
                caps@[1],
                CapabilityName::BinderFreezer,
                binder_probe.status,
                binder_probe.evidence@,
                binder_risk(binder_probe.status),
            ),
            switch_capability(
                caps@[2],
                CapabilityName::NetworkBreak,
                self.env().network_available,
                "network break"@,
            ),
            switch_capability(
                caps@[3],
                CapabilityName::WakelockControl,
                self.env().wakelock_available,
                "wake-lock control"@,
            ),
    {
        let cgroup_capability = match cgroup_probe {
            Ok(c) => {
                let available = match c.status {
                    CapabilityStatus::Available => true,
                    _ => false,
                };
                capability_with_status(
                    CapabilityName::CgroupV2Freezer,
                    c.status,
                    c.evidence,
                    if available {
                        RiskLevel::Normal
                    } else {
                        RiskLevel::Disabled
                    },
                )
            },
            Err(e) => {
                let mut evidence = "cgroup capability probe failed: ".to_owned();
                let text = e.message();
                let cs = chars_of(text.as_str());
                push_chars(&mut evidence, cs.as_slice());
                capability_with_status(
                    CapabilityName::CgroupV2Freezer,
                    CapabilityStatus::Missing,
                    evidence,
                    RiskLevel::Disabled,
                )
            },
        };
        let binder_risk = match binder_probe.status {
            CapabilityStatus::Available => RiskLevel::Normal,
            CapabilityStatus::Untested | CapabilityStatus::Degraded => RiskLevel::Caution,
            CapabilityStatus::Missing => RiskLevel::Disabled,
        };
        let mut caps: Vec<ControlCapability> = Vec::new();
        caps.push(cgroup_capability);
        caps.push(
            capability_with_status(
                CapabilityName::BinderFreezer,
                binder_probe.status,
                binder_probe.evidence,
                binder_risk,
            ),
        );
        caps.push(
            capability(CapabilityName::NetworkBreak, self.environment.network_available, "network break"),
        );
        caps.push(
            capability(
                CapabilityName::WakelockControl,
                self.environment.wakelock_available,
                "wake-lock control",
            ),
        );
        caps
    }

    /// The decision about freezing an app with the given processes.
    pub fn can_freeze(
        &self,
        app: &ManagedApp,
        policy: &FreezePolicy,
        processes: &[RuntimeProcess],
    ) -> (d: FreezeDecision)
        ensures
            (d.action, d.reason@) == freeze_decision(self.env(), *app, *policy, processes@),
    {
        if !policy.is_control_allowed_for(app) {
            return FreezeDecision {
                action: DecisionAction::Skip,
                reason: "policy or protected package blocks control".to_owned(),
            };
        }
        if processes.len() == 0 {
            return FreezeDecision {
                action: DecisionAction::Skip,
                reason: "no runtime processes".to_owned(),
            };
        }
        let mut i: usize = 0;
        while i < processes.len()
            invariant
                i <= processes@.len(),
                processes@.len() > 0,
                app.protected_reason is None && controls(policy->mode),
                forall|j: int| 0 <= j < i ==> !blocks_freeze(#[trigger] processes@[j].proc_state),
            decreases processes@.len() - i,
        {
            match processes[i].proc_state {
                ProcessState::Foreground | ProcessState::Visible | ProcessState::Unknown => {
                    assert(blocks_freeze(processes@[i as int].proc_state));
                    assert(any_blocking_state(processes@));
                    return FreezeDecision {
                        action: DecisionAction::Postpone,
                        reason: "foreground, visible, or unknown process state".to_owned(),
                    };
                },
                _ => {},
            }
            i = i + 1;
        }
        if !self.environment.hook_fresh || !self.environment.screen_state_available {
            return FreezeDecision {
                action: DecisionAction::Postpone,
                reason: "fresh hook and screen-state evidence required".to_owned(),
            };
        }
        match idle_blocker(processes) {
            Some(reason) => {
                return FreezeDecision { action: DecisionAction::Postpone, reason };
            },
            None => {},
        }
        if self.environment.cgroup_available && self.environment.binder_available {
            return FreezeDecision {
                action: DecisionAction::Freeze,
                reason: "cgroup and binder freezer available".to_owned(),
            };
        }
        fallback_decision(policy, "preferred freezer unavailable")
    }

    /// The decision after writing `cgroup.freeze` failed: the policy's first
    /// fallback, with a reason that names the error and says whether the
    /// write was denied.
    pub fn fallback_after_freeze_apply_error(
        &self,
        policy: &FreezePolicy,
        error: &DaemonError,
    ) -> (d: FreezeDecision)
        ensures
            d.action == fallback_action(first_fallback(*policy)),
            d.reason@ == apply_failure_reason(*error),
    {
        let permission_denied = match error {
            DaemonError::Io(f) => f.permission_denied,
            _ => false,
        };
        let message = error.message();
        fallback_after_apply_failure(policy, permission_denied, message.as_str())
    }

    /// The operation recording a freeze of the app's processes.
    pub fn freeze_operation(
        &self,
        app: &ManagedApp,
        processes: &[RuntimeProcess],
        reason: &str,
    ) -> (op: ControlOperation)
        ensures
            backend_operation(
                op,
                *app,
                processes@,
                ControlAction::Freeze,
                OperationResult::Success,
                reason@,
            ),
    {
        operation(app, processes, ControlAction::Freeze, OperationResult::Success, reason)
    }

    /// The operation recording an unfreeze of the app's processes.
    pub fn unfreeze_operation(
        &self,
        app: &ManagedApp,
        processes: &[RuntimeProcess],
        reason: &str,
    ) -> (op: ControlOperation)
        ensures
            backend_operation(
                op,
                *app,
                processes@,
                ControlAction::Unfreeze,
                OperationResult::Success,
                reason@,
            ),
    {
        operation(app, processes, ControlAction::Unfreeze, OperationResult::Success, reason)
    }
}

/// The decision that follows the policy's first configured fallback, `Skip`
/// when none is configured.
pub fn fallback_decision(policy: &FreezePolicy, reason: &str) -> (d: FreezeDecision)
    ensures
        d.action == fallback_action(first_fallback(*policy)),
        d.reason@ == reason@,
{
    let fallback = match policy {
        FreezePolicy::Selected { fallback_strategy, .. } => {
            if fallback_strategy.len() > 0 {
                fallback_strategy[0]
            } else {
                FallbackAction::Skip
            }
        },
    };
    let action = match fallback {
        FallbackAction::Postpone => DecisionAction::Postpone,
        FallbackAction::AlternateFreezer => DecisionAction::AlternateFreezer,
        FallbackAction::Signal => DecisionAction::Signal,
        FallbackAction::Terminate => DecisionAction::Terminate,
        FallbackAction::Skip => DecisionAction::Skip,
    };
    FreezeDecision { action, reason: reason.to_owned() }
}

/// The decision after applying the freezer failed with the given message:
/// the policy's first fallback, with a reason that says whether the write
/// was denied.
pub fn fallback_after_apply_failure(
    policy: &FreezePolicy,
    permission_denied: bool,
    message: &str,
) -> (d: FreezeDecision)
    ensures
        d.action == fallback_action(first_fallback(*policy)),
        permission_denied ==> d.reason@ == "permission denied while applying cgroup.freeze: "@
            + message@,
        !permission_denied ==> d.reason@ == "freezer apply failed: "@ + message@,
{
    let mut reason = if permission_denied {
        "permission denied while applying cgroup.freeze: ".to_owned()
    } else {
        "freezer apply failed: ".to_owned()
    };
    let cs = chars_of(message);
    push_chars(&mut reason, cs.as_slice());
    fallback_decision(policy, reason.as_str())
}

fn capability(name: CapabilityName, available: bool, evidence: &str) -> (c: ControlCapability)
    ensures
        switch_capability(c, name, available, evidence@),
{
    ControlCapability {
        name,
        status: if available {
            CapabilityStatus::Available
        } else {
            CapabilityStatus::Missing
        },
        evidence: evidence.to_owned(),
        checked_at_ms: 0,
        risk_level: if available {
            RiskLevel::Normal
        } else {
            RiskLevel::Disabled
        },
    }
}

fn capability_with_status(
    name: CapabilityName,
    status: CapabilityStatus,
    evidence: String,
    risk_level: RiskLevel,
) -> (c: ControlCapability)
    ensures
        capability_is(c, name, status, evidence@, risk_level),
{
    ControlCapability { name, status, evidence, checked_at_ms: 0, risk_level }
}

fn is_busy_binder_state(state: &String) -> (r: bool)
    ensures
        r == busy_binder_text(ascii_lowercase(state@)),
{
    let cs = chars_of(state.as_str());
    let lower = to_ascii_lowercase(cs.as_slice());
    let busy = chars_of("busy");
    let sync = chars_of("sync_txn");
    let pending = chars_of("txns_pending");
    let binder_pending = chars_of("binder_pending");
    contains_chars(lower.as_slice(), busy.as_slice()) || contains_chars(lower.as_slice(), sync.as_slice())
        || contains_chars(lower.as_slice(), pending.as_slice()) || contains_chars(
        lower.as_slice(),
        binder_pending.as_slice(),
    )
}

/// The reason to wait for the first process that is pending freeze while its
/// binder state shows pending work, if there is one.
fn idle_blocker(processes: &[RuntimeProcess]) -> (r: Option<String>)
    ensures
        r is Some <==> first_idle_blocker(processes@, 0) is Some,
        r matches Some(s) ==> s@ == idle_reason(processes@[first_idle_blocker(processes@, 0)->0]),
{
    let mut i: usize = 0;
    while i < processes.len()
        invariant
            i <= processes@.len(),
            first_idle_blocker(processes@, 0) == first_idle_blocker(processes@, i as int),
        decreases processes@.len() - i,
    {
        let p = &processes[i];
        let busy = match p.control_state {
            ControlState::PendingFreeze => match &p.binder_state {
                Some(state) => is_busy_binder_state(state),
                None => false,
            },
            _ => false,
        };
        if busy {
            let mut reason = "pending freeze idle evidence not satisfied for pid ".to_owned();
            push_signed_decimal(&mut reason, p.pid as i128);
            reason.append(": ");
            match &p.binder_state {
                Some(state) => {
                    let cs = chars_of(state.as_str());
                    push_chars(&mut reason, cs.as_slice());
                },
                None => {
                    reason.append("unknown");
                },
            }
            return Some(reason);
        }
        i = i + 1;
    }
    None
}

/// The pids of the processes, in order.
pub fn pid_list(processes: &[RuntimeProcess]) -> (v: Vec<i32>)
    ensures
        v@ == pids_of(processes@),
{
    let mut v: Vec<i32> = Vec::new();
    let mut i: usize = 0;
    while i < processes.len()
        invariant
            i <= processes@.len(),
            v@ == pids_of(processes@.take(i as int)),
        decreases processes@.len() - i,
    {
        v.push(processes[i].pid);
        i = i + 1;
        assert(processes@.take(i as int) == processes@.take(i - 1 as int).push(processes@[i - 1]));
    }
    assert(processes@.take(processes@.len() as int) == processes@);
    v
}

fn operation(
    app: &ManagedApp,
    processes: &[RuntimeProcess],
    action: ControlAction,
    result: OperationResult,
    reason: &str,
) -> (op: ControlOperation)
    ensures
        backend_operation(op, *app, processes@, action, result, reason@),
{
    let mut details = "process_count=".to_owned();
    push_decimal(&mut details, processes.len() as u128);
    ControlOperation {
        operation_id: 0,
        timestamp_ms: 0,
        package_name: app.package_name.clone(),
        uid: app.uid,
        pid_list: pid_list(processes),
        action,
        backend: "SystemAwareCgroupBinderBackend".to_owned(),
        reason: reason.to_owned(),
        result,
        details,
    }
}

/// Marks every process frozen.
pub fn mark_processes_frozen(processes: &mut [RuntimeProcess])
    ensures
        final(processes)@.len() == old(processes)@.len(),
        forall|i: int|
            0 <= i < old(processes)@.len() ==> #[trigger] final(processes)@[i] == (RuntimeProcess {
                control_state: ControlState::Frozen,
                ..old(processes)@[i]
            }),
{
    let mut i: usize = 0;
    while i < processes.len()
        invariant
            i <= processes@.len(),
            processes@.len() == old(processes)@.len(),
            forall|j: int|
                0 <= j < i ==> #[trigger] processes@[j] == (RuntimeProcess {
                    control_state: ControlState::Frozen,
                    ..old(processes)@[j]
                }),
            forall|j: int| i <= j < processes@.len() ==> #[trigger] processes@[j] == old(processes)@[j],
        decreases processes@.len() - i,
    {
        processes[i].control_state = ControlState::Frozen;
        i = i + 1;
    }
}

/// Marks every process running.
pub fn mark_processes_running(processes: &mut [RuntimeProcess])
    ensures
        final(processes)@.len() == old(processes)@.len(),
        forall|i: int|
            0 <= i < old(processes)@.len() ==> #[trigger] final(processes)@[i] == (RuntimeProcess {
                control_state: ControlState::Running,
                ..old(processes)@[i]
            }),
{
    let mut i: usize = 0;
    while i < processes.len()
        invariant
            i <= processes@.len(),
            processes@.len() == old(processes)@.len(),
            forall|j: int|
                0 <= j < i ==> #[trigger] processes@[j] == (RuntimeProcess {
                    control_state: ControlState::Running,
                    ..old(processes)@[j]
                }),
            forall|j: int| i <= j < processes@.len() ==> #[trigger] processes@[j] == old(processes)@[j],
        decreases processes@.len() - i,
    {
        processes[i].control_state = ControlState::Running;
        i = i + 1;
    }
}

} // verus!

verus! {

proof fn lemma_no_idle_blocker_from(ps: Seq<RuntimeProcess>, i: int)
    requires
        0 <= i,
        first_idle_blocker(ps, i) is None,
    ensures
        forall|j: int| i <= j < ps.len() ==> !is_idle_blocker(#[trigger] ps[j]),
    decreases ps.len() - i,
{
    if i < ps.len() {
        lemma_no_idle_blocker_from(ps, i + 1);
    }
}

/// A protected app, or one whose policy neither freezes nor terminates, is
/// never acted on: the backend skips it, whatever the environment and its
/// processes.
pub proof fn lemma_uncontrolled_app_is_skipped(
    env: BackendEnvironment,
    app: ManagedApp,
    policy: FreezePolicy,
    ps: Seq<RuntimeProcess>,
)
    requires
        !(app.protected_reason is None && controls(policy->mode)),
    ensures
        freeze_decision(env, app, policy, ps).0 == DecisionAction::Skip,
{
}

/// The backend freezes only an unprotected, controlled app that has
/// processes, none of them foreground, visible or of unknown state and none
/// with binder work pending, and only with both freezers available and
/// fresh hook and screen evidence.
pub proof fn lemma_freeze_only_when_safe(
    env: BackendEnvironment,
    app: ManagedApp,
    policy: FreezePolicy,
    ps: Seq<RuntimeProcess>,
)
    requires
        freeze_decision(env, app, policy, ps).0 == DecisionAction::Freeze,
    ensures
        app.protected_reason is None,
        controls(policy->mode),
        ps.len() > 0,
        forall|i: int| 0 <= i < ps.len() ==> !blocks_freeze(#[trigger] ps[i].proc_state),
        forall|i: int| 0 <= i < ps.len() ==> !is_idle_blocker(#[trigger] ps[i]),
        env.cgroup_available && env.binder_available,
        env.hook_fresh && env.screen_state_available,
{
    assert forall|i: int| 0 <= i < ps.len() implies !blocks_freeze(#[trigger] ps[i].proc_state) by {
        if blocks_freeze(ps[i].proc_state) {
            assert(any_blocking_state(ps));
        }
    }
    lemma_no_idle_blocker_from(ps, 0);
}


proof fn lemma_idle_blocker_found_from(ps: Seq<RuntimeProcess>, i: int, j: int)
    requires
        0 <= i <= j < ps.len(),
        is_idle_blocker(ps[j]),
    ensures
        first_idle_blocker(ps, i) matches Some(k) && i <= k <= j && is_idle_blocker(ps[k])
            && forall|m: int| i <= m < k ==> !is_idle_blocker(#[trigger] ps[m]),
    decreases ps.len() - i,
{
    if !is_idle_blocker(ps[i]) {
        lemma_idle_blocker_found_from(ps, i + 1, j);
    }
}

/// A protected app, or a policy whose mode is `Protected` or `Free`, is
/// skipped because control is blocked, whatever the environment and the
/// processes.
pub proof fn law_blocked_control_is_skipped(
    env: BackendEnvironment,
    app: ManagedApp,
    policy: FreezePolicy,
    ps: Seq<RuntimeProcess>,
)
    requires
        app.protected_reason is Some || policy->mode == FreezeMode::Protected || policy->mode
            == FreezeMode::Free,
    ensures
        freeze_decision(env, app, policy, ps) == (
            DecisionAction::Skip,
            "policy or protected package blocks control"@,
        ),
{
}

/// An unprotected app under a freezing or terminating policy with no
/// process is skipped.
pub proof fn law_no_process_is_skipped(
    env: BackendEnvironment,
    app: ManagedApp,
    policy: FreezePolicy,
    ps: Seq<RuntimeProcess>,
)
    requires
        app.protected_reason is None,
        policy->mode == FreezeMode::Freeze || policy->mode == FreezeMode::FreezeWithRestrictions
            || policy->mode == FreezeMode::Terminate,
        ps.len() == 0,
    ensures
        freeze_decision(env, app, policy, ps) == (DecisionAction::Skip, "no runtime processes"@),
{
}

/// An unprotected, controlled app with a process that is in the
/// foreground, visible, or of unknown state waits: it is postponed, not
/// frozen and not skipped.
pub proof fn law_shown_process_postpones(
    env: BackendEnvironment,
    app: ManagedApp,
    policy: FreezePolicy,
    ps: Seq<RuntimeProcess>,
    i: int,
)
    requires
        app.protected_reason is None,
        policy->mode == FreezeMode::Freeze || policy->mode == FreezeMode::FreezeWithRestrictions
            || policy->mode == FreezeMode::Terminate,
        0 <= i < ps.len(),
        ps[i].proc_state == ProcessState::Foreground || ps[i].proc_state == ProcessState::Visible
            || ps[i].proc_state == ProcessState::Unknown,
    ensures
        freeze_decision(env, app, policy, ps) == (
            DecisionAction::Postpone,
            "foreground, visible, or unknown process state"@,
        ),
{
    assert(blocks_freeze(ps[i].proc_state));
}

/// An unprotected, controlled app whose processes are all in the
/// background (service, cached or empty) waits for fresh evidence: when
/// the hook's evidence is stale or the screen state is unavailable, it is
/// postponed, not frozen and not skipped.
pub proof fn law_stale_evidence_postpones(
    env: BackendEnvironment,
    app: ManagedApp,
    policy: FreezePolicy,
    ps: Seq<RuntimeProcess>,
)
    requires
        app.protected_reason is None,
        policy->mode == FreezeMode::Freeze || policy->mode == FreezeMode::FreezeWithRestrictions
            || policy->mode == FreezeMode::Terminate,
        ps.len() > 0,
        forall|i: int|
            0 <= i < ps.len() ==> (#[trigger] ps[i].proc_state == ProcessState::Service
                || ps[i].proc_state == ProcessState::Cached || ps[i].proc_state
                == ProcessState::Empty),
        !env.hook_fresh || !env.screen_state_available,
    ensures
        freeze_decision(env, app, policy, ps) == (
            DecisionAction::Postpone,
            "fresh hook and screen-state evidence required"@,
        ),
{
    assert(!any_blocking_state(ps));
}

/// With fresh evidence and every process in the background, an app whose
/// process is pending freeze with binder work (`busy`, `sync_txn`,
/// `txns_pending` or `binder_pending` in its binder state, in any case) is
/// postponed, naming the first such process and its binder state.
pub proof fn law_binder_work_postpones(
    env: BackendEnvironment,
    app: ManagedApp,
    policy: FreezePolicy,
    ps: Seq<RuntimeProcess>,
    i: int,
)
    requires
        app.protected_reason is None,
        policy->mode == FreezeMode::Freeze || policy->mode == FreezeMode::FreezeWithRestrictions
            || policy->mode == FreezeMode::Terminate,
        forall|k: int|
            0 <= k < ps.len() ==> (#[trigger] ps[k].proc_state == ProcessState::Service
                || ps[k].proc_state == ProcessState::Cached || ps[k].proc_state
                == ProcessState::Empty),
        env.hook_fresh && env.screen_state_available,
        0 <= i < ps.len(),
        ps[i].control_state == ControlState::PendingFreeze,
        ps[i].binder_state is Some,
        contains(ascii_lowercase(ps[i].binder_state->0@), "busy"@) || contains(
            ascii_lowercase(ps[i].binder_state->0@),
            "sync_txn"@,
        ) || contains(ascii_lowercase(ps[i].binder_state->0@), "txns_pending"@) || contains(
            ascii_lowercase(ps[i].binder_state->0@),
            "binder_pending"@,
        ),
    ensures
        freeze_decision(env, app, policy, ps).0 == DecisionAction::Postpone,
        exists|j: int|
            0 <= j <= i && ps[j].control_state == ControlState::PendingFreeze
                && ps[j].binder_state is Some && freeze_decision(env, app, policy, ps).1
                == "pending freeze idle evidence not satisfied for pid "@ + signed_decimal(
                ps[j].pid as int,
            ) + ": "@ + ps[j].binder_state->0@,
{
    assert(!any_blocking_state(ps));
    assert(is_idle_blocker(ps[i]));
    lemma_idle_blocker_found_from(ps, 0, i);
    let j = first_idle_blocker(ps, 0)->0;
    assert(ps[j].control_state == ControlState::PendingFreeze);
}

/// With fresh evidence, every process in the background and none pending
/// freeze with binder work, an unprotected, controlled app is frozen when
/// both freezers are available.
pub proof fn law_idle_app_is_frozen(
    env: BackendEnvironment,
    app: ManagedApp,
    policy: FreezePolicy,
    ps: Seq<RuntimeProcess>,
)
    requires
        app.protected_reason is None,
        policy->mode == FreezeMode::Freeze || policy->mode == FreezeMode::FreezeWithRestrictions
            || policy->mode == FreezeMode::Terminate,
        ps.len() > 0,
        forall|k: int|
            0 <= k < ps.len() ==> (#[trigger] ps[k].proc_state == ProcessState::Service
                || ps[k].proc_state == ProcessState::Cached || ps[k].proc_state
                == ProcessState::Empty),
        forall|k: int|
            0 <= k < ps.len() ==> #[trigger] ps[k].control_state != ControlState::PendingFreeze,
        env.hook_fresh && env.screen_state_available,
        env.cgroup_available && env.binder_available,
    ensures
        freeze_decision(env, app, policy, ps) == (
            DecisionAction::Freeze,
            "cgroup and binder freezer available"@,
        ),
{
    assert(!any_blocking_state(ps));
    if first_idle_blocker(ps, 0) is Some {
        assert(first_idle_blocker(ps, 0) is None) by {
            lemma_first_idle_blocker_is_blocker(ps, 0);
        }
    }
}

proof fn lemma_first_idle_blocker_is_blocker(ps: Seq<RuntimeProcess>, i: int)
    requires
        0 <= i,
    ensures
        first_idle_blocker(ps, i) matches Some(k) ==> i <= k < ps.len() && is_idle_blocker(ps[k]),
    decreases ps.len() - i,
{
    if i < ps.len() && !is_idle_blocker(ps[i]) {
        lemma_first_idle_blocker_is_blocker(ps, i + 1);
    }
}

/// When a freezer is missing, an app that would otherwise be frozen gets
/// its policy's first fallback (`Skip` when it lists none), with the reason
/// that the preferred freezer is unavailable; it is never frozen.
pub proof fn law_missing_freezer_falls_back(
    env: BackendEnvironment,
    app: ManagedApp,
    policy: FreezePolicy,
    ps: Seq<RuntimeProcess>,
)
    requires
        app.protected_reason is None,
        policy->mode == FreezeMode::Freeze || policy->mode == FreezeMode::FreezeWithRestrictions
            || policy->mode == FreezeMode::Terminate,
        ps.len() > 0,
        forall|k: int|
            0 <= k < ps.len() ==> (#[trigger] ps[k].proc_state == ProcessState::Service
                || ps[k].proc_state == ProcessState::Cached || ps[k].proc_state
                == ProcessState::Empty),
        forall|k: int|
            0 <= k < ps.len() ==> #[trigger] ps[k].control_state != ControlState::PendingFreeze,
        env.hook_fresh && env.screen_state_available,
        !(env.cgroup_available && env.binder_available),
    ensures
        freeze_decision(env, app, policy, ps).1 == "preferred freezer unavailable"@,
        freeze_decision(env, app, policy, ps).0 != DecisionAction::Freeze,
        policy->fallback_strategy@.len() == 0 ==> freeze_decision(env, app, policy, ps).0
            == DecisionAction::Skip,
        policy->fallback_strategy@.len() > 0 ==> match policy->fallback_strategy@[0] {
            FallbackAction::Postpone => freeze_decision(env, app, policy, ps).0
                == DecisionAction::Postpone,
            FallbackAction::AlternateFreezer => freeze_decision(env, app, policy, ps).0
                == DecisionAction::AlternateFreezer,
            FallbackAction::Signal => freeze_decision(env, app, policy, ps).0
                == DecisionAction::Signal,
            FallbackAction::Terminate => freeze_decision(env, app, policy, ps).0
                == DecisionAction::Terminate,
            FallbackAction::Skip => freeze_decision(env, app, policy, ps).0 == DecisionAction::Skip,
        },
{
    assert(!any_blocking_state(ps));
    lemma_first_idle_blocker_is_blocker(ps, 0);
}

} // verus!
