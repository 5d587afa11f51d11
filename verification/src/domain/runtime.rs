use vstd::prelude::*;
use crate::text::chars::str_eq;

verus! {

/// A process of a managed app as the daemon last saw it.
#[derive(Debug, Clone, PartialEq, Eq)]
pub struct RuntimeProcess {
    pub pid: i32,
    pub uid: u32,
    pub package_name: String,
    pub process_name: String,
    pub proc_state: ProcessState,
    pub control_state: ControlState,
    pub cgroup_freeze_path: Option<String>,
    pub binder_state: Option<String>,
    pub last_seen_at_ms: u128,
}

impl RuntimeProcess {
    /// Whether the process belongs to the given package and uid.
    pub fn identity_matches(&self, package_name: &str, uid: u32) -> (r: bool)
        ensures
            r == (self.package_name@ == package_name@ && self.uid == uid),
    {
        str_eq(self.package_name.as_str(), package_name) && self.uid == uid
    }
}

/// The Android process state of a process.
#[derive(Debug, Clone, Copy, PartialEq, Eq, Structural)]
pub enum ProcessState {
    Foreground,
    Visible,
    Service,
    Cached,
    Empty,
    Unknown,
}

/// Where a process stands in the daemon's freeze control.
#[derive(Debug, Clone, Copy, PartialEq, Eq, Structural)]
pub enum ControlState {
    Running,
    PendingFreeze,
    Frozen,
    Unfreezing,
    Unknown,
}

} // verus!
