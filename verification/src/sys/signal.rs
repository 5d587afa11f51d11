use vstd::prelude::*;
use crate::app::error::DaemonError;

verus! {

/// The signal number of `SIGSTOP`.
pub const SIGSTOP_NUMBER: i32 = 19;

/// The signal number of `SIGCONT`.
pub const SIGCONT_NUMBER: i32 = 18;

/// A signal that the daemon may send to a process.
#[derive(Debug, Clone, Copy, PartialEq, Eq, Structural)]
pub enum SignalAction {
    Stop,
    Continue,
}

impl SignalAction {
    /// The signal number: `SIGSTOP` to stop, `SIGCONT` to continue.
    pub fn signal_number(self) -> (n: i32)
        ensures
            self == SignalAction::Stop ==> n == SIGSTOP_NUMBER,
            self == SignalAction::Continue ==> n == SIGCONT_NUMBER,
    {
        match self {
            SignalAction::Stop => SIGSTOP_NUMBER,
            SignalAction::Continue => SIGCONT_NUMBER,
        }
    }
}

/// Signals are sent only in test mode, and only to a positive pid.
pub fn is_signal_allowed(test_mode: bool, pid: i32) -> (r: bool)
    ensures
        r == (test_mode && pid > 0),
{
    test_mode && pid > 0
}

/// The check made before a signal is sent: a pid that is not positive would
/// address a process group or every process, and is refused.
pub fn signal_target_check(pid: i32) -> (r: Result<(), DaemonError>)
    ensures
        pid > 0 ==> r is Ok,
        pid <= 0 ==> (r matches Err(DaemonError::System(m)) && m@
            == "refusing to signal non-positive pid"@),
{
    if pid <= 0 {
        return Err(DaemonError::system("refusing to signal non-positive pid"));
    }
    Ok(())
}


/// Stopping sends signal 19 (`SIGSTOP`) and continuing sends signal 18
/// (`SIGCONT`), the Linux numbers.
pub proof fn law_signal_numbers()
    ensures
        SIGSTOP_NUMBER == 19,
        SIGCONT_NUMBER == 18,
{
}

} // verus!
