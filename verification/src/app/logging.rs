use vstd::prelude::*;

verus! {

/// The severity of a log record.
#[derive(Debug, Clone, Copy, PartialEq, Eq, Structural)]
pub enum LogLevel {
    Info,
    Warn,
    Error,
}

/// A log record stamped with the time it was made.
#[derive(Debug, Clone, PartialEq, Eq)]
pub struct LogRecord {
    pub level: LogLevel,
    pub timestamp_ms: u128,
    pub message: String,
}

/// Trusted: `SystemTime::now().duration_since(UNIX_EPOCH)` in milliseconds,
/// or 0 when the clock is before the epoch. Nothing is stated of the value,
/// which is the time of the call.
#[verifier::external_body]
fn now_ms() -> u128 {
    match std::time::SystemTime::now().duration_since(std::time::UNIX_EPOCH) {
        Ok(duration) => duration.as_millis(),
        Err(_) => 0,
    }
}

impl LogRecord {
    /// A record of the given level and message, stamped with the current
    /// time.
    pub fn new(level: LogLevel, message: &str) -> (r: Self)
        ensures
            r.level == level,
            r.message@ == message@,
    {
        LogRecord { level, timestamp_ms: now_ms(), message: message.to_owned() }
    }
}

/// The record written when the daemon starts.
pub fn startup_message() -> (r: LogRecord)
    ensures
        r.level == LogLevel::Info,
        r.message@ == "freezeit daemon starting"@,
{
    LogRecord::new(LogLevel::Info, "freezeit daemon starting")
}

} // verus!
