use vstd::prelude::*;
use crate::text::chars::{chars_of, push_chars};

verus! {

/// Declares `std::io::Error` so that the daemon's error can carry it.
#[verifier::external_type_specification]
#[verifier::external_body]
pub struct ExIoError(std::io::Error);

/// An I/O failure as the daemon reads it: whether the operating system
/// refused permission, and the error's description.
#[derive(Debug)]
pub struct IoFailure {
    pub permission_denied: bool,
    pub text: String,
}

/// What the daemon can fail with.
#[derive(Debug)]
pub enum DaemonError {
    Config(String),
    Io(IoFailure),
    Protocol(String),
    System(String),
}

/// Trusted: `std::io::Error::kind` compared with `ErrorKind::PermissionDenied`.
/// The contract states nothing of the result: an `std::io::Error` is opaque
/// here, so whether its kind is `PermissionDenied` is not stated.
#[verifier::external_body]
fn io_error_is_permission_denied(error: &std::io::Error) -> bool {
    match error.kind() {
        std::io::ErrorKind::PermissionDenied => true,
        _ => false,
    }
}

/// Trusted: the `Display` text of an `std::io::Error` (`to_string`). The
/// contract states nothing of the text, which comes from the operating
/// system's description of the error.
#[verifier::external_body]
fn io_error_text(error: &std::io::Error) -> String {
    error.to_string()
}

/// The message that the daemon shows for an error: a prefix naming its
/// kind, then its text.
pub open spec fn error_message(e: &DaemonError) -> Seq<char> {
    match e {
        DaemonError::Config(m) => "config error: "@ + m@,
        DaemonError::Io(f) => "io error: "@ + f.text@,
        DaemonError::Protocol(m) => "protocol error: "@ + m@,
        DaemonError::System(m) => "system error: "@ + m@,
    }
}

/// Whether the error is an I/O failure for which the operating system
/// refused permission.
pub open spec fn denies_permission(e: &DaemonError) -> bool {
    e matches DaemonError::Io(f) && f.permission_denied
}

impl DaemonError {
    /// A configuration error with the given message.
    pub fn config(message: &str) -> (e: Self)
        ensures
            e matches DaemonError::Config(m) && m@ == message@,
    {
        DaemonError::Config(message.to_owned())
    }

    /// A protocol error with the given message.
    pub fn protocol(message: &str) -> (e: Self)
        ensures
            e matches DaemonError::Protocol(m) && m@ == message@,
    {
        DaemonError::Protocol(message.to_owned())
    }

    /// A system error with the given message.
    pub fn system(message: &str) -> (e: Self)
        ensures
            e matches DaemonError::System(m) && m@ == message@,
    {
        DaemonError::System(message.to_owned())
    }

    /// An I/O error, with whether permission was refused and its text.
    pub fn io(permission_denied: bool, text: &str) -> (e: Self)
        ensures
            e matches DaemonError::Io(f) && f.permission_denied == permission_denied && f.text@
                == text@,
    {
        DaemonError::Io(IoFailure { permission_denied, text: text.to_owned() })
    }

    /// The text of the error, as the daemon prints it.
    pub fn message(&self) -> (s: String)
        ensures
            s@ == error_message(self),
    {
        match self {
            DaemonError::Config(m) => prefixed("config error: ", m),
            DaemonError::Io(f) => prefixed("io error: ", &f.text),
            DaemonError::Protocol(m) => prefixed("protocol error: ", m),
            DaemonError::System(m) => prefixed("system error: ", m),
        }
    }

    /// The I/O failure underneath, for an I/O error; other errors have none.
    pub fn source(&self) -> (r: Option<&IoFailure>)
        ensures
            r is Some <==> self is Io,
            r matches Some(f) ==> *self == DaemonError::Io(*f),
    {
        match self {
            DaemonError::Io(f) => Some(f),
            _ => None,
        }
    }
}

fn prefixed(prefix: &str, m: &String) -> (s: String)
    ensures
        s@ == prefix@ + m@,
{
    let mut s = prefix.to_owned();
    let cs = chars_of(m.as_str());
    push_chars(&mut s, cs.as_slice());
    s
}

/// An I/O error read from `std::io::Error`: whether its kind is
/// `PermissionDenied`, and its text. What the two std calls give is not
/// stated, so the conversion promises nothing of the result.
impl From<std::io::Error> for DaemonError {
    fn from(error: std::io::Error) -> (e: Self) {
        DaemonError::Io(
            IoFailure {
                permission_denied: io_error_is_permission_denied(&error),
                text: io_error_text(&error),
            },
        )
    }
}

impl vstd::std_specs::convert::FromSpecImpl<std::io::Error> for DaemonError {
    open spec fn obeys_from_spec() -> bool {
        false
    }

    open spec fn from_spec(v: std::io::Error) -> Self {
        vstd::pervasive::arbitrary()
    }
}

} // verus!
