use vstd::prelude::*;
use crate::app::error::{error_message, DaemonError};
use crate::protocol::bytes::{
    le_bytes, le_i32, le_u32, lemma_le_i32_round_trip, push_le_i32, read_le_i32, read_le_u32,
};
use crate::text::chars::{chars_of, push_chars};
use crate::text::format::{decimal, push_decimal, push_signed_decimal, signed_decimal};
use crate::text::scan::{contains, contains_chars};

verus! {

/// The abstract socket name of the hook's server.
pub const XPOSED_SOCKET_NAME: &'static str = "\0FreezeitXposedServer";

/// The base from which hook command codes count.
pub const FREEZEIT_COMMAND_BASE: i32 = 1_359_322_925;

/// The length of a frame header: command code and payload length.
pub const HEADER_LEN: usize = 8;

/// The largest payload a frame may carry.
pub const MAX_PAYLOAD_LEN: usize = 1024 * 1024;

/// A command understood by the hook.
#[derive(Debug, Clone, Copy, PartialEq, Eq, Structural)]
pub enum XposedCommand {
    GetForeground,
    GetScreen,
    GetXpLog,
    SetConfig,
    SetWakeupLock,
    BreakNetwork,
    UpdatePending,
    GetHookHealth,
    GetRuntimeAppStates,
    GetSystemFreezerHints,
}

/// The offset of each command's code from the base.
pub open spec fn command_offset(c: XposedCommand) -> int {
    match c {
        XposedCommand::GetForeground => 1,
        XposedCommand::GetScreen => 2,
        XposedCommand::GetXpLog => 3,
        XposedCommand::SetConfig => 20,
        XposedCommand::SetWakeupLock => 21,
        XposedCommand::BreakNetwork => 41,
        XposedCommand::UpdatePending => 60,
        XposedCommand::GetHookHealth => 70,
        XposedCommand::GetRuntimeAppStates => 71,
        XposedCommand::GetSystemFreezerHints => 72,
    }
}

/// The wire code of a command.
pub open spec fn command_code(c: XposedCommand) -> int {
    FREEZEIT_COMMAND_BASE + command_offset(c)
}

/// The command with the given wire code, if any.
pub open spec fn command_for_code(v: int) -> Option<XposedCommand> {
    let o = v - FREEZEIT_COMMAND_BASE;
    if o == 1 {
        Some(XposedCommand::GetForeground)
    } else if o == 2 {
        Some(XposedCommand::GetScreen)
    } else if o == 3 {
        Some(XposedCommand::GetXpLog)
    } else if o == 20 {
        Some(XposedCommand::SetConfig)
    } else if o == 21 {
        Some(XposedCommand::SetWakeupLock)
    } else if o == 41 {
        Some(XposedCommand::BreakNetwork)
    } else if o == 60 {
        Some(XposedCommand::UpdatePending)
    } else if o == 70 {
        Some(XposedCommand::GetHookHealth)
    } else if o == 71 {
        Some(XposedCommand::GetRuntimeAppStates)
    } else if o == 72 {
        Some(XposedCommand::GetSystemFreezerHints)
    } else {
        None
    }
}

/// Each command is found again from its code.
pub proof fn lemma_command_code_round_trip(c: XposedCommand)
    ensures
        command_for_code(command_code(c)) == Some(c),
{
}

/// The wire codes are those of the hook's protocol: the base plus 1, 2
/// and 3 for the foreground, screen and log queries, 20 and 21 for the
/// config and wake-lock commands, 41 for breaking the network, 60 for
/// pending updates, and 70, 71 and 72 for the health, app-state and freezer
/// hint queries; a code is read back as its command, and no other code is
/// a command.
pub proof fn law_command_codes(v: int)
    ensures
        command_code(XposedCommand::GetForeground) == 1_359_322_926,
        command_code(XposedCommand::GetScreen) == 1_359_322_927,
        command_code(XposedCommand::GetXpLog) == 1_359_322_928,
        command_code(XposedCommand::SetConfig) == 1_359_322_945,
        command_code(XposedCommand::SetWakeupLock) == 1_359_322_946,
        command_code(XposedCommand::BreakNetwork) == 1_359_322_966,
        command_code(XposedCommand::UpdatePending) == 1_359_322_985,
        command_code(XposedCommand::GetHookHealth) == 1_359_322_995,
        command_code(XposedCommand::GetRuntimeAppStates) == 1_359_322_996,
        command_code(XposedCommand::GetSystemFreezerHints) == 1_359_322_997,
        command_for_code(v) matches Some(c) ==> command_code(c) == v,
        command_for_code(v) is None <==> !(v == 1_359_322_926 || v == 1_359_322_927 || v
            == 1_359_322_928 || v == 1_359_322_945 || v == 1_359_322_946 || v == 1_359_322_966
            || v == 1_359_322_985 || v == 1_359_322_995 || v == 1_359_322_996 || v
            == 1_359_322_997),
{
}

impl XposedCommand {
    /// The wire code of the command.
    pub fn code(self) -> (v: i32)
        ensures
            v as int == command_code(self),
    {
        match self {
            XposedCommand::GetForeground => FREEZEIT_COMMAND_BASE + 1,
            XposedCommand::GetScreen => FREEZEIT_COMMAND_BASE + 2,
            XposedCommand::GetXpLog => FREEZEIT_COMMAND_BASE + 3,
            XposedCommand::SetConfig => FREEZEIT_COMMAND_BASE + 20,
            XposedCommand::SetWakeupLock => FREEZEIT_COMMAND_BASE + 21,
            XposedCommand::BreakNetwork => FREEZEIT_COMMAND_BASE + 41,
            XposedCommand::UpdatePending => FREEZEIT_COMMAND_BASE + 60,
            XposedCommand::GetHookHealth => FREEZEIT_COMMAND_BASE + 70,
            XposedCommand::GetRuntimeAppStates => FREEZEIT_COMMAND_BASE + 71,
            XposedCommand::GetSystemFreezerHints => FREEZEIT_COMMAND_BASE + 72,
        }
    }

    /// The command with the given code; an unknown code is a protocol
    /// error naming it.
    pub fn from_code(value: i32) -> (r: Result<Self, DaemonError>)
        ensures
            command_for_code(value as int) matches Some(c) ==> r == Ok::<Self, DaemonError>(c),
            command_for_code(value as int) is None ==> (r matches Err(DaemonError::Protocol(m))
                && m@ == "unknown xposed command "@ + signed_decimal(value as int)),
    {
        let all = [
            XposedCommand::GetForeground,
            XposedCommand::GetScreen,
            XposedCommand::GetXpLog,
            XposedCommand::SetConfig,
            XposedCommand::SetWakeupLock,
            XposedCommand::BreakNetwork,
            XposedCommand::UpdatePending,
            XposedCommand::GetHookHealth,
            XposedCommand::GetRuntimeAppStates,
            XposedCommand::GetSystemFreezerHints,
        ];
        let mut i: usize = 0;
        while i < 10
            invariant
                i <= 10,
                all@ == seq![
                    XposedCommand::GetForeground,
                    XposedCommand::GetScreen,
                    XposedCommand::GetXpLog,
                    XposedCommand::SetConfig,
                    XposedCommand::SetWakeupLock,
                    XposedCommand::BreakNetwork,
                    XposedCommand::UpdatePending,
                    XposedCommand::GetHookHealth,
                    XposedCommand::GetRuntimeAppStates,
                    XposedCommand::GetSystemFreezerHints,
                ],
                forall|j: int| 0 <= j < i ==> command_code(#[trigger] all@[j]) != value,
            decreases 10 - i,
        {
            if all[i].code() == value {
                return Ok(all[i]);
            }
            i = i + 1;
        }
        proof {
            if command_for_code(value as int) is Some {
                let c = command_for_code(value as int)->0;
                assert(command_code(c) == value);
                assert(exists|j: int| 0 <= j < 10 && all@[j] == c);
            }
        }
        let mut message = "unknown xposed command ".to_owned();
        push_signed_decimal(&mut message, value as i128);
        Err(DaemonError::Protocol(message))
    }
}

/// A frame exchanged with the hook.
#[derive(Debug, Clone, PartialEq, Eq)]
pub struct XposedFrame {
    pub command: XposedCommand,
    pub payload: Vec<u8>,
}

/// The state of the bridge to the hook.
#[derive(Debug, Clone, PartialEq, Eq)]
pub enum HookBridgeStatus {
    Active,
    Missing(String),
    Degraded(String),
}

/// The health label of a bridge status.
pub open spec fn health_label_of(s: HookBridgeStatus) -> Seq<char> {
    match s {
        HookBridgeStatus::Active => "active"@,
        HookBridgeStatus::Missing(_) => "missing"@,
        HookBridgeStatus::Degraded(_) => "degraded"@,
    }
}

impl HookBridgeStatus {
    /// Control needs an active bridge.
    pub fn is_ready_for_control(&self) -> (r: bool)
        ensures
            r == (*self is Active),
    {
        match self {
            HookBridgeStatus::Active => true,
            _ => false,
        }
    }

    /// `active`, `missing` or `degraded`.
    pub fn health_label(&self) -> (s: &'static str)
        ensures
            s@ == health_label_of(*self),
    {
        match self {
            HookBridgeStatus::Active => "active",
            HookBridgeStatus::Missing(_) => "missing",
            HookBridgeStatus::Degraded(_) => "degraded",
        }
    }
}

/// Whether an error text shows that the hook is not there at all.
pub open spec fn shows_missing_hook(t: Seq<char>) -> bool {
    contains(t, "No such file"@) || contains(t, "Connection refused"@) || contains(t, "not found"@)
}

/// An error text shows a missing hook exactly when it names a missing file
/// (`No such file`), a refused connection (`Connection refused`) or
/// something not found (`not found`).
pub proof fn law_missing_hook_texts(t: Seq<char>)
    ensures
        contains(t, "No such file"@) ==> shows_missing_hook(t),
        contains(t, "Connection refused"@) ==> shows_missing_hook(t),
        contains(t, "not found"@) ==> shows_missing_hook(t),
        !contains(t, "No such file"@) && !contains(t, "Connection refused"@) && !contains(
            t,
            "not found"@,
        ) ==> !shows_missing_hook(t),
{
}

/// The bridge status after talking to the hook failed: missing when the
/// error shows that nothing listens, degraded otherwise; either way the
/// status carries the error's text.
pub fn classify_bridge_error(error: &DaemonError) -> (s: HookBridgeStatus)
    ensures
        shows_missing_hook(error_message(error)) ==> (s matches HookBridgeStatus::Missing(t)
            && t@ == error_message(error)),
        !shows_missing_hook(error_message(error)) ==> (s matches HookBridgeStatus::Degraded(t)
            && t@ == error_message(error)),
{
    let message = error.message();
    let cs = chars_of(message.as_str());
    let a = chars_of("No such file");
    let b = chars_of("Connection refused");
    let c = chars_of("not found");
    if contains_chars(cs.as_slice(), a.as_slice()) || contains_chars(cs.as_slice(), b.as_slice())
        || contains_chars(cs.as_slice(), c.as_slice()) {
        HookBridgeStatus::Missing(message)
    } else {
        HookBridgeStatus::Degraded(message)
    }
}

/// The bridge status reported by a hook health payload.
pub open spec fn hook_health_status(payload: Seq<char>, s: HookBridgeStatus) -> bool {
    if contains(payload, "\"status\":\"active\""@) {
        s == HookBridgeStatus::Active
    } else if contains(payload, "\"status\":\"degraded\""@) {
        s is Degraded && s->Degraded_0@ == payload
    } else {
        s is Degraded && s->Degraded_0@ == "unrecognized hook health payload: "@ + payload
    }
}

/// A health payload that holds `"status":"active"` makes the bridge active
/// and ready for control; any other payload leaves it degraded and not
/// ready, carrying the payload when it says `"status":"degraded"` and a
/// note that it is not understood otherwise.
pub proof fn law_hook_health_payloads(payload: Seq<char>, s: HookBridgeStatus)
    requires
        hook_health_status(payload, s),
    ensures
        contains(payload, "\"status\":\"active\""@) <==> s == HookBridgeStatus::Active,
        !contains(payload, "\"status\":\"active\""@) && contains(
            payload,
            "\"status\":\"degraded\""@,
        ) ==> (s matches HookBridgeStatus::Degraded(t) && t@ == payload),
        !contains(payload, "\"status\":\"active\""@) && !contains(
            payload,
            "\"status\":\"degraded\""@,
        ) ==> (s matches HookBridgeStatus::Degraded(t) && t@
            == "unrecognized hook health payload: "@ + payload),
{
}

/// Reads a hook health payload: active, degraded, or degraded because the
/// payload is not understood.
pub fn classify_hook_health_payload(payload: &str) -> (s: HookBridgeStatus)
    ensures
        hook_health_status(payload@, s),
{
    let cs = chars_of(payload);
    let active = chars_of("\"status\":\"active\"");
    let degraded = chars_of("\"status\":\"degraded\"");
    if contains_chars(cs.as_slice(), active.as_slice()) {
        HookBridgeStatus::Active
    } else if contains_chars(cs.as_slice(), degraded.as_slice()) {
        HookBridgeStatus::Degraded(payload.to_owned())
    } else {
        let mut text = "unrecognized hook health payload: ".to_owned();
        push_chars(&mut text, cs.as_slice());
        HookBridgeStatus::Degraded(text)
    }
}

/// The uids of a foreground payload: a count, then that many 32-bit values,
/// all little-endian.
pub open spec fn foreground_uids(payload: Seq<u8>, count: nat) -> Seq<u32> {
    Seq::new(count, |i: int| le_u32(payload, 4 + 4 * i) as u32)
}

/// Reads the legacy foreground payload: a count and the uids after it. A
/// missing or negative count, or too few bytes for the count, is a protocol
/// error; bytes after the last uid are ignored.
pub fn parse_foreground_uid_payload(payload: &[u8]) -> (r: Result<Vec<u32>, DaemonError>)
    ensures
        payload@.len() < 4 ==> (r matches Err(DaemonError::Protocol(m)) && m@
            == "foreground uid payload count is missing"@),
        payload@.len() >= 4 && le_i32(payload@, 0) < 0 ==> (r matches Err(DaemonError::Protocol(m))
            && m@ == "foreground uid payload count is negative"@),
        payload@.len() >= 4 && le_i32(payload@, 0) >= 0 && payload@.len() < 4 + 4 * le_i32(
            payload@,
            0,
        ) ==> (r matches Err(DaemonError::Protocol(m)) && m@
            == "foreground uid payload length mismatch: expected at least "@ + decimal(
            (4 + 4 * le_i32(payload@, 0)) as nat,
        ) + ", got "@ + decimal(payload@.len())),
        payload@.len() >= 4 && le_i32(payload@, 0) >= 0 && payload@.len() >= 4 + 4 * le_i32(
            payload@,
            0,
        ) ==> (r matches Ok(uids) && uids@ == foreground_uids(payload@, le_i32(payload@, 0) as nat)),
{
    let len = payload.len();
    if len < 4 {
        return Err(DaemonError::protocol("foreground uid payload count is missing"));
    }
    let count = read_le_i32(payload, 0);
    if count < 0 {
        return Err(DaemonError::protocol("foreground uid payload count is negative"));
    }
    let expected: u64 = 4 + (count as u64) * 4;
    if (len as u64) < expected {
        let mut message = "foreground uid payload length mismatch: expected at least ".to_owned();
        push_decimal(&mut message, expected as u128);
        message.append(", got ");
        push_decimal(&mut message, len as u128);
        return Err(DaemonError::Protocol(message));
    }
    let count = count as usize;
    let mut uids: Vec<u32> = Vec::new();
    let mut i: usize = 0;
    while i < count
        invariant
            i <= count,
            len == payload@.len(),
            4 + 4 * count <= payload@.len(),
            uids@ == foreground_uids(payload@, count as nat).take(i as int),
        decreases count - i,
    {
        let offset = 4 + i * 4;
        uids.push(read_le_u32(payload, offset));
        i = i + 1;
        assert(uids@ == foreground_uids(payload@, count as nat).take(i as int));
    }
    assert(uids@ == foreground_uids(payload@, count as nat));
    Ok(uids)
}

/// What reading a frame gives.
pub open spec fn frame_error(bytes: Seq<u8>) -> Option<Seq<char>> {
    if bytes.len() < HEADER_LEN {
        Some("xposed frame header is incomplete"@)
    } else if le_i32(bytes, 4) < 0 {
        Some("xposed frame payload length is negative"@)
    } else if le_i32(bytes, 4) > MAX_PAYLOAD_LEN {
        Some("xposed frame payload is too large"@)
    } else if bytes.len() != HEADER_LEN + le_i32(bytes, 4) {
        Some(
            "xposed frame length mismatch: expected "@ + decimal((HEADER_LEN + le_i32(bytes, 4)) as nat)
                + ", got "@ + decimal(bytes.len()),
        )
    } else if command_for_code(le_i32(bytes, 0)) is None {
        Some("unknown xposed command "@ + signed_decimal(le_i32(bytes, 0)))
    } else {
        None
    }
}

/// Reads a frame: a command code and a payload length, little-endian, then
/// exactly that many payload bytes. Each malformed frame is a protocol
/// error saying what is wrong.
pub fn parse_frame(bytes: &[u8]) -> (r: Result<XposedFrame, DaemonError>)
    ensures
        frame_error(bytes@) matches Some(t) ==> (r matches Err(DaemonError::Protocol(m)) && m@
            == t),
        frame_error(bytes@) is None ==> (r matches Ok(f) && Some(f.command) == command_for_code(
            le_i32(bytes@, 0),
        ) && f.payload@ == bytes@.skip(HEADER_LEN as int)),
{
    let len = bytes.len();
    if len < HEADER_LEN {
        return Err(DaemonError::protocol("xposed frame header is incomplete"));
    }
    let command = read_le_i32(bytes, 0);
    let payload_len = read_le_i32(bytes, 4);
    if payload_len < 0 {
        return Err(DaemonError::protocol("xposed frame payload length is negative"));
    }
    let payload_len = payload_len as usize;
    if payload_len > MAX_PAYLOAD_LEN {
        return Err(DaemonError::protocol("xposed frame payload is too large"));
    }
    let expected = HEADER_LEN + payload_len;
    if len != expected {
        let mut message = "xposed frame length mismatch: expected ".to_owned();
        push_decimal(&mut message, expected as u128);
        message.append(", got ");
        push_decimal(&mut message, len as u128);
        return Err(DaemonError::Protocol(message));
    }
    let command = XposedCommand::from_code(command)?;
    let payload = vstd::slice::slice_to_vec(vstd::slice::slice_subrange(bytes, HEADER_LEN, len));
    Ok(XposedFrame { command, payload })
}

/// The bytes of a frame: code, payload length and payload.
pub open spec fn frame_bytes(command: XposedCommand, payload: Seq<u8>) -> Seq<u8> {
    le_bytes(command_code(command)) + le_bytes(payload.len() as int) + payload
}

/// Writes a frame; a payload above the limit is a protocol error.
pub fn encode_frame(command: XposedCommand, payload: &[u8]) -> (r: Result<Vec<u8>, DaemonError>)
    ensures
        payload@.len() > MAX_PAYLOAD_LEN ==> (r matches Err(DaemonError::Protocol(m)) && m@
            == "xposed frame payload is too large"@),
        payload@.len() <= MAX_PAYLOAD_LEN ==> (r matches Ok(b) && b@ == frame_bytes(
            command,
            payload@,
        )),
{
    if payload.len() > MAX_PAYLOAD_LEN {
        return Err(DaemonError::protocol("xposed frame payload is too large"));
    }
    let mut bytes: Vec<u8> = Vec::new();
    push_le_i32(&mut bytes, command.code());
    push_le_i32(&mut bytes, payload.len() as i32);
    let ghost header = bytes@;
    let mut i: usize = 0;
    while i < payload.len()
        invariant
            i <= payload@.len(),
            bytes@ == header + payload@.take(i as int),
        decreases payload@.len() - i,
    {
        bytes.push(payload[i]);
        i = i + 1;
        assert(payload@.take(i as int) == payload@.take(i - 1 as int).push(payload@[i - 1]));
    }
    assert(payload@.take(payload@.len() as int) == payload@);
    Ok(bytes)
}

/// Reading a written frame gives back its command and payload.
pub proof fn lemma_frame_round_trip(command: XposedCommand, payload: Seq<u8>)
    requires
        payload.len() <= MAX_PAYLOAD_LEN,
    ensures
        frame_error(frame_bytes(command, payload)) is None,
        command_for_code(le_i32(frame_bytes(command, payload), 0)) == Some(command),
        frame_bytes(command, payload).skip(HEADER_LEN as int) == payload,
{
    let code = command_code(command);
    assert(i32::MIN <= code <= i32::MAX);
    lemma_le_i32_round_trip(code as i32);
    lemma_le_i32_round_trip(payload.len() as i32);
    let b = frame_bytes(command, payload);
    let h1 = le_bytes(code);
    let h2 = le_bytes(payload.len() as int);
    assert(b.subrange(0, 4) == h1);
    assert(b.subrange(4, 8) == h2);
    assert(le_i32(b, 0) == le_i32(h1, 0));
    assert(le_i32(b, 4) == le_i32(h2, 0));
    assert(b.skip(HEADER_LEN as int) == payload);
}

} // verus!
