use vstd::prelude::*;
use crate::app::error::DaemonError;
use crate::protocol::bytes::{le_i32, read_le_i32};
use crate::text::chars::{push_chars, chars_of, utf8_text};

verus! {

/// The abstract socket name the hook listens on.
pub const XPOSED_SOCKET_ABSTRACT_NAME: &'static str = "FreezeitXposedServer";

/// Reads the hook's answer to a configuration update: its first value, a
/// little-endian `i32`, is 2 when the hook took the configuration. An
/// answer shorter than that value is a protocol error.
pub fn set_config_accepted(response: &[u8]) -> (r: Result<bool, DaemonError>)
    ensures
        response@.len() < 4 ==> (r matches Err(DaemonError::Protocol(m)) && m@
            == "xposed set config response header is incomplete"@),
        response@.len() >= 4 ==> r == Ok::<bool, DaemonError>(le_i32(response@, 0) == 2),
{
    if response.len() < 4 {
        return Err(DaemonError::Protocol("xposed set config response header is incomplete".to_owned()));
    }
    Ok(read_le_i32(response, 0) == 2)
}

/// The text of a hook answer. Bytes that are not UTF-8 are a protocol
/// error that carries the decoder's message.
pub fn response_text(response: &[u8]) -> (r: Result<String, DaemonError>)
    ensures
        r is Ok <==> vstd::utf8::valid_utf8(response@),
        r matches Ok(s) ==> s@ == vstd::utf8::decode_utf8(response@),
        r matches Err(e) ==> (e matches DaemonError::Protocol(m)
            && "xposed response is not utf-8: "@.is_prefix_of(m@)),
{
    match utf8_text(response) {
        Ok(text) => Ok(text),
        Err(reason) => {
            let mut message = "xposed response is not utf-8: ".to_owned();
            let ghost head = message@;
            let cs = chars_of(reason.as_str());
            push_chars(&mut message, cs.as_slice());
            assert(head.is_prefix_of(message@)) by {
                assert(message@.take(head.len() as int) =~= head);
            }
            Err(DaemonError::Protocol(message))
        },
    }
}

} // verus!
