//! The login: the name that a client claims, and the message that turns a
//! client away.

use crate::codec::{login_start_name, text_component, text_component_json};
use crate::packet::{frame_bytes, EncodeError};
use crate::varint::{lemma_var_int_extent, read_var_int, VarIntRead};
use crate::wire::{string_at_front, string_bytes, string_packet, STRING_MAX_LENGTH};
use vstd::prelude::*;
use vstd::utf8::encode_utf8;

verus! {

/// The identifier of the message that starts a login.
pub const SERVER_LOGIN_START: i32 = 0;

/// The identifier of the message that ends a login with a reason.
pub const CLIENT_DISCONNECT: i32 = 0;

/// The name that the payload of a login start claims: the string that the
/// payload begins with.
pub open spec fn claimed_name(payload: Seq<u8>) -> Option<Seq<char>> {
    match string_at_front(payload, STRING_MAX_LENGTH as int) {
        Some((name, len)) => Some(name),
        None => None,
    }
}

/// Decodes the payload of a login start, for the name claimed.
pub fn decode_login_start(payload: &[u8]) -> (r: Option<String>)
    ensures
        match claimed_name(payload@) {
            Some(name) => r matches Some(s) && s@ == name,
            None => r is None,
        },
{
    proof {
        lemma_var_int_extent(payload@);
    }
    match read_var_int(payload) {
        VarIntRead::Value { value, len } => {
            if value < 0 || value as usize > STRING_MAX_LENGTH || payload.len() - len
                < value as usize {
                return None;
            }
            login_start_name(payload)
        },
        _ => None,
    }
}

/// What `kick_packet` gives for a reason whose chat component has the JSON
/// text `json`, if it has one.
pub open spec fn kick_result(json: Option<Seq<char>>) -> Result<Seq<u8>, EncodeError> {
    match json {
        None => Err(EncodeError::Json),
        Some(json) => if encode_utf8(json).len() > STRING_MAX_LENGTH {
            Err(EncodeError::StringTooLong)
        } else {
            Ok(frame_bytes(CLIENT_DISCONNECT, string_bytes(json)))
        },
    }
}

/// The view of a result that holds bytes.
pub open spec fn bytes_view(r: Result<Vec<u8>, EncodeError>) -> Result<Seq<u8>, EncodeError> {
    match r {
        Ok(bytes) => Ok(bytes@),
        Err(e) => Err(e),
    }
}

/// The frame that turns a client away, given the JSON text of the reason's
/// chat component.
pub fn kick_packet_from_json(json: Option<String>) -> (r: Result<Vec<u8>, EncodeError>)
    ensures
        bytes_view(r) == kick_result(
            match json {
                Some(text) => Some(text@),
                None => None,
            },
        ),
{
    match json {
        None => Err(EncodeError::Json),
        Some(text) => string_packet(CLIENT_DISCONNECT, text.as_str()),
    }
}

/// The frame that turns a client away with `reason` shown as plain text.
pub fn kick_packet(reason: &str) -> (r: Result<Vec<u8>, EncodeError>)
    ensures
        bytes_view(r) == kick_result(text_component_json(reason@)),
{
    kick_packet_from_json(text_component(reason))
}

} // verus!
