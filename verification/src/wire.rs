//! The protocol's strings and fixed-width numbers as bytes: a string is its
//! length in bytes as a variable-length integer, then its UTF-8 text.

use crate::packet::{frame_bytes, EncodeError, RawPacket};
use crate::varint::{encode_var_int, lemma_var_int_extent, lemma_var_int_round_trip, read_var_int};
use crate::varint::{var_int_at_front, var_int_bytes, VarIntRead};
use vstd::prelude::*;
use vstd::slice::{slice_subrange, slice_to_vec};
use vstd::utf8::{decode_utf8, encode_utf8, valid_utf8};

verus! {

/// The longest string, in bytes, that the protocol lets a message carry.
pub const STRING_MAX_LENGTH: usize = 32768;

/// `String::from_utf8`: the text that the bytes encode, where they are valid
/// UTF-8, and nothing where they are not.
#[verifier::external_body]
pub(crate) fn string_from_utf8(bytes: Vec<u8>) -> (r: Option<String>)
    ensures
        match r {
            Some(text) => valid_utf8(bytes@) && text@ == decode_utf8(bytes@),
            None => !valid_utf8(bytes@),
        },
{
    String::from_utf8(bytes).ok()
}

/// The string at the front of `s`, of at most `max` bytes, with the number of
/// bytes that it takes together with its length prefix.
pub open spec fn string_at_front(s: Seq<u8>, max: int) -> Option<(Seq<char>, nat)> {
    match var_int_at_front(s) {
        VarIntRead::Value { value, len } => {
            let text = s.subrange(len as int, len + value);
            if 0 <= value <= max && len + value <= s.len() && valid_utf8(text) {
                Some((decode_utf8(text), (len + value) as nat))
            } else {
                None
            }
        },
        _ => None,
    }
}

/// Reads the string at the front of `buf`, which may be at most `max` bytes
/// long.
pub fn read_string(buf: &[u8], max: usize) -> (r: Option<(String, usize)>)
    ensures
        match string_at_front(buf@, max as int) {
            Some((text, len)) => r matches Some((s, n)) && s@ == text && n == len,
            None => r is None,
        },
{
    proof {
        lemma_var_int_extent(buf@);
    }
    match read_var_int(buf) {
        VarIntRead::Value { value, len } => {
            if value < 0 {
                return None;
            }
            let text_len: usize = value as usize;
            if text_len > max || buf.len() - len < text_len {
                return None;
            }
            let end: usize = len + text_len;
            let bytes = slice_to_vec(slice_subrange(buf, len, end));
            match string_from_utf8(bytes) {
                Some(text) => Some((text, end)),
                None => None,
            }
        },
        _ => None,
    }
}

/// The bytes of a string on the wire.
pub open spec fn string_bytes(text: Seq<char>) -> Seq<u8> {
    var_int_bytes(encode_utf8(text).len() as i32) + encode_utf8(text)
}

/// Appends `text` to `out` as a string on the wire, unless it is longer than
/// `max` bytes: then `out` stays as it was.
pub fn write_string(out: &mut Vec<u8>, text: &str, max: usize) -> (r: Result<(), EncodeError>)
    requires
        max <= i32::MAX,
    ensures
        match r {
            Ok(()) => {
                &&& encode_utf8(text@).len() <= max
                &&& final(out)@ == old(out)@ + string_bytes(text@)
            },
            Err(e) => {
                &&& encode_utf8(text@).len() > max
                &&& e == EncodeError::StringTooLong
                &&& final(out)@ == old(out)@
            },
        },
{
    let bytes = text.as_bytes();
    if bytes.len() > max {
        return Err(EncodeError::StringTooLong);
    }
    let prefix = encode_var_int(bytes.len() as i32);
    out.extend_from_slice(prefix.as_slice());
    out.extend_from_slice(bytes);
    assert(out@ =~= old(out)@ + string_bytes(text@));
    Ok(())
}

/// The frame of a message whose payload is one string, unless the string is
/// longer than the protocol lets a string be.
pub fn string_packet(id: i32, text: &str) -> (r: Result<Vec<u8>, EncodeError>)
    ensures
        match r {
            Ok(bytes) => {
                &&& encode_utf8(text@).len() <= STRING_MAX_LENGTH
                &&& bytes@ == frame_bytes(id, string_bytes(text@))
            },
            Err(e) => encode_utf8(text@).len() > STRING_MAX_LENGTH && e
                == EncodeError::StringTooLong,
        },
{
    let mut data: Vec<u8> = Vec::new();
    match write_string(&mut data, text, STRING_MAX_LENGTH) {
        Ok(()) => {},
        Err(e) => {
            return Err(e);
        },
    }
    proof {
        lemma_var_int_round_trip(id, Seq::empty());
        lemma_var_int_round_trip(encode_utf8(text@).len() as i32, Seq::empty());
        assert(data@ =~= string_bytes(text@));
    }
    RawPacket::new(id, data).encode()
}

/// The big-endian 16-bit number at the front of `s`.
pub open spec fn u16_at_front(s: Seq<u8>) -> Option<u16> {
    if s.len() >= 2 {
        Some((s[0] * 256 + s[1]) as u16)
    } else {
        None
    }
}

/// Reads the big-endian 16-bit number at the front of `buf`.
pub fn read_u16(buf: &[u8]) -> (r: Option<u16>)
    ensures
        r == u16_at_front(buf@),
{
    if buf.len() < 2 {
        return None;
    }
    let high: u16 = buf[0] as u16;
    let low: u16 = buf[1] as u16;
    Some(high * 256 + low)
}

} // verus!
