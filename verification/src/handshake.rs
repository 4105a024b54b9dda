//! The handshake: the first message of a connection, which says what the
//! client speaks and what it has come for.

use crate::varint::{lemma_var_int_extent, read_var_int, var_int_at_front, VarIntRead};
use crate::wire::{read_string, read_u16, string_at_front, u16_at_front};
use vstd::prelude::*;
use vstd::slice::slice_subrange;

verus! {

/// The identifier of the handshake message.
pub const SERVER_HANDSHAKE: i32 = 0;

/// The longest server address, in bytes, that a handshake may carry.
pub const ADDRESS_MAX_LENGTH: usize = 255;

/// Where a connection stands in the protocol.
#[derive(Clone, Copy, Debug, PartialEq, Eq, Structural)]
pub enum Phase {
    /// Nothing was said yet.
    Handshake,
    /// The client asks about the server.
    Status,
    /// The client logs in.
    Login,
    /// The client arrives from another server.
    Transfer,
}

/// The phase that a handshake asks for by the number `id`, if it is one.
pub open spec fn phase_for(id: i32) -> Option<Phase> {
    if id == 1 {
        Some(Phase::Status)
    } else if id == 2 {
        Some(Phase::Login)
    } else if id == 3 {
        Some(Phase::Transfer)
    } else {
        None
    }
}

impl Phase {
    /// The phase that a handshake asks for by the number `id`.
    pub fn from_next_state(id: i32) -> (r: Option<Phase>)
        ensures
            r == phase_for(id),
            r != Some(Phase::Handshake),
    {
        match id {
            1 => Some(Phase::Status),
            2 => Some(Phase::Login),
            3 => Some(Phase::Transfer),
            _ => None,
        }
    }
}

/// A decoded handshake.
#[derive(Debug)]
pub struct Handshake {
    pub protocol_version: i32,
    pub server_addr: String,
    pub server_port: u16,
    pub next_state: i32,
}

pub struct HandshakeView {
    pub protocol_version: i32,
    pub server_addr: Seq<char>,
    pub server_port: u16,
    pub next_state: i32,
}

impl View for Handshake {
    type V = HandshakeView;

    open spec fn view(&self) -> HandshakeView {
        HandshakeView {
            protocol_version: self.protocol_version,
            server_addr: self.server_addr@,
            server_port: self.server_port,
            next_state: self.next_state,
        }
    }
}

/// The handshake that `payload` begins with: the protocol version as a
/// variable-length integer, the server address as a string of at most 255
/// bytes, the port as a big-endian 16-bit number, and the phase asked for as a
/// variable-length integer. What follows is not looked at.
pub open spec fn handshake_in(payload: Seq<u8>) -> Option<HandshakeView> {
    match var_int_at_front(payload) {
        VarIntRead::Value { value: protocol_version, len: version_len } => {
            let after_version = payload.skip(version_len as int);
            match string_at_front(after_version, ADDRESS_MAX_LENGTH as int) {
                Some((server_addr, addr_len)) => {
                    let after_addr = after_version.skip(addr_len as int);
                    match (u16_at_front(after_addr), var_int_at_front(after_addr.skip(2))) {
                        (Some(server_port), VarIntRead::Value { value: next_state, len }) => Some(
                            HandshakeView {
                                protocol_version,
                                server_addr,
                                server_port,
                                next_state,
                            },
                        ),
                        _ => None,
                    }
                },
                None => None,
            }
        },
        _ => None,
    }
}

impl Handshake {
    /// Decodes the payload of a handshake message.
    pub fn decode(payload: &[u8]) -> (r: Option<Handshake>)
        ensures
            match handshake_in(payload@) {
                Some(handshake) => r matches Some(h) && h@ == handshake,
                None => r is None,
            },
    {
        proof {
            lemma_var_int_extent(payload@);
        }
        let (protocol_version, version_len) = match read_var_int(payload) {
            VarIntRead::Value { value, len } => (value, len),
            _ => {
                return None;
            },
        };
        let after_version = slice_subrange(payload, version_len, payload.len());
        assert(after_version@ == payload@.skip(version_len as int));
        let (server_addr, addr_len) = match read_string(after_version, ADDRESS_MAX_LENGTH) {
            Some(read) => read,
            None => {
                return None;
            },
        };
        let after_addr = slice_subrange(after_version, addr_len, after_version.len());
        assert(after_addr@ == after_version@.skip(addr_len as int));
        let server_port = match read_u16(after_addr) {
            Some(port) => port,
            None => {
                return None;
            },
        };
        let after_port = slice_subrange(after_addr, 2, after_addr.len());
        assert(after_port@ == after_addr@.skip(2));
        match read_var_int(after_port) {
            VarIntRead::Value { value: next_state, len } => Some(
                Handshake { protocol_version, server_addr, server_port, next_state },
            ),
            _ => None,
        }
    }
}

} // verus!
