//! Frames: a message on the wire is the length of its body as a
//! variable-length integer, then the body, which is the message's identifier
//! as a variable-length integer followed by the payload.

use crate::buffer::{as_slice, contents};
use crate::varint::{encode_var_int, read_var_int, var_int_at_front, var_int_bytes, VarIntRead};
use crate::varint::lemma_var_int_extent;
use vstd::prelude::*;
use vstd::slice::{slice_subrange, slice_to_vec};

verus! {

/// A message as it came off the wire: its identifier and its payload, not yet
/// decoded.
#[derive(Debug)]
pub struct RawPacket {
    pub id: i32,
    pub data: Vec<u8>,
}

/// What stands at the front of a byte sequence where a frame is expected.
pub enum Frame {
    /// The bytes so far may still grow into a frame.
    Incomplete,
    /// No frame can begin like this.
    Malformed,
    /// A whole frame of `len` bytes.
    Ready { id: i32, data: Seq<u8>, len: nat },
}

/// The frame at the front of `s`.
///
/// The length prefix must be a variable-length integer that is not negative;
/// the body must begin with a variable-length integer, the identifier, that
/// ends within the body.
#[verifier::opaque]
pub open spec fn frame_at_front(s: Seq<u8>) -> Frame {
    match var_int_at_front(s) {
        VarIntRead::Incomplete => Frame::Incomplete,
        VarIntRead::Malformed => Frame::Malformed,
        VarIntRead::Value { value, len } => {
            if value < 0 {
                Frame::Malformed
            } else if s.len() < len + value {
                Frame::Incomplete
            } else {
                let body = s.subrange(len as int, len + value);
                match var_int_at_front(body) {
                    VarIntRead::Value { value: id, len: id_len } => Frame::Ready {
                        id,
                        data: body.skip(id_len as int),
                        len: (len + value) as nat,
                    },
                    _ => Frame::Malformed,
                }
            }
        },
    }
}

/// A whole frame is at least two bytes long and lies within the bytes at hand.
pub proof fn lemma_frame_extent(s: Seq<u8>)
    ensures
        frame_at_front(s) matches Frame::Ready { id, data, len } ==> 2 <= len <= s.len(),
        s.len() == 0 ==> frame_at_front(s) is Incomplete,
{
    reveal(var_int_at_front);
    reveal(frame_at_front);
    lemma_var_int_extent(s);
    if let VarIntRead::Value { value, len } = var_int_at_front(s) {
        if value >= 0 && s.len() >= len + value {
            lemma_var_int_extent(s.subrange(len as int, len + value));
        }
    }
}

/// The bytes of the frame that carries `id` and `data`, where the body's
/// length fits the prefix.
pub open spec fn frame_bytes(id: i32, data: Seq<u8>) -> Seq<u8> {
    var_int_bytes((var_int_bytes(id).len() + data.len()) as i32) + var_int_bytes(id) + data
}

/// The result of looking for a frame at the front of a slice.
#[derive(Debug)]
pub enum Parsed {
    Incomplete,
    Malformed,
    Ready { packet: RawPacket, len: usize },
}

impl Parsed {
    /// The frame that this result stands for.
    pub open spec fn frame(self) -> Frame {
        match self {
            Parsed::Incomplete => Frame::Incomplete,
            Parsed::Malformed => Frame::Malformed,
            Parsed::Ready { packet, len } => Frame::Ready {
                id: packet.id,
                data: packet.data@,
                len: len as nat,
            },
        }
    }
}

/// Looks for a frame at the front of `bytes`, and copies its payload out.
pub fn parse_frame(bytes: &[u8]) -> (r: Parsed)
    ensures
        r.frame() == frame_at_front(bytes@),
{
    proof {
        reveal(frame_at_front);
        lemma_var_int_extent(bytes@);
    }
    match read_var_int(bytes) {
        VarIntRead::Incomplete => Parsed::Incomplete,
        VarIntRead::Malformed => Parsed::Malformed,
        VarIntRead::Value { value, len } => {
            if value < 0 {
                return Parsed::Malformed;
            }
            let body_len: usize = value as usize;
            if bytes.len() - len < body_len {
                return Parsed::Incomplete;
            }
            let total: usize = len + body_len;
            let body = slice_subrange(bytes, len, total);
            proof {
                lemma_var_int_extent(body@);
            }
            match read_var_int(body) {
                VarIntRead::Value { value: id, len: id_len } => {
                    let data = slice_to_vec(slice_subrange(body, id_len, body_len));
                    assert(data@ == body@.skip(id_len as int));
                    Parsed::Ready { packet: RawPacket { id, data }, len: total }
                },
                _ => Parsed::Malformed,
            }
        },
    }
}

/// Why bytes for the wire could not be produced.
#[derive(Clone, Copy, Debug, PartialEq, Eq, Structural)]
pub enum EncodeError {
    /// The body of a frame is longer than a frame's length prefix can say.
    PacketTooLarge,
    /// A string is longer than the protocol lets a string be.
    StringTooLong,
    /// The JSON text of a value could not be produced.
    Json,
}

/// Whether a frame's length prefix can say how long the body of `id` and
/// `data` is.
pub open spec fn body_fits(id: i32, data: Seq<u8>) -> bool {
    var_int_bytes(id).len() + data.len() <= i32::MAX
}

impl RawPacket {
    /// The message with the given identifier and payload.
    pub fn new(id: i32, data: Vec<u8>) -> (r: RawPacket)
        ensures
            r.id == id,
            r.data == data,
    {
        RawPacket { id, data }
    }

    /// Decodes the frame that `buf` begins with; what follows the frame is not
    /// looked at.
    pub fn decode(buf: &[u8]) -> (r: Option<RawPacket>)
        ensures
            match frame_at_front(buf@) {
                Frame::Ready { id, data, len } => r matches Some(p) && p.id == id && p.data@
                    == data,
                _ => r is None,
            },
    {
        match parse_frame(buf) {
            Parsed::Ready { packet, len } => Some(packet),
            _ => None,
        }
    }

    /// The frame that carries this message.
    pub fn encode(&self) -> (r: Result<Vec<u8>, EncodeError>)
        ensures
            match r {
                Ok(bytes) => body_fits(self.id, self.data@) && bytes@ == frame_bytes(
                    self.id,
                    self.data@,
                ),
                Err(e) => !body_fits(self.id, self.data@) && e == EncodeError::PacketTooLarge,
            },
    {
        let mut body = encode_var_int(self.id);
        if self.data.len() > 2147483647 - body.len() {
            return Err(EncodeError::PacketTooLarge);
        }
        body.extend_from_slice(self.data.as_slice());
        let mut frame = encode_var_int(body.len() as i32);
        frame.extend_from_slice(body.as_slice());
        assert(frame@ =~= frame_bytes(self.id, self.data@));
        Ok(frame)
    }
}

/// What one look at the inbound buffer gave.
#[derive(Debug)]
pub enum ReadOutcome {
    /// No whole frame is buffered yet: more bytes must be read first.
    Pending,
    /// The buffer does not begin with a frame.
    Malformed,
    /// A message, and the exact bytes of its frame.
    Packet { packet: RawPacket, raw: Vec<u8> },
}

/// Takes the next whole frame off the front of `buf`.
///
/// A frame leaves the buffer together with its message; what follows it stays
/// buffered. Without a whole frame the buffer is left as it was.
pub fn read_packet(buf: &mut bytes::BytesMut) -> (r: ReadOutcome)
    ensures
        match frame_at_front(contents(*old(buf))) {
            Frame::Incomplete => r is Pending && contents(*final(buf)) == contents(*old(buf)),
            Frame::Malformed => r is Malformed && contents(*final(buf)) == contents(*old(buf)),
            Frame::Ready { id, data, len } => {
                &&& r matches ReadOutcome::Packet { packet, raw }
                &&& packet.id == id
                &&& packet.data@ == data
                &&& len <= contents(*old(buf)).len()
                &&& raw@ == contents(*old(buf)).take(len as int)
                &&& contents(*final(buf)) == contents(*old(buf)).skip(len as int)
            },
        },
{
    proof {
        lemma_frame_extent(contents(*buf));
    }
    let parsed = parse_frame(as_slice(buf));
    match parsed {
        Parsed::Incomplete => ReadOutcome::Pending,
        Parsed::Malformed => ReadOutcome::Malformed,
        Parsed::Ready { packet, len } => {
            let head = buf.split_to(len);
            let raw = slice_to_vec(as_slice(&head));
            ReadOutcome::Packet { packet, raw }
        },
    }
}

} // verus!
