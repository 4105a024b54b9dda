//! The inbound byte stream as a sequence of frames, and why it does not matter
//! how the stream was cut into reads.

use crate::packet::{body_fits, frame_at_front, frame_bytes, lemma_frame_extent, Frame};
use crate::varint::{lemma_var_int_extent, lemma_var_int_prefix, lemma_var_int_round_trip};
use crate::varint::{var_int_at_front, var_int_bytes, VarIntRead};
use vstd::prelude::*;

verus! {

/// A message taken off the stream, with the exact bytes of its frame.
pub struct Captured {
    pub id: i32,
    pub data: Seq<u8>,
    pub raw: Seq<u8>,
}

/// The messages that reading `s` frame by frame yields, until the front of
/// what is left is no whole frame.
pub open spec fn frames(s: Seq<u8>) -> Seq<Captured>
    decreases s.len(),
{
    match frame_at_front(s) {
        Frame::Ready { id, data, len } => if 0 < len <= s.len() {
            seq![Captured { id, data, raw: s.take(len as int) }] + frames(s.skip(len as int))
        } else {
            Seq::empty()
        },
        _ => Seq::empty(),
    }
}

/// What is left of `s` once its whole frames are taken.
pub open spec fn leftover(s: Seq<u8>) -> Seq<u8>
    decreases s.len(),
{
    match frame_at_front(s) {
        Frame::Ready { id, data, len } => if 0 < len <= s.len() {
            leftover(s.skip(len as int))
        } else {
            s
        },
        _ => s,
    }
}

/// Whether reading `s` frame by frame ends at bytes that begin no frame.
pub open spec fn broken(s: Seq<u8>) -> bool {
    frame_at_front(leftover(s)) is Malformed
}

/// The messages that a reader yields which starts with `buf` buffered and is
/// then handed `chunks` one after the other, taking after each chunk every
/// whole frame that is buffered, and giving up at bytes that begin no frame.
pub open spec fn read_in_chunks(buf: Seq<u8>, chunks: Seq<Seq<u8>>) -> Seq<Captured>
    decreases chunks.len(),
{
    if chunks.len() == 0 {
        Seq::empty()
    } else {
        let filled = buf + chunks[0];
        if broken(filled) {
            frames(filled)
        } else {
            frames(filled) + read_in_chunks(leftover(filled), chunks.drop_first())
        }
    }
}

/// The chunks laid end to end.
pub open spec fn joined(chunks: Seq<Seq<u8>>) -> Seq<u8>
    decreases chunks.len(),
{
    if chunks.len() == 0 {
        Seq::empty()
    } else {
        chunks[0] + joined(chunks.drop_first())
    }
}

/// More bytes behind a whole frame, or behind bytes that begin no frame,
/// change nothing about what stands at the front.
pub proof fn lemma_frame_prefix(s: Seq<u8>, more: Seq<u8>)
    ensures
        !(frame_at_front(s) is Incomplete) ==> frame_at_front(s + more) == frame_at_front(s),
{
    reveal(frame_at_front);
    lemma_var_int_prefix(s, more);
    lemma_var_int_extent(s);
    if let VarIntRead::Value { value, len } = var_int_at_front(s) {
        if value >= 0 && s.len() >= len + value {
            assert((s + more).subrange(len as int, len + value) =~= s.subrange(
                len as int,
                len + value,
            ));
        }
    }
}

/// What is left once the whole frames are taken holds no whole frame.
pub proof fn lemma_leftover_settled(s: Seq<u8>)
    ensures
        !(frame_at_front(leftover(s)) is Ready),
        frames(leftover(s)) == Seq::<Captured>::empty(),
        leftover(leftover(s)) == leftover(s),
    decreases s.len(),
{
    lemma_frame_extent(s);
    if let Frame::Ready { id, data, len } = frame_at_front(s) {
        lemma_leftover_settled(s.skip(len as int));
    }
}

/// Reading `a` followed by `b` yields what reading `a` yields, and then, unless
/// `a` ended at bytes that begin no frame, what reading the leftover of `a`
/// followed by `b` yields.
pub proof fn lemma_frames_append(a: Seq<u8>, b: Seq<u8>)
    ensures
        frames(a + b) == if broken(a) {
            frames(a)
        } else {
            frames(a) + frames(leftover(a) + b)
        },
    decreases a.len(),
{
    lemma_frame_extent(a);
    lemma_frame_prefix(a, b);
    match frame_at_front(a) {
        Frame::Ready { id, data, len } => {
            let tail = a.skip(len as int);
            lemma_frames_append(tail, b);
            assert((a + b).skip(len as int) =~= tail + b);
            assert((a + b).take(len as int) =~= a.take(len as int));
            let first = seq![Captured { id, data, raw: a.take(len as int) }];
            assert(frames(a) == first + frames(tail));
            assert(frames(a + b) == first + frames(tail + b));
            if broken(tail) {
            } else {
                assert(first + (frames(tail) + frames(leftover(tail) + b)) =~= (first + frames(
                    tail,
                )) + frames(leftover(tail) + b));
            }
        },
        Frame::Malformed => {},
        Frame::Incomplete => {
            assert(Seq::<Captured>::empty() + frames(a + b) =~= frames(a + b));
        },
    }
}

/// However the stream is cut into reads, the reader yields the messages of the
/// stream as a whole, each with the same captured bytes.
pub proof fn lemma_chunks_do_not_matter(buf: Seq<u8>, chunks: Seq<Seq<u8>>)
    requires
        chunks.len() > 0,
    ensures
        read_in_chunks(buf, chunks) == frames(buf + joined(chunks)),
    decreases chunks.len(),
{
    let filled = buf + chunks[0];
    let rest = chunks.drop_first();
    assert(buf + joined(chunks) =~= filled + joined(rest));
    lemma_frames_append(filled, joined(rest));
    if !broken(filled) {
        if rest.len() == 0 {
            assert(read_in_chunks(leftover(filled), rest) == Seq::<Captured>::empty());
            lemma_leftover_settled(filled);
            assert(leftover(filled) + joined(rest) =~= leftover(filled));
            assert(frames(filled) + Seq::<Captured>::empty() =~= frames(filled));
        } else {
            lemma_chunks_do_not_matter(leftover(filled), rest);
        }
    }
}

/// A stream cut into reads of one byte each.
pub open spec fn byte_by_byte(s: Seq<u8>) -> Seq<Seq<u8>> {
    Seq::new(s.len(), |i: int| seq![s[i]])
}

/// Cutting a stream into single bytes and laying them end to end gives the
/// stream back.
pub proof fn lemma_byte_by_byte_joined(s: Seq<u8>)
    ensures
        joined(byte_by_byte(s)) == s,
    decreases s.len(),
{
    if s.len() > 0 {
        let tail = s.drop_first();
        lemma_byte_by_byte_joined(tail);
        assert(byte_by_byte(s).drop_first() =~= byte_by_byte(tail));
        assert(seq![s[0]] + tail =~= s);
    } else {
        assert(s =~= Seq::<u8>::empty());
    }
}

/// Feeding the reader a stream one byte at a time yields the same messages and
/// the same captured bytes as feeding it the whole stream at once.
pub proof fn lemma_framing_byte_by_byte(s: Seq<u8>)
    ensures
        read_in_chunks(Seq::empty(), byte_by_byte(s)) == read_in_chunks(Seq::empty(), seq![s]),
{
    let at_once = seq![s];
    assert(joined(at_once) =~= s) by {
        assert(at_once.drop_first() =~= Seq::<Seq<u8>>::empty());
        assert(joined(at_once.drop_first()) =~= Seq::<u8>::empty());
        assert(s + Seq::<u8>::empty() =~= s);
    }
    lemma_chunks_do_not_matter(Seq::empty(), at_once);
    assert(Seq::<u8>::empty() + s =~= s);
    if s.len() > 0 {
        lemma_byte_by_byte_joined(s);
        lemma_chunks_do_not_matter(Seq::empty(), byte_by_byte(s));
    } else {
        lemma_frame_extent(s);
        assert(read_in_chunks(Seq::empty(), byte_by_byte(s)) == Seq::<Captured>::empty());
    }
}

/// Two ways of cutting the same stream into reads yield the same messages.
pub proof fn lemma_framing_any_two_cuts(first: Seq<Seq<u8>>, second: Seq<Seq<u8>>)
    requires
        first.len() > 0,
        second.len() > 0,
        joined(first) == joined(second),
    ensures
        read_in_chunks(Seq::empty(), first) == read_in_chunks(Seq::empty(), second),
{
    lemma_chunks_do_not_matter(Seq::empty(), first);
    lemma_chunks_do_not_matter(Seq::empty(), second);
}

/// A frame that was written reads back as the message it was written for,
/// over exactly the bytes written, whatever follows them.
pub proof fn lemma_frame_round_trip(id: i32, data: Seq<u8>, more: Seq<u8>)
    requires
        body_fits(id, data),
    ensures
        frame_at_front(frame_bytes(id, data) + more) == (Frame::Ready {
            id,
            data,
            len: frame_bytes(id, data).len(),
        }),
{
    reveal(frame_at_front);
    let body = var_int_bytes(id) + data;
    let prefix = var_int_bytes(body.len() as i32);
    let s = frame_bytes(id, data) + more;
    lemma_var_int_round_trip(id, data);
    lemma_var_int_round_trip(body.len() as i32, body + more);
    assert(s =~= prefix + (body + more));
    assert(s.subrange(prefix.len() as int, (prefix.len() + body.len()) as int) =~= body);
    assert(body.skip(var_int_bytes(id).len() as int) =~= data);
}

} // verus!
