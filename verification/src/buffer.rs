//! The growable byte buffer that the connection's inbound bytes and ledgers
//! live in: `bytes::BytesMut`, with the contracts that the rest of the library
//! relies on.

use vstd::prelude::*;

verus! {

/// `bytes::BytesMut`, opaque to the verifier: what it holds is `contents`.
#[verifier::external_type_specification]
#[verifier::external_body]
pub struct ExBytesMut(bytes::BytesMut);

/// The bytes that a buffer holds, first to last.
pub uninterp spec fn contents(b: bytes::BytesMut) -> Seq<u8>;

/// `BytesMut::new`: a buffer of length zero, as its documentation says.
pub assume_specification[ bytes::BytesMut::new ]() -> (b: bytes::BytesMut)
    ensures
        contents(b) == Seq::<u8>::empty(),
;

/// `BytesMut::len`: the number of bytes held.
pub assume_specification[ bytes::BytesMut::len ](b: &bytes::BytesMut) -> (n: usize)
    ensures
        n == contents(*b).len(),
;

/// `BytesMut::extend_from_slice`: the given bytes are appended, what was held
/// stays in front. The call reserves room first and panics where the new
/// length cannot be a capacity, so the sum is kept within `isize::MAX`.
pub assume_specification[ bytes::BytesMut::extend_from_slice ](
    b: &mut bytes::BytesMut,
    extend: &[u8],
)
    requires
        contents(*old(b)).len() + extend@.len() <= isize::MAX,
    ensures
        contents(*final(b)) == contents(*old(b)) + extend@,
;

/// `BytesMut::split_to`: the first `at` bytes leave in the buffer returned, the
/// rest stay. It panics if `at` is beyond the length.
pub assume_specification[ bytes::BytesMut::split_to ](b: &mut bytes::BytesMut, at: usize) -> (head:
    bytes::BytesMut)
    requires
        at <= contents(*old(b)).len(),
    ensures
        contents(head) == contents(*old(b)).subrange(0, at as int),
        contents(*final(b)) == contents(*old(b)).subrange(at as int, contents(*old(b)).len() as int),
;

/// `BytesMut::as_ref`: the bytes held, as a slice.
#[verifier::external_body]
pub(crate) fn as_slice(b: &bytes::BytesMut) -> (s: &[u8])
    ensures
        s@ == contents(*b),
{
    b.as_ref()
}

} // verus!
