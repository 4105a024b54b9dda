//! Variable-length integers: seven bits per byte, least significant group
//! first, the top bit of a byte saying that another byte follows.

use vstd::prelude::*;

verus! {

/// The low seven bits of byte `i` of `s`, or zero from position `n` on.
pub open spec fn septet(s: Seq<u8>, i: int, n: int) -> int {
    if 0 <= i < n && i < s.len() {
        (s[i] % 128) as int
    } else {
        0
    }
}

/// The unsigned number that the first `n` bytes of `s` spell, for `n` up to five.
pub open spec fn magnitude(s: Seq<u8>, n: int) -> int {
    septet(s, 0, n) + septet(s, 1, n) * 128 + septet(s, 2, n) * 16384 + septet(s, 3, n) * 2097152
        + septet(s, 4, n) * 268435456
}

/// Reading `u` modulo 2^32 as a signed 32-bit number.
pub open spec fn wrap_i32(u: int) -> int {
    let m = u % 4294967296;
    if m >= 2147483648 {
        m - 4294967296
    } else {
        m
    }
}

/// What stands at the front of a byte sequence where a variable-length integer
/// is expected.
#[derive(Clone, Copy, Debug, PartialEq, Eq, Structural)]
pub enum VarIntRead {
    /// Every byte so far announces another one, and fewer than five are there.
    Incomplete,
    /// Five bytes in a row announce another one.
    Malformed,
    /// A number, and how many bytes spell it.
    Value { value: i32, len: usize },
}

/// Whether the number at the front of `s` is `n` bytes long: `n - 1` bytes
/// that announce a successor, and one that does not.
pub open spec fn ends_at(s: Seq<u8>, n: int) -> bool {
    &&& 1 <= n <= s.len()
    &&& s[n - 1] < 128
    &&& forall|i: int| 0 <= i < n - 1 ==> s[i] >= 128
}

/// The number that the first `n` bytes of `s` spell, for `n` up to five.
pub open spec fn number_in(s: Seq<u8>, n: int) -> VarIntRead {
    VarIntRead::Value { value: wrap_i32(magnitude(s, n)) as i32, len: n as usize }
}

/// The variable-length integer at the front of `s`: the number that ends
/// within the first five bytes, if one does.
#[verifier::opaque]
pub open spec fn var_int_at_front(s: Seq<u8>) -> VarIntRead {
    if ends_at(s, 1) {
        number_in(s, 1)
    } else if ends_at(s, 2) {
        number_in(s, 2)
    } else if ends_at(s, 3) {
        number_in(s, 3)
    } else if ends_at(s, 4) {
        number_in(s, 4)
    } else if ends_at(s, 5) {
        number_in(s, 5)
    } else if s.len() >= 5 {
        VarIntRead::Malformed
    } else {
        VarIntRead::Incomplete
    }
}

/// Reads the variable-length integer at the front of `buf`.
pub fn read_var_int(buf: &[u8]) -> (r: VarIntRead)
    ensures
        r == var_int_at_front(buf@),
{
    proof {
        reveal(var_int_at_front);
    }
    let mut acc: u64 = 0;
    let mut scale: u64 = 1;
    let mut i: usize = 0;
    while i < 5
        invariant
            0 <= i <= 5,
            acc == magnitude(buf@, i as int),
            i == 0 ==> scale == 1,
            i == 1 ==> scale == 128,
            i == 2 ==> scale == 16384,
            i == 3 ==> scale == 2097152,
            i == 4 ==> scale == 268435456,
            i <= buf@.len(),
            forall|j: int| 0 <= j < i ==> buf@[j] >= 128,
        decreases 5 - i,
    {
        proof {
            reveal(var_int_at_front);
        }
        if i >= buf.len() {
            return VarIntRead::Incomplete;
        }
        let byte: u8 = buf[i];
        acc = acc + ((byte % 128) as u64) * scale;
        if byte < 128 {
            assert(ends_at(buf@, i + 1));
            let low: u64 = acc % 4294967296;
            let value: i32 = if low >= 2147483648 {
                (low as i64 - 4294967296) as i32
            } else {
                low as i32
            };
            return VarIntRead::Value { value, len: i + 1 };
        }
        if i < 4 {
            scale = scale * 128;
        }
        i = i + 1;
    }
    VarIntRead::Malformed
}

/// A signed 32-bit number read as an unsigned one, modulo 2^32.
pub open spec fn unsigned32(v: i32) -> int {
    if v < 0 {
        v + 4294967296
    } else {
        v as int
    }
}

/// `u` with its `i` lowest groups of seven bits dropped, for `i` up to four.
pub open spec fn drop_groups(u: int, i: int) -> int {
    if i <= 0 {
        u
    } else if i == 1 {
        u / 128
    } else if i == 2 {
        u / 128 / 128
    } else if i == 3 {
        u / 128 / 128 / 128
    } else {
        u / 128 / 128 / 128 / 128
    }
}

/// The `i`-th group of seven bits of `u`, counted from the least significant.
pub open spec fn group(u: int, i: int) -> int {
    drop_groups(u, i) % 128
}

/// How many groups of seven bits it takes to write `u`, at least one.
pub open spec fn group_count(u: int) -> int {
    if u < 128 {
        1
    } else if u < 16384 {
        2
    } else if u < 2097152 {
        3
    } else if u < 268435456 {
        4
    } else {
        5
    }
}

/// Byte `i` of the shortest encoding of the unsigned number `u`.
pub open spec fn encoded_byte(u: int, i: int) -> u8 {
    if i + 1 < group_count(u) {
        (group(u, i) + 128) as u8
    } else {
        group(u, i) as u8
    }
}

/// The shortest encoding of `v`: one to five bytes.
pub open spec fn var_int_bytes(v: i32) -> Seq<u8> {
    Seq::new(group_count(unsigned32(v)) as nat, |i: int| encoded_byte(unsigned32(v), i))
}

/// Writes `value` in its shortest encoding.
pub fn encode_var_int(value: i32) -> (out: Vec<u8>)
    ensures
        out@ == var_int_bytes(value),
{
    let whole: u64 = if value < 0 {
        (value as i64 + 4294967296) as u64
    } else {
        value as u64
    };
    let mut rest: u64 = whole;
    let mut out: Vec<u8> = Vec::new();
    let mut i: usize = 0;
    loop
        invariant_except_break
            0 <= i < 5,
            i < group_count(whole as int),
            out@.len() == i,
            rest == drop_groups(whole as int, i as int),
        invariant
            whole == unsigned32(value),
            whole < 4294967296,
            forall|j: int| 0 <= j < out@.len() ==> out@[j] == encoded_byte(whole as int, j),
        ensures
            out@.len() == group_count(whole as int),
        decreases 5 - i,
    {
        let low: u8 = (rest % 128) as u8;
        rest = rest / 128;
        assert(low == group(whole as int, i as int));
        if rest == 0 {
            assert(i + 1 == group_count(whole as int));
            out.push(low);
            break;
        }
        assert(i + 1 < group_count(whole as int));
        out.push(low + 128);
        i = i + 1;
    }
    assert(out@ =~= var_int_bytes(value));
    out
}

/// The groups of a number below 2^35, each at its place, add up to the number.
pub proof fn lemma_groups_sum(u: int)
    requires
        0 <= u < 34359738368,
    ensures
        group(u, 0) + group(u, 1) * 128 + group(u, 2) * 16384 + group(u, 3) * 2097152 + group(u, 4)
            * 268435456 == u,
        forall|i: int| group_count(u) <= i < 5 ==> #[trigger] group(u, i) == 0,
        forall|i: int| 0 <= i < 5 ==> 0 <= #[trigger] group(u, i) < 128,
        group_count(u) > 1 ==> group(u, group_count(u) - 1) > 0,
{
    let a = u / 128;
    let b = a / 128;
    let c = b / 128;
    let d = c / 128;
    assert(u == 128 * a + u % 128);
    assert(a == 128 * b + a % 128);
    assert(b == 128 * c + b % 128);
    assert(c == 128 * d + c % 128);
    assert(d < 128);
}

/// Where the number at the front of `s` is `n` bytes long, it is what is read.
pub proof fn lemma_read_shape(s: Seq<u8>, n: int)
    requires
        1 <= n <= 5,
        ends_at(s, n),
    ensures
        var_int_at_front(s) == number_in(s, n),
{
    reveal(var_int_at_front);
    assert forall|m: int| 1 <= m < n implies !ends_at(s, m) by {
        assert(s[m - 1] >= 128);
    }
}

/// The bytes written for `v` spell `v` read as an unsigned number.
proof fn lemma_encoded_magnitude(v: i32, rest: Seq<u8>)
    ensures
        magnitude(var_int_bytes(v) + rest, group_count(unsigned32(v))) == unsigned32(v),
{
    let u = unsigned32(v);
    let s = var_int_bytes(v) + rest;
    let n = group_count(u);
    lemma_groups_sum(u);
    assert forall|i: int| 0 <= i < 5 implies #[trigger] septet(s, i, n) == (if i < n {
        group(u, i)
    } else {
        0
    }) by {
        if i < n {
            assert(s[i] == encoded_byte(u, i));
        }
    }
    assert(septet(s, 0, n) == group(u, 0));
    assert(septet(s, 1, n) == group(u, 1));
    assert(septet(s, 2, n) == group(u, 2));
    assert(septet(s, 3, n) == group(u, 3));
    assert(septet(s, 4, n) == group(u, 4));
}

/// What was written reads back: the encoding of `v`, whatever follows it, is
/// read as `v` over exactly the bytes written.
pub proof fn lemma_var_int_round_trip(v: i32, rest: Seq<u8>)
    ensures
        1 <= var_int_bytes(v).len() <= 5,
        var_int_at_front(var_int_bytes(v) + rest) == (VarIntRead::Value {
            value: v,
            len: var_int_bytes(v).len() as usize,
        }),
{
    let u = unsigned32(v);
    let s = var_int_bytes(v) + rest;
    let n = group_count(u);
    lemma_groups_sum(u);
    lemma_encoded_magnitude(v, rest);
    assert(wrap_i32(u) == v);
    assert forall|i: int| 0 <= i < n - 1 implies s[i] >= 128 by {
        assert(s[i] == encoded_byte(u, i));
    }
    assert(s[n - 1] < 128) by {
        assert(s[n - 1] == encoded_byte(u, n - 1));
    }
    assert(ends_at(s, n));
    lemma_read_shape(s, n);
}

/// A number that was read took one to five bytes, all of them at hand.
pub proof fn lemma_var_int_extent(s: Seq<u8>)
    ensures
        var_int_at_front(s) matches VarIntRead::Value { value, len } ==> 1 <= len <= 5 && len
            <= s.len(),
{
    reveal(var_int_at_front);
}

/// More bytes behind a finished or failed read change nothing.
pub proof fn lemma_var_int_prefix(s: Seq<u8>, more: Seq<u8>)
    ensures
        var_int_at_front(s) != VarIntRead::Incomplete ==> var_int_at_front(s + more)
            == var_int_at_front(s),
{
    reveal(var_int_at_front);
    let t = s + more;
    assert forall|i: int| 0 <= i < s.len() implies t[i] == s[i] by {}
    assert forall|n: int| 1 <= n <= 5 && n <= s.len() implies (ends_at(t, n) <==> ends_at(s, n))
        && magnitude(t, n) == magnitude(s, n) by {
        assert(forall|i: int| 0 <= i < 5 ==> septet(t, i, n) == septet(s, i, n));
    }
    if var_int_at_front(s) == VarIntRead::Malformed {
        assert forall|n: int| 1 <= n <= 5 implies !ends_at(t, n) by {}
    }
}

} // verus!
