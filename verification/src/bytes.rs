//! Small operations on byte strings.

use vstd::prelude::*;

verus! {

/// The number that two bytes stand for, low byte first.
pub open spec fn le16(lo: u8, hi: u8) -> u16 {
    (lo + 256 * hi) as u16
}

/// The sum of the bytes of `s`.
pub open spec fn byte_sum(s: Seq<u8>) -> nat
    decreases s.len(),
{
    if s.len() == 0 {
        0
    } else {
        byte_sum(s.drop_last()) + s.last() as nat
    }
}

/// Every number is read back from its low byte and its high byte.
pub proof fn lemma_le16_round_trip(n: u16)
    ensures
        le16((n % 256) as u8, (n / 256) as u8) == n,
{
}

/// The sum of one byte is the byte, and the sum of two byte strings put together is
/// the sum of both.
pub proof fn lemma_byte_sum_adds_up(a: Seq<u8>, b: Seq<u8>, c: u8)
    ensures
        byte_sum(Seq::empty()) == 0,
        byte_sum(seq![c]) == c,
        byte_sum(a + b) == byte_sum(a) + byte_sum(b),
    decreases b.len(),
{
    assert(seq![c].drop_last() =~= Seq::<u8>::empty());
    assert(byte_sum(seq![c].drop_last()) == 0);
    if b.len() == 0 {
        assert(a + b =~= a);
    } else {
        assert((a + b).drop_last() =~= a + b.drop_last());
        lemma_byte_sum_adds_up(a, b.drop_last(), c);
    }
}

/// Joins two bytes, low byte first.
pub(crate) fn join_le(lo: u8, hi: u8) -> (n: u16)
    ensures
        n == le16(lo, hi),
{
    (lo as u16) + 256 * (hi as u16)
}

/// Copies the bytes of `v` from position `from` up to, not including, `to`.
pub(crate) fn copy_range(v: &Vec<u8>, from: usize, to: usize) -> (out: Vec<u8>)
    requires
        from <= to <= v@.len(),
    ensures
        out@ == v@.subrange(from as int, to as int),
{
    let mut out: Vec<u8> = Vec::with_capacity(to - from);
    let mut i: usize = from;
    while i < to
        invariant
            from <= i <= to <= v@.len(),
            out@ == v@.subrange(from as int, i as int),
        decreases to - i,
    {
        out.push(v[i]);
        assert(v@.subrange(from as int, i + 1) =~= v@.subrange(from as int, i as int).push(
            v@[i as int],
        ));
        i = i + 1;
    }
    out
}

/// The low byte of the sum of the bytes of `v` from position `from` up to, not
/// including, `to`.
pub(crate) fn sum_range(v: &Vec<u8>, from: usize, to: usize) -> (low: u8)
    requires
        from <= to <= v@.len(),
    ensures
        low == byte_sum(v@.subrange(from as int, to as int)) % 256,
{
    let mut low: u8 = 0;
    let mut i: usize = from;
    while i < to
        invariant
            from <= i <= to <= v@.len(),
            low == byte_sum(v@.subrange(from as int, i as int)) % 256,
        decreases to - i,
    {
        proof {
            let next = v@.subrange(from as int, i + 1);
            assert(next.drop_last() =~= v@.subrange(from as int, i as int));
        }
        low = low.wrapping_add(v[i]);
        i = i + 1;
    }
    low
}

} // verus!
