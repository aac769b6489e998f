//! Byte stuffing of Protocol v2 payloads.
//!
//! On the wire every `FF FF FD` inside a payload is followed by an extra `FD`, so
//! that no payload can contain the frame header `FF FF FD 00`.

use vstd::prelude::*;

verus! {

/// Whether `s` starts with the three bytes that need stuffing.
pub open spec fn starts_with_mark(s: Seq<u8>) -> bool {
    s.len() >= 3 && s[0] == 0xFF && s[1] == 0xFF && s[2] == 0xFD
}

/// Whether `s` starts with the three marked bytes and the stuffing byte.
pub open spec fn starts_with_stuffed_mark(s: Seq<u8>) -> bool {
    starts_with_mark(s) && s.len() >= 4 && s[3] == 0xFD
}

/// The payload as it travels: an `FD` is put after every `FF FF FD`.
pub open spec fn stuff(payload: Seq<u8>) -> Seq<u8>
    decreases payload.len(),
{
    if payload.len() == 0 {
        Seq::empty()
    } else if starts_with_mark(payload) {
        seq![0xFFu8, 0xFF, 0xFD, 0xFD] + stuff(payload.skip(3))
    } else {
        seq![payload[0]] + stuff(payload.skip(1))
    }
}

/// The payload that wire bytes stand for: the `FD` after every `FF FF FD` is
/// taken out, from left to right.
pub open spec fn unstuff(wire: Seq<u8>) -> Seq<u8>
    decreases wire.len(),
{
    if wire.len() == 0 {
        Seq::empty()
    } else if starts_with_stuffed_mark(wire) {
        seq![0xFFu8, 0xFF, 0xFD] + unstuff(wire.skip(4))
    } else {
        seq![wire[0]] + unstuff(wire.skip(1))
    }
}

/// Reverses the byte stuffing of a payload.
pub fn v2_unstuff(wire: &[u8]) -> (out: Vec<u8>)
    ensures
        out@ == unstuff(wire@),
{
    let mut out: Vec<u8> = Vec::with_capacity(wire.len());
    let mut i: usize = 0;
    assert(wire@.skip(0) =~= wire@);
    while i < wire.len()
        invariant
            i <= wire@.len(),
            out@ + unstuff(wire@.skip(i as int)) == unstuff(wire@),
        decreases wire@.len() - i,
    {
        let ghost rest = wire@.skip(i as int);
        let ghost before = out@;
        out.push(wire[i]);
        if wire.len() - i > 3 && wire[i] == 0xFF && wire[i + 1] == 0xFF && wire[i + 2] == 0xFD
            && wire[i + 3] == 0xFD {
            out.push(wire[i + 1]);
            out.push(wire[i + 2]);
            proof {
                assert(rest.skip(4) =~= wire@.skip(i + 4));
                assert(out@ + unstuff(rest.skip(4)) =~= before + (seq![0xFFu8, 0xFF, 0xFD]
                    + unstuff(rest.skip(4))));
            }
            i = i + 4;
        } else {
            proof {
                assert(rest.skip(1) =~= wire@.skip(i + 1));
                assert(out@ + unstuff(rest.skip(1)) =~= before + (seq![rest[0]] + unstuff(
                    rest.skip(1),
                )));
            }
            i = i + 1;
        }
    }
    assert(wire@.skip(i as int) =~= Seq::<u8>::empty());
    assert(out@ + Seq::<u8>::empty() =~= out@);
    out
}

/// A stuffed payload starts as the payload does, and holds a stuffing byte only
/// where the payload is long enough to need one.
proof fn lemma_stuff_front(payload: Seq<u8>)
    ensures
        stuff(payload).len() >= payload.len(),
        payload.len() < 3 ==> stuff(payload).len() == payload.len(),
        payload.len() > 0 ==> stuff(payload)[0] == payload[0],
        payload.len() > 1 ==> stuff(payload)[1] == payload[1],
        payload.len() > 2 ==> stuff(payload)[2] == payload[2],
    decreases payload.len(),
{
    if payload.len() > 0 {
        if starts_with_mark(payload) {
            lemma_stuff_front(payload.skip(3));
        } else {
            lemma_stuff_front(payload.skip(1));
        }
    }
}

/// Taking the stuffing out of a stuffed payload gives the payload back.
pub proof fn lemma_unstuff_inverts_stuff(payload: Seq<u8>)
    ensures
        unstuff(stuff(payload)) == payload,
    decreases payload.len(),
{
    let wire = stuff(payload);
    if payload.len() == 0 {
    } else if starts_with_mark(payload) {
        let tail = payload.skip(3);
        lemma_unstuff_inverts_stuff(tail);
        assert(wire.skip(4) =~= stuff(tail));
        assert(seq![0xFFu8, 0xFF, 0xFD] + tail =~= payload);
    } else {
        let tail = payload.skip(1);
        lemma_unstuff_inverts_stuff(tail);
        lemma_stuff_front(payload);
        assert(wire.skip(1) =~= stuff(tail));
        assert(seq![payload[0]] + tail =~= payload);
    }
}

/// In a stuffed payload every `FF FF FD` is followed by an `FD`.
pub proof fn lemma_stuffed_marks_are_followed(payload: Seq<u8>, i: int)
    requires
        0 <= i <= stuff(payload).len(),
        starts_with_mark(stuff(payload).skip(i)),
    ensures
        starts_with_stuffed_mark(stuff(payload).skip(i)),
    decreases payload.len(),
{
    let wire = stuff(payload);
    if payload.len() == 0 {
    } else if starts_with_mark(payload) {
        if i >= 4 {
            assert(wire.skip(i) =~= stuff(payload.skip(3)).skip(i - 4));
            lemma_stuffed_marks_are_followed(payload.skip(3), i - 4);
        }
    } else {
        lemma_stuff_front(payload);
        if i >= 1 {
            assert(wire.skip(i) =~= stuff(payload.skip(1)).skip(i - 1));
            lemma_stuffed_marks_are_followed(payload.skip(1), i - 1);
        }
    }
}

/// Whether the bytes `FF FF FD` are at a position.
pub open spec fn mark_at(s: Seq<u8>, i: int) -> bool {
    0 <= i && i + 3 <= s.len() && s[i] == 0xFF && s[i + 1] == 0xFF && s[i + 2] == 0xFD
}

/// Whether the bytes `FF FF FD FD` are at a position.
pub open spec fn stuffed_mark_at(s: Seq<u8>, i: int) -> bool {
    mark_at(s, i) && i + 4 <= s.len() && s[i + 3] == 0xFD
}

/// Bytes that nowhere hold `FF FF FD FD` have no stuffing in them, and stay as they
/// are.
pub proof fn lemma_unstuff_keeps_plain(wire: Seq<u8>)
    requires
        forall|i: int| !stuffed_mark_at(wire, i),
    ensures
        unstuff(wire) == wire,
    decreases wire.len(),
{
    if wire.len() > 0 {
        let tail = wire.skip(1);
        assert(!stuffed_mark_at(wire, 0));
        assert forall|i: int| !stuffed_mark_at(tail, i) by {
            assert(!stuffed_mark_at(wire, i + 1));
        }
        lemma_unstuff_keeps_plain(tail);
        assert(seq![wire[0]] + tail =~= wire);
    }
}

/// Up to the first `FF FF FD FD` everything stays; of that, the last byte goes; and
/// what follows is treated afresh.
pub proof fn lemma_unstuff_takes_out(wire: Seq<u8>, i: int)
    requires
        stuffed_mark_at(wire, i),
        forall|j: int| j < i ==> !stuffed_mark_at(wire, j),
    ensures
        unstuff(wire) == wire.take(i + 3) + unstuff(wire.skip(i + 4)),
    decreases wire.len(),
{
    if i == 0 {
        assert(wire.take(3) =~= seq![0xFFu8, 0xFF, 0xFD]);
    } else {
        let tail = wire.skip(1);
        assert(!stuffed_mark_at(wire, 0));
        assert forall|j: int| j < i - 1 implies !stuffed_mark_at(tail, j) by {
            assert(!stuffed_mark_at(wire, j + 1));
        }
        lemma_unstuff_takes_out(tail, i - 1);
        assert(tail.skip(i + 3) =~= wire.skip(i + 4));
        let rest = unstuff(wire.skip(i + 4));
        assert(seq![wire[0]] + (tail.take(i + 2) + rest) =~= wire.take(i + 3) + rest);
    }
}

/// A payload that nowhere holds `FF FF FD` travels as it is.
pub proof fn lemma_stuff_keeps_plain(payload: Seq<u8>)
    requires
        forall|i: int| !mark_at(payload, i),
    ensures
        stuff(payload) == payload,
    decreases payload.len(),
{
    if payload.len() > 0 {
        let tail = payload.skip(1);
        assert(!mark_at(payload, 0));
        assert forall|i: int| !mark_at(tail, i) by {
            assert(!mark_at(payload, i + 1));
        }
        lemma_stuff_keeps_plain(tail);
        assert(seq![payload[0]] + tail =~= payload);
    }
}

/// Up to and with the first `FF FF FD` everything travels as it is; then an `FD` is put
/// in; and what follows is treated afresh.
pub proof fn lemma_stuff_puts_in(payload: Seq<u8>, i: int)
    requires
        mark_at(payload, i),
        forall|j: int| j < i ==> !mark_at(payload, j),
    ensures
        stuff(payload) == payload.take(i + 3) + seq![0xFDu8] + stuff(payload.skip(i + 3)),
    decreases payload.len(),
{
    if i == 0 {
        assert(payload.take(3) + seq![0xFDu8] =~= seq![0xFFu8, 0xFF, 0xFD, 0xFD]);
    } else {
        let tail = payload.skip(1);
        assert(!mark_at(payload, 0));
        assert forall|j: int| j < i - 1 implies !mark_at(tail, j) by {
            assert(!mark_at(payload, j + 1));
        }
        lemma_stuff_puts_in(tail, i - 1);
        assert(tail.skip(i + 2) =~= payload.skip(i + 3));
        let rest = stuff(payload.skip(i + 3));
        assert(seq![payload[0]] + (tail.take(i + 2) + seq![0xFDu8] + rest) =~= payload.take(i + 3)
            + seq![0xFDu8] + rest);
    }
}

/// A stuffed payload nowhere contains the frame header `FF FF FD 00`.
pub proof fn lemma_stuffed_payload_has_no_header(payload: Seq<u8>, i: int)
    requires
        0 <= i,
        i + 4 <= stuff(payload).len(),
    ensures
        stuff(payload).subrange(i, i + 4) != seq![0xFFu8, 0xFF, 0xFD, 0x00],
{
    let wire = stuff(payload);
    let window = wire.subrange(i, i + 4);
    if window == seq![0xFFu8, 0xFF, 0xFD, 0x00] {
        assert(window[0] == wire.skip(i)[0] && window[1] == wire.skip(i)[1] && window[2]
            == wire.skip(i)[2] && window[3] == wire.skip(i)[3]);
        lemma_stuffed_marks_are_followed(payload, i);
    }
}

} // verus!
