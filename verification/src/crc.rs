//! The cyclic redundancy check of Protocol 2.0 frames.

use vstd::prelude::*;

verus! {

/// One step of the polynomial division: the remainder is multiplied by `x` and
/// reduced modulo the generator `x^16 + x^15 + x^2 + 1`.
pub open spec fn crc_shift(crc: u16) -> u16 {
    if crc & 0x8000 != 0 {
        (crc << 1) ^ 0x8005
    } else {
        crc << 1
    }
}

/// Eight steps of the division, one per bit of a byte.
#[verifier::opaque]
pub open spec fn crc_shift8(crc: u16) -> u16 {
    crc_shift(crc_shift(crc_shift(crc_shift(crc_shift(crc_shift(crc_shift(crc_shift(crc))))))))
}

/// The remainder after one more message byte, whose bits join the remainder at
/// its high end.
pub open spec fn crc_byte(crc: u16, b: u8) -> u16 {
    crc_shift8(crc ^ ((b as u16) << 8))
}

/// The checksum of a message: the remainder, most significant bit first, of the
/// message times `x^16`, starting from zero.
pub open spec fn crc16(data: Seq<u8>) -> u16
    decreases data.len(),
{
    if data.len() == 0 {
        0
    } else {
        crc_byte(crc16(data.drop_last()), data.last())
    }
}

/// The first `n` steps of the division.
spec fn crc_steps(crc: u16, n: nat) -> u16
    decreases n,
{
    if n == 0 {
        crc
    } else {
        crc_shift(crc_steps(crc, (n - 1) as nat))
    }
}

/// The table of the remainders that the byte values have at the high end of a zero
/// remainder.
fn crc_table() -> (table: [u16; 256])
    ensures
        forall|b: u8| #[trigger] table@[b as int] == crc_shift8((b as u16) << 8),
{
    let mut table: [u16; 256] = [0; 256];
    let mut i: u16 = 0;
    while i < 256
        invariant
            i <= 256,
            forall|b: u8| b < i ==> #[trigger] table@[b as int] == crc_shift8((b as u16) << 8),
        decreases 256 - i,
    {
        let first: u16 = i << 8;
        let mut crc: u16 = first;
        let mut j: usize = 0;
        while j < 8
            invariant
                j <= 8,
                crc == crc_steps(first, j as nat),
            decreases 8 - j,
        {
            if crc & 0x8000 != 0 {
                crc = (crc << 1) ^ 0x8005;
            } else {
                crc = crc << 1;
            }
            j = j + 1;
        }
        proof {
            reveal(crc_shift8);
            reveal_with_fuel(crc_steps, 9);
        }
        table[i as usize] = crc;
        i = i + 1;
    }
    table
}

/// The division respects addition of polynomials.
proof fn lemma_shift_of_sum(a: u16, b: u16)
    by (bit_vector)
    ensures
        crc_shift(a ^ b) == crc_shift(a) ^ crc_shift(b),
{
}

proof fn lemma_shift8_of_sum(a: u16, b: u16)
    ensures
        crc_shift8(a ^ b) == crc_shift8(a) ^ crc_shift8(b),
{
    reveal(crc_shift8);
    let (a1, b1) = (crc_shift(a), crc_shift(b));
    let (a2, b2) = (crc_shift(a1), crc_shift(b1));
    let (a3, b3) = (crc_shift(a2), crc_shift(b2));
    let (a4, b4) = (crc_shift(a3), crc_shift(b3));
    let (a5, b5) = (crc_shift(a4), crc_shift(b4));
    let (a6, b6) = (crc_shift(a5), crc_shift(b5));
    let (a7, b7) = (crc_shift(a6), crc_shift(b6));
    lemma_shift_of_sum(a, b);
    lemma_shift_of_sum(a1, b1);
    lemma_shift_of_sum(a2, b2);
    lemma_shift_of_sum(a3, b3);
    lemma_shift_of_sum(a4, b4);
    lemma_shift_of_sum(a5, b5);
    lemma_shift_of_sum(a6, b6);
    lemma_shift_of_sum(a7, b7);
}

/// Without a term of degree 15 a step only doubles the remainder.
proof fn lemma_shift_of_small(c: u16)
    by (bit_vector)
    requires
        c < 0x8000,
    ensures
        crc_shift(c) == 2 * c,
{
}

proof fn lemma_shift8_of_small(c: u16)
    requires
        c < 0x100,
    ensures
        crc_shift8(c) == c << 8,
{
    reveal(crc_shift8);
    lemma_shift_of_small(c);
    lemma_shift_of_small((2 * c) as u16);
    lemma_shift_of_small((4 * c) as u16);
    lemma_shift_of_small((8 * c) as u16);
    lemma_shift_of_small((16 * c) as u16);
    lemma_shift_of_small((32 * c) as u16);
    lemma_shift_of_small((64 * c) as u16);
    lemma_shift_of_small((128 * c) as u16);
    assert(c << 8 == 256 * c) by (bit_vector)
        requires
            c < 0x100,
    ;
}

/// Taking in a byte moves the low half of the remainder up and adds the remainder
/// of the byte that the high half and the message byte make.
proof fn lemma_crc_byte_by_table(crc: u16, b: u8)
    ensures
        crc_byte(crc, b) == (crc << 8) ^ crc_shift8((((crc >> 8) as u8 ^ b) as u16) << 8),
{
    let low = crc & 0xFF;
    let high = (((crc >> 8) as u8 ^ b) as u16) << 8;
    assert(crc ^ ((b as u16) << 8) == (crc & 0xFF) ^ ((((crc >> 8) as u8 ^ b) as u16) << 8))
        by (bit_vector);
    assert((crc & 0xFF) < 0x100 && (crc & 0xFF) << 8 == crc << 8) by (bit_vector);
    lemma_shift8_of_sum(low, high);
    lemma_shift8_of_small(low);
}

/// CRC-16 with polynomial 0x8005, initial value 0 and no reflection: the variant
/// that Protocol 2.0 uses.
pub fn crc16_ibm(data: &[u8]) -> (crc: u16)
    ensures
        crc == crc16(data@),
{
    let table = crc_table();
    let mut crc: u16 = 0;
    let mut i: usize = 0;
    while i < data.len()
        invariant
            i <= data@.len(),
            forall|b: u8| #[trigger] table@[b as int] == crc_shift8((b as u16) << 8),
            crc == crc16(data@.take(i as int)),
        decreases data@.len() - i,
    {
        let b = data[i];
        let idx: u8 = (crc >> 8) as u8 ^ b;
        proof {
            assert(data@.take(i + 1).drop_last() =~= data@.take(i as int));
            lemma_crc_byte_by_table(crc, b);
        }
        crc = (crc << 8) ^ table[idx as usize];
        i = i + 1;
    }
    assert(data@.take(i as int) =~= data@);
    crc
}

/// Distinct remainders stay distinct under a step of the division.
proof fn lemma_shift_keeps_apart(a: u16, b: u16)
    by (bit_vector)
    requires
        a != b,
    ensures
        crc_shift(a) != crc_shift(b),
{
}

proof fn lemma_shift8_keeps_apart(a: u16, b: u16)
    requires
        a != b,
    ensures
        crc_shift8(a) != crc_shift8(b),
{
    reveal(crc_shift8);
    let (a1, b1) = (crc_shift(a), crc_shift(b));
    let (a2, b2) = (crc_shift(a1), crc_shift(b1));
    let (a3, b3) = (crc_shift(a2), crc_shift(b2));
    let (a4, b4) = (crc_shift(a3), crc_shift(b3));
    let (a5, b5) = (crc_shift(a4), crc_shift(b4));
    let (a6, b6) = (crc_shift(a5), crc_shift(b5));
    let (a7, b7) = (crc_shift(a6), crc_shift(b6));
    lemma_shift_keeps_apart(a, b);
    lemma_shift_keeps_apart(a1, b1);
    lemma_shift_keeps_apart(a2, b2);
    lemma_shift_keeps_apart(a3, b3);
    lemma_shift_keeps_apart(a4, b4);
    lemma_shift_keeps_apart(a5, b5);
    lemma_shift_keeps_apart(a6, b6);
    lemma_shift_keeps_apart(a7, b7);
}

/// Changing any single byte of a message changes its checksum.
pub proof fn lemma_crc_detects_changed_byte(data: Seq<u8>, i: int, b: u8)
    requires
        0 <= i < data.len(),
        b != data[i],
    ensures
        crc16(data.update(i, b)) != crc16(data),
    decreases data.len(),
{
    let changed = data.update(i, b);
    let c1 = crc16(changed.drop_last());
    let c2 = crc16(data.drop_last());
    let b1 = changed.last();
    let b2 = data.last();
    if i == data.len() - 1 {
        assert(changed.drop_last() =~= data.drop_last());
    } else {
        assert(changed.drop_last() =~= data.drop_last().update(i, b));
        lemma_crc_detects_changed_byte(data.drop_last(), i, b);
    }
    assert(c1 ^ ((b1 as u16) << 8) != c2 ^ ((b2 as u16) << 8)) by (bit_vector)
        requires
            (c1 == c2) != (b1 == b2),
    ;
    lemma_shift8_keeps_apart(c1 ^ ((b1 as u16) << 8), c2 ^ ((b2 as u16) << 8));
}

/// Messages of the same length added byte by byte, without carry.
pub open spec fn sum_of(a: Seq<u8>, b: Seq<u8>) -> Seq<u8> {
    Seq::new(a.len(), |i: int| a[i] ^ b[i])
}

/// The checksum respects addition: that of a sum is the sum of the checksums.
pub proof fn lemma_crc_of_sum(a: Seq<u8>, b: Seq<u8>)
    requires
        a.len() == b.len(),
    ensures
        crc16(sum_of(a, b)) == crc16(a) ^ crc16(b),
    decreases a.len(),
{
    if a.len() == 0 {
        assert(0u16 ^ 0u16 == 0u16) by (bit_vector);
    } else {
        let (c, d) = (crc16(a.drop_last()), crc16(b.drop_last()));
        let (x, y) = (a.last(), b.last());
        lemma_crc_of_sum(a.drop_last(), b.drop_last());
        assert(sum_of(a, b).drop_last() =~= sum_of(a.drop_last(), b.drop_last()));
        assert((c ^ d) ^ (((x ^ y) as u16) << 8) == (c ^ ((x as u16) << 8)) ^ (d ^ ((y as u16)
            << 8))) by (bit_vector);
        lemma_shift8_of_sum(c ^ ((x as u16) << 8), d ^ ((y as u16) << 8));
    }
}

/// Taking in a zero byte leaves a zero remainder as it is.
proof fn lemma_crc_byte_of_zero()
    ensures
        crc_byte(0, 0) == 0,
        crc_shift8(0) == 0,
{
    lemma_shift8_of_small(0);
    assert(0u16 << 8 == 0u16 && 0u16 ^ ((0u8 as u16) << 8) == 0u16) by (bit_vector);
}

/// A message with its own checksum behind it, high byte first, has the checksum zero,
/// and no other two bytes behind it have that effect.
pub proof fn lemma_crc_closes_message(data: Seq<u8>, high: u8, low: u8)
    ensures
        crc16(data + seq![high, low]) == 0 <==> crc16(data) == 256 * high + low,
{
    let all = data + seq![high, low];
    let c = crc16(data);
    let x = c ^ ((high as u16) << 8);
    let y = crc_shift8(x) ^ ((low as u16) << 8);
    assert(all.drop_last().drop_last() =~= data);
    assert(crc16(all.drop_last()) == crc_shift8(x));
    assert(crc16(all) == crc_shift8(y));
    lemma_crc_byte_of_zero();
    lemma_shift8_of_small(low as u16);
    assert(c == 256 * high + low <==> x == low as u16) by (bit_vector)
        requires
            x == c ^ ((high as u16) << 8),
    ;
    if x == low as u16 {
        assert(y == 0) by (bit_vector)
            requires
                y == ((low as u16) << 8) ^ ((low as u16) << 8),
        ;
    } else {
        lemma_shift8_keeps_apart(x, low as u16);
        let s = crc_shift8(x);
        assert(y != 0) by (bit_vector)
            requires
                y == s ^ ((low as u16) << 8),
                s != (low as u16) << 8,
        ;
        lemma_shift8_keeps_apart(y, 0);
    }
}

/// A number of zero bytes.
pub open spec fn zeros(n: nat) -> Seq<u8> {
    Seq::new(n, |i: int| 0u8)
}

/// Zero bytes in front of a message do not change its checksum.
pub proof fn lemma_crc_ignores_leading_zeros(n: nat, data: Seq<u8>)
    ensures
        crc16(zeros(n) + data) == crc16(data),
    decreases n + data.len(),
{
    let all = zeros(n) + data;
    if data.len() > 0 {
        assert(all.drop_last() =~= zeros(n) + data.drop_last());
        lemma_crc_ignores_leading_zeros(n, data.drop_last());
    } else if n > 0 {
        let less = (n - 1) as nat;
        lemma_crc_ignores_leading_zeros(less, data);
        assert(all.drop_last() =~= zeros(less) + data);
        lemma_crc_byte_of_zero();
    } else {
        assert(all =~= data);
    }
}

/// Zero bytes behind a message whose checksum is zero leave it zero.
proof fn lemma_crc_stays_zero(data: Seq<u8>, n: nat)
    requires
        crc16(data) == 0,
    ensures
        crc16(data + zeros(n)) == 0,
    decreases n,
{
    let all = data + zeros(n);
    if n == 0 {
        assert(all =~= data);
    } else {
        let less = (n - 1) as nat;
        lemma_crc_stays_zero(data, less);
        assert(all.drop_last() =~= data + zeros(less));
        lemma_crc_byte_of_zero();
    }
}

/// The generator `x^16 + x^15 + x^2 + 1`, moved up by `k` bits, as three bytes, high
/// byte first.
pub open spec fn generator(k: u32) -> Seq<u8> {
    let g = 0x18005u32 << k;
    seq![(g >> 16) as u8, ((g >> 8) & 0xFF) as u8, (g & 0xFF) as u8]
}

/// A single bit in the low place of a byte leaves the generator without its leading
/// term.
proof fn lemma_generator_remainder_of_one()
    ensures
        crc_shift8(0x100) == 0x8005,
{
    reveal(crc_shift8);
    assert(crc_shift(0x0100) == 0x0200 && crc_shift(0x0200) == 0x0400 && crc_shift(0x0400)
        == 0x0800 && crc_shift(0x0800) == 0x1000 && crc_shift(0x1000) == 0x2000 && crc_shift(0x2000)
        == 0x4000 && crc_shift(0x4000) == 0x8000 && crc_shift(0x8000) == 0x8005) by (bit_vector);
}

/// The high byte of the moved generator leaves the low two bytes as its remainder.
proof fn lemma_generator_remainder(k: u32)
    requires
        k < 8,
    ensures
        crc_shift8((((0x18005u32 << k) >> 16) as u16) << 8) == ((0x18005u32 << k) & 0xFFFF) as u16,
    decreases k,
{
    lemma_generator_remainder_of_one();
    if k == 0 {
        assert(((((0x18005u32 << 0u32) >> 16) as u16) << 8) == 0x100 && ((0x18005u32 << 0u32)
            & 0xFFFF) as u16 == 0x8005) by (bit_vector);
    } else {
        let j = (k - 1) as u32;
        lemma_generator_remainder(j);
        let a = (((0x18005u32 << j) >> 16) as u16) << 8;
        let r = ((0x18005u32 << j) & 0xFFFF) as u16;
        let b = (((0x18005u32 << k) >> 16) as u16) << 8;
        let s = ((0x18005u32 << k) & 0xFFFF) as u16;
        let carry: u16 = if r & 0x8000 != 0 {
            0x100
        } else {
            0
        };
        assert(crc_shift8(crc_shift(a)) == crc_shift(crc_shift8(a))) by {
            reveal(crc_shift8);
        }
        lemma_generator_step(j, k, a, r, b, s, carry);
        lemma_shift8_of_sum(crc_shift(a), carry);
        lemma_crc_byte_of_zero();
        assert(crc_shift8(b) == crc_shift(r) ^ crc_shift8(carry));
    }
}

/// Moving the generator up by one more bit is a step of the division, with the bit
/// that leaves the low half carried over.
proof fn lemma_generator_step(j: u32, k: u32, a: u16, r: u16, b: u16, s: u16, carry: u16)
    by (bit_vector)
    requires
        k < 8,
        k == j + 1,
        a == (((0x18005u32 << j) >> 16) as u16) << 8,
        r == ((0x18005u32 << j) & 0xFFFF) as u16,
        b == (((0x18005u32 << k) >> 16) as u16) << 8,
        s == ((0x18005u32 << k) & 0xFFFF) as u16,
        r & 0x8000 != 0 ==> carry == 0x100,
        r & 0x8000 == 0 ==> carry == 0,
    ensures
        b == crc_shift(a) ^ carry,
        r & 0x8000 != 0 ==> crc_shift(r) ^ 0x8005u16 == s,
        r & 0x8000 == 0 ==> crc_shift(r) ^ 0u16 == s,
{
}

/// Every message that is the generator, moved by any number of bits, has the checksum
/// zero. Together with the laws on sums and on the closing bytes this fixes the
/// checksum of every message: it is the remainder of the division by the generator.
pub proof fn lemma_crc_of_generator(before: nat, k: u32, after: nat)
    requires
        k < 8,
    ensures
        crc16(zeros(before) + generator(k) + zeros(after)) == 0,
{
    let g = 0x18005u32 << k;
    let (b2, b1, b0) = ((g >> 16) as u8, ((g >> 8) & 0xFF) as u8, (g & 0xFF) as u8);
    let first = seq![b2];
    assert(first.drop_last() =~= Seq::<u8>::empty());
    assert(crc16(first.drop_last()) == 0);
    assert(0x18005u32 << k < 0x1000000) by (bit_vector)
        requires
            k < 8,
    ;
    let low = (g & 0xFFFF) as u16;
    let top = ((g >> 16) as u16) << 8;
    assert(0u16 ^ ((b2 as u16) << 8) == top && low == 256 * b1 + b0) by (bit_vector)
        requires
            g < 0x1000000,
            b2 == (g >> 16) as u8,
            b1 == ((g >> 8) & 0xFF) as u8,
            b0 == (g & 0xFF) as u8,
            low == (g & 0xFFFF) as u16,
            top == ((g >> 16) as u16) << 8,
    ;
    lemma_generator_remainder(k);
    lemma_crc_closes_message(first, b1, b0);
    assert(first + seq![b1, b0] =~= generator(k));
    lemma_crc_ignores_leading_zeros(before, generator(k));
    lemma_crc_stays_zero(zeros(before) + generator(k), after);
}

} // verus!
