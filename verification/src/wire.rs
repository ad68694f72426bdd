//! Little- and big-endian byte layouts for the integer fields of the wire
//! formats, with the round-trip lemmas the codecs rely on.

use vstd::arithmetic::power2::{lemma2_to64, lemma_pow2_strictly_increases, lemma_pow2_unfold, pow2};
use vstd::prelude::*;

verus! {

/// Little-endian bytes of a 16-bit value.
pub open spec fn u16_le(v: u16) -> Seq<u8> {
    seq![(v % 256) as u8, (v / 256) as u8]
}

/// 16-bit value read from two little-endian bytes.
pub open spec fn u16_from_le(b0: u8, b1: u8) -> u16 {
    (b0 + b1 * 256) as u16
}

/// Big-endian bytes of a 16-bit value.
pub open spec fn u16_be(v: u16) -> Seq<u8> {
    seq![(v / 256) as u8, (v % 256) as u8]
}

/// 16-bit value read from two big-endian bytes.
pub open spec fn u16_from_be(b0: u8, b1: u8) -> u16 {
    (b0 * 256 + b1) as u16
}

/// Little-endian bytes of a 64-bit value.
pub open spec fn u64_le(v: u64) -> Seq<u8> {
    seq![
        (v % 256) as u8,
        ((v / 0x100) % 256) as u8,
        ((v / 0x1_0000) % 256) as u8,
        ((v / 0x100_0000) % 256) as u8,
        ((v / 0x1_0000_0000) % 256) as u8,
        ((v / 0x100_0000_0000) % 256) as u8,
        ((v / 0x1_0000_0000_0000) % 256) as u8,
        ((v / 0x100_0000_0000_0000) % 256) as u8,
    ]
}

/// 64-bit value read from eight little-endian bytes.
pub open spec fn u64_from_le(b: Seq<u8>) -> u64
    recommends
        b.len() == 8,
{
    (b[0] + b[1] * 0x100 + b[2] * 0x1_0000 + b[3] * 0x100_0000 + b[4] * 0x1_0000_0000
        + b[5] * 0x100_0000_0000 + b[6] * 0x1_0000_0000_0000
        + b[7] * 0x100_0000_0000_0000) as u64
}

/// Reading back the little-endian bytes of a 16-bit value yields the value.
pub proof fn lemma_u16_le_roundtrip(v: u16)
    ensures
        u16_from_le(u16_le(v)[0], u16_le(v)[1]) == v,
{
}

/// Reading back the big-endian bytes of a 16-bit value yields the value.
pub proof fn lemma_u16_be_roundtrip(v: u16)
    ensures
        u16_from_be(u16_be(v)[0], u16_be(v)[1]) == v,
{
}

/// Reading back the little-endian bytes of a 64-bit value yields the value.
pub proof fn lemma_u64_le_roundtrip(v: u64)
    ensures
        u64_from_le(u64_le(v)) == v,
{
    let b = u64_le(v);
    assert(v == v % 0x100 + (v / 0x100) * 0x100) by (nonlinear_arith);
    assert((v / 0x100) % 0x100 * 0x100 + v / 0x1_0000 * 0x1_0000 == v / 0x100 * 0x100)
        by (nonlinear_arith);
    assert((v / 0x1_0000) % 0x100 * 0x1_0000 + v / 0x100_0000 * 0x100_0000
        == v / 0x1_0000 * 0x1_0000) by (nonlinear_arith);
    assert((v / 0x100_0000) % 0x100 * 0x100_0000 + v / 0x1_0000_0000 * 0x1_0000_0000
        == v / 0x100_0000 * 0x100_0000) by (nonlinear_arith);
    assert((v / 0x1_0000_0000) % 0x100 * 0x1_0000_0000
        + v / 0x100_0000_0000 * 0x100_0000_0000 == v / 0x1_0000_0000 * 0x1_0000_0000)
        by (nonlinear_arith);
    assert((v / 0x100_0000_0000) % 0x100 * 0x100_0000_0000
        + v / 0x1_0000_0000_0000 * 0x1_0000_0000_0000
        == v / 0x100_0000_0000 * 0x100_0000_0000) by (nonlinear_arith);
    assert((v / 0x1_0000_0000_0000) % 0x100 * 0x1_0000_0000_0000
        + v / 0x100_0000_0000_0000 * 0x100_0000_0000_0000
        == v / 0x1_0000_0000_0000 * 0x1_0000_0000_0000) by (nonlinear_arith);
    assert((v / 0x100_0000_0000_0000) % 0x100 * 0x100_0000_0000_0000
        == v / 0x100_0000_0000_0000 * 0x100_0000_0000_0000) by (nonlinear_arith);
}

/// Append the little-endian bytes of a 16-bit value.
pub fn push_u16_le(buf: &mut Vec<u8>, v: u16)
    ensures
        final(buf)@ == old(buf)@ + u16_le(v),
{
    buf.push((v % 256) as u8);
    buf.push((v / 256) as u8);
    assert(final(buf)@ =~= old(buf)@ + u16_le(v));
}

/// Append the big-endian bytes of a 16-bit value.
pub fn push_u16_be(buf: &mut Vec<u8>, v: u16)
    ensures
        final(buf)@ == old(buf)@ + u16_be(v),
{
    buf.push((v / 256) as u8);
    buf.push((v % 256) as u8);
    assert(final(buf)@ =~= old(buf)@ + u16_be(v));
}

/// Append the little-endian bytes of a 64-bit value.
pub fn push_u64_le(buf: &mut Vec<u8>, v: u64)
    ensures
        final(buf)@ == old(buf)@ + u64_le(v),
{
    buf.push((v % 256) as u8);
    buf.push(((v / 0x100) % 256) as u8);
    buf.push(((v / 0x1_0000) % 256) as u8);
    buf.push(((v / 0x100_0000) % 256) as u8);
    buf.push(((v / 0x1_0000_0000) % 256) as u8);
    buf.push(((v / 0x100_0000_0000) % 256) as u8);
    buf.push(((v / 0x1_0000_0000_0000) % 256) as u8);
    buf.push(((v / 0x100_0000_0000_0000) % 256) as u8);
    assert(final(buf)@ =~= old(buf)@ + u64_le(v));
}

/// Read a 16-bit value from two little-endian bytes.
pub fn read_u16_le(buf: &Vec<u8>, off: usize) -> (r: u16)
    requires
        off + 2 <= buf@.len(),
    ensures
        r == u16_from_le(buf@[off as int], buf@[off + 1]),
{
    let n = buf.len();
    assert(off + 2 <= n);
    let b0 = buf[off];
    let b1 = buf[off + 1];
    b0 as u16 + b1 as u16 * 256
}

/// Read a 16-bit value from two big-endian bytes.
pub fn read_u16_be(buf: &Vec<u8>, off: usize) -> (r: u16)
    requires
        off + 2 <= buf@.len(),
    ensures
        r == u16_from_be(buf@[off as int], buf@[off + 1]),
{
    let n = buf.len();
    assert(off + 2 <= n);
    let b0 = buf[off];
    let b1 = buf[off + 1];
    b0 as u16 * 256 + b1 as u16
}

/// Read a 64-bit value from eight little-endian bytes.
pub fn read_u64_le(buf: &Vec<u8>, off: usize) -> (r: u64)
    requires
        off + 8 <= buf@.len(),
    ensures
        r == u64_from_le(buf@.subrange(off as int, off + 8)),
{
    let n = buf.len();
    assert(off + 8 <= n);
    let r = buf[off] as u64 + buf[off + 1] as u64 * 0x100 + buf[off + 2] as u64 * 0x1_0000
        + buf[off + 3] as u64 * 0x100_0000 + buf[off + 4] as u64 * 0x1_0000_0000
        + buf[off + 5] as u64 * 0x100_0000_0000 + buf[off + 6] as u64 * 0x1_0000_0000_0000
        + buf[off + 7] as u64 * 0x100_0000_0000_0000;
    proof {
        let s = buf@.subrange(off as int, off + 8);
        assert(s[0] == buf@[off as int]);
        assert(s[1] == buf@[off + 1]);
        assert(s[2] == buf@[off + 2]);
        assert(s[3] == buf@[off + 3]);
        assert(s[4] == buf@[off + 4]);
        assert(s[5] == buf@[off + 5]);
        assert(s[6] == buf@[off + 6]);
        assert(s[7] == buf@[off + 7]);
    }
    r
}


/// Compute two to the power `n` for small `n`.
pub fn pow2_u32(n: usize) -> (r: u32)
    requires
        n <= 31,
    ensures
        r == pow2(n as nat),
{
    let mut m: u32 = 1;
    let mut i: usize = 0;
    proof {
        lemma2_to64();
    }
    while i < n
        invariant
            i <= n <= 31,
            m == pow2(i as nat),
        decreases n - i,
    {
        proof {
            lemma_pow2_unfold((i + 1) as nat);
            lemma_pow2_strictly_increases((i + 1) as nat, 32);
            lemma2_to64();
        }
        m = m * 2;
        i += 1;
    }
    m
}


/// Saturating 64-bit addition, as a value.
pub open spec fn sat_add(a: u64, b: u64) -> u64 {
    if a + b <= u64::MAX {
        (a + b) as u64
    } else {
        u64::MAX
    }
}

/// Compute a saturating 64-bit addition.
pub fn saturating_add(a: u64, b: u64) -> (r: u64)
    ensures
        r == sat_add(a, b),
{
    if a <= u64::MAX - b {
        a + b
    } else {
        u64::MAX
    }
}

} // verus!
