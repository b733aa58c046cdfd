//! Little-endian byte encodings of the fixed-width integers that the
//! TIFF container stores, together with the read functions used to state
//! round-trip properties.

use vstd::prelude::*;

verus! {

use vstd::arithmetic::div_mod::lemma_fundamental_div_mod;

/// The two bytes of `v` in little-endian order.
pub open spec fn le16_bytes(v: u16) -> Seq<u8> {
    seq![(v % 256) as u8, (v / 256) as u8]
}

/// The four bytes of `v` in little-endian order.
pub open spec fn le32_bytes(v: u32) -> Seq<u8> {
    seq![
        (v % 256) as u8,
        ((v / 256) % 256) as u8,
        ((v / 65536) % 256) as u8,
        (v / 16777216) as u8,
    ]
}

/// The value stored little-endian in the two bytes of `s` starting at `i`.
pub open spec fn read_le16(s: Seq<u8>, i: int) -> int
    recommends
        0 <= i,
        i + 2 <= s.len(),
{
    s[i] + 256 * s[i + 1]
}

/// The value stored little-endian in the four bytes of `s` starting at `i`.
pub open spec fn read_le32(s: Seq<u8>, i: int) -> int
    recommends
        0 <= i,
        i + 4 <= s.len(),
{
    s[i] + 256 * s[i + 1] + 65536 * s[i + 2] + 16777216 * s[i + 3]
}

/// The unsigned 32-bit pattern that stores the signed value `v` in two's
/// complement.
pub open spec fn i32_bits(v: i32) -> u32 {
    if v >= 0 {
        v as u32
    } else {
        (v + 0x1_0000_0000int) as u32
    }
}

/// Reading back the two little-endian bytes of `v` recovers `v`.
pub proof fn lemma_read_le16_bytes(v: u16)
    ensures
        read_le16(le16_bytes(v), 0) == v,
{
    lemma_fundamental_div_mod(v as int, 256);
}

/// Reading back the four little-endian bytes of `v` recovers `v`.
pub proof fn lemma_read_le32_bytes(v: u32)
    ensures
        read_le32(le32_bytes(v), 0) == v,
{
    lemma_fundamental_div_mod(v as int, 256);
    lemma_fundamental_div_mod(v as int / 256, 256);
    lemma_fundamental_div_mod(v as int / 65536, 256);
    assert(v as int / 256 / 256 == v as int / 65536) by (nonlinear_arith);
    assert(v as int / 65536 / 256 == v as int / 16777216) by (nonlinear_arith);
}

/// Appends the two bytes of `v` in little-endian order.
pub fn push_u16_le(out: &mut Vec<u8>, v: u16)
    ensures
        final(out)@ == old(out)@ + le16_bytes(v),
{
    out.push((v % 256) as u8);
    out.push((v / 256) as u8);
    proof {
        assert(out@ =~= old(out)@ + le16_bytes(v));
    }
}

/// Appends the four bytes of `v` in little-endian order.
pub fn push_u32_le(out: &mut Vec<u8>, v: u32)
    ensures
        final(out)@ == old(out)@ + le32_bytes(v),
{
    out.push((v % 256) as u8);
    out.push(((v / 256) % 256) as u8);
    out.push(((v / 65536) % 256) as u8);
    out.push((v / 16777216) as u8);
    proof {
        assert(out@ =~= old(out)@ + le32_bytes(v));
    }
}

/// The unsigned bit pattern of `v`, computed without truncating casts.
pub fn u32_bits_of_i32(v: i32) -> (r: u32)
    ensures
        r == i32_bits(v),
{
    if v >= 0 {
        v as u32
    } else {
        let wide: i64 = (v as i64) + 0x1_0000_0000i64;
        wide as u32
    }
}

} // verus!
