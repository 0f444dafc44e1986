//! Big-endian integer encodings shared by the wire formats.
use vstd::prelude::*;

verus! {

/// The two big-endian bytes of a 16-bit value.
pub open spec fn be16_bytes(v: u16) -> Seq<u8> {
    seq![(v / 256) as u8, (v % 256) as u8]
}

/// The four big-endian bytes of a 32-bit value.
pub open spec fn be32_bytes(v: u32) -> Seq<u8> {
    seq![
        (v / 0x100_0000) as u8,
        (v / 0x1_0000 % 256) as u8,
        (v / 256 % 256) as u8,
        (v % 256) as u8,
    ]
}

/// The eight big-endian bytes of a 64-bit value.
pub open spec fn be64_bytes(v: u64) -> Seq<u8> {
    be32_bytes((v / 0x1_0000_0000) as u32) + be32_bytes((v % 0x1_0000_0000) as u32)
}

/// The 16-bit value whose big-endian bytes are `b0 b1`.
pub open spec fn be16_value(b0: u8, b1: u8) -> int {
    b0 * 256 + b1
}

/// The 32-bit value whose big-endian bytes are `b0 b1 b2 b3`.
pub open spec fn be32_value(b0: u8, b1: u8, b2: u8, b3: u8) -> int {
    b0 * 0x100_0000 + b1 * 0x1_0000 + b2 * 256 + b3
}

/// The two's-complement bit pattern of a signed 16-bit value.
pub open spec fn i16_pattern(v: i16) -> u16 {
    if v < 0 { (v + 0x1_0000) as u16 } else { v as u16 }
}

/// The signed 16-bit value with the given two's-complement bit pattern.
pub open spec fn i16_from_pattern(u: int) -> int {
    if u >= 0x8000 { u - 0x1_0000 } else { u }
}

pub proof fn lemma_be16_roundtrip(v: u16)
    ensures
        be16_value(be16_bytes(v)[0], be16_bytes(v)[1]) == v,
{
}

pub proof fn lemma_be32_roundtrip(v: u32)
    ensures
        be32_value(be32_bytes(v)[0], be32_bytes(v)[1], be32_bytes(v)[2], be32_bytes(v)[3]) == v,
{
    let a = v / 0x100_0000;
    let r1 = v % 0x100_0000;
    let b = r1 / 0x1_0000;
    let r2 = r1 % 0x1_0000;
    let c = r2 / 256;
    let d = r2 % 256;
    assert(v / 0x1_0000 % 256 == b) by (nonlinear_arith)
        requires a == v / 0x100_0000, r1 == v % 0x100_0000, b == r1 / 0x1_0000, 0 <= v;
    assert(v / 256 % 256 == c) by (nonlinear_arith)
        requires r1 == v % 0x100_0000, r2 == r1 % 0x1_0000, c == r2 / 256, 0 <= v;
    assert(v % 256 == d) by (nonlinear_arith)
        requires r1 == v % 0x100_0000, r2 == r1 % 0x1_0000, d == r2 % 256, 0 <= v;
}

pub proof fn lemma_be64_split(v: u64)
    ensures
        (v / 0x1_0000_0000) * 0x1_0000_0000 + v % 0x1_0000_0000 == v,
        v / 0x1_0000_0000 <= u32::MAX,
{
}

/// Big-endian bytes of a 16-bit value.
pub fn u16_to_be(v: u16) -> (r: (u8, u8))
    ensures
        seq![r.0, r.1] == be16_bytes(v),
{
    ((v / 256) as u8, (v % 256) as u8)
}

/// Big-endian bytes of a 32-bit value.
pub fn u32_to_be(v: u32) -> (r: [u8; 4])
    ensures
        r@ == be32_bytes(v),
{
    let r = [(v / 0x100_0000) as u8, (v / 0x1_0000 % 256) as u8, (v / 256 % 256) as u8, (v % 256) as u8];
    assert(r@ =~= be32_bytes(v));
    r
}

/// Big-endian bytes of a 64-bit value.
pub fn u64_to_be(v: u64) -> (r: Vec<u8>)
    ensures
        r@ == be64_bytes(v),
{
    proof { lemma_be64_split(v); }
    let hi = u32_to_be((v / 0x1_0000_0000) as u32);
    let lo = u32_to_be((v % 0x1_0000_0000) as u32);
    let r = vec![hi[0], hi[1], hi[2], hi[3], lo[0], lo[1], lo[2], lo[3]];
    assert(r@ =~= be64_bytes(v));
    r
}

/// The 16-bit value encoded big-endian in `b0 b1`.
pub fn u16_from_be(b0: u8, b1: u8) -> (r: u16)
    ensures
        r == be16_value(b0, b1),
{
    (b0 as u16) * 256 + (b1 as u16)
}

/// The 32-bit value encoded big-endian in `b0 b1 b2 b3`.
pub fn u32_from_be(b0: u8, b1: u8, b2: u8, b3: u8) -> (r: u32)
    ensures
        r == be32_value(b0, b1, b2, b3),
{
    (b0 as u32) * 0x100_0000 + (b1 as u32) * 0x1_0000 + (b2 as u32) * 256 + (b3 as u32)
}

/// The 64-bit value encoded big-endian in `s[0..8]`.
pub fn u64_from_be(s: &[u8]) -> (r: u64)
    requires
        s@.len() >= 8,
    ensures
        r == be32_value(s@[0], s@[1], s@[2], s@[3]) * 0x1_0000_0000 + be32_value(s@[4], s@[5], s@[6], s@[7]),
{
    let hi = u32_from_be(s[0], s[1], s[2], s[3]);
    let lo = u32_from_be(s[4], s[5], s[6], s[7]);
    assert((hi as int) * 0x1_0000_0000 + lo <= u64::MAX) by (nonlinear_arith)
        requires hi <= u32::MAX, lo <= u32::MAX;
    (hi as u64) * 0x1_0000_0000 + (lo as u64)
}

/// Two's-complement pattern of a signed 16-bit value.
pub fn i16_to_pattern(v: i16) -> (r: u16)
    ensures
        r == i16_pattern(v),
{
    if v < 0 { (v as i32 + 0x1_0000) as u16 } else { v as u16 }
}

/// Signed 16-bit value of a two's-complement pattern.
pub fn i16_of_pattern(u: u16) -> (r: i16)
    ensures
        r == i16_from_pattern(u as int),
{
    if u >= 0x8000 { (u as i32 - 0x1_0000) as i16 } else { u as i16 }
}

pub proof fn lemma_i16_roundtrip(v: i16)
    ensures
        i16_from_pattern(i16_pattern(v) as int) == v,
{
}

}
