//! Little-endian integer encoding and decoding over byte sequences.
use vstd::prelude::*;

verus! {

/// The two bytes of `x`, least significant first.
pub open spec fn le16(x: u16) -> Seq<u8> {
    seq![(x % 256) as u8, (x / 256) as u8]
}

/// The four bytes of `x`, least significant first.
pub open spec fn le32(x: u32) -> Seq<u8> {
    seq![
        (x % 256) as u8,
        ((x / 256) % 256) as u8,
        ((x / 65536) % 256) as u8,
        (x / 16777216) as u8,
    ]
}

/// The eight bytes of `x`, least significant first.
pub open spec fn le64(x: u64) -> Seq<u8> {
    le32((x % 0x1_0000_0000) as u32) + le32((x / 0x1_0000_0000) as u32)
}

/// The `u16` stored little-endian at position `p` of `s`.
pub open spec fn get16(s: Seq<u8>, p: int) -> u16 {
    (s[p] + 256 * s[p + 1]) as u16
}

/// The `u32` stored little-endian at position `p` of `s`.
pub open spec fn get32(s: Seq<u8>, p: int) -> u32 {
    (s[p] + 256 * s[p + 1] + 65536 * s[p + 2] + 16777216 * s[p + 3]) as u32
}

/// The `u64` stored little-endian at position `p` of `s`.
pub open spec fn get64(s: Seq<u8>, p: int) -> u64 {
    (get32(s, p) + 0x1_0000_0000 * get32(s, p + 4)) as u64
}

/// Appends the little-endian bytes of `x`.
pub fn push_u16(v: &mut Vec<u8>, x: u16)
    ensures
        final(v)@ == old(v)@ + le16(x),
{
    let lo = (x & 0xff) as u8;
    let hi = (x >> 8) as u8;
    assert(lo == (x % 256) as u8 && hi == (x / 256) as u8) by (bit_vector)
        requires
            lo == (x & 0xff) as u8,
            hi == (x >> 8) as u8,
    ;
    v.push(lo);
    v.push(hi);
    assert(final(v)@ =~= old(v)@ + le16(x));
}

/// Appends the little-endian bytes of `x`.
pub fn push_u32(v: &mut Vec<u8>, x: u32)
    ensures
        final(v)@ == old(v)@ + le32(x),
{
    let b0 = (x & 0xff) as u8;
    let b1 = ((x >> 8) & 0xff) as u8;
    let b2 = ((x >> 16) & 0xff) as u8;
    let b3 = (x >> 24) as u8;
    assert(b0 == (x % 256) as u8 && b1 == ((x / 256) % 256) as u8 && b2 == ((x / 65536) % 256) as u8
        && b3 == (x / 16777216) as u8) by (bit_vector)
        requires
            b0 == (x & 0xff) as u8,
            b1 == ((x >> 8) & 0xff) as u8,
            b2 == ((x >> 16) & 0xff) as u8,
            b3 == (x >> 24) as u8,
    ;
    v.push(b0);
    v.push(b1);
    v.push(b2);
    v.push(b3);
    assert(final(v)@ =~= old(v)@ + le32(x));
}

/// Appends the little-endian bytes of `x`.
pub fn push_u64(v: &mut Vec<u8>, x: u64)
    ensures
        final(v)@ == old(v)@ + le64(x),
{
    let lo = (x & 0xffff_ffff) as u32;
    let hi = (x >> 32) as u32;
    assert(lo == (x % 0x1_0000_0000) as u32 && hi == (x / 0x1_0000_0000) as u32) by (bit_vector)
        requires
            lo == (x & 0xffff_ffff) as u32,
            hi == (x >> 32) as u32,
    ;
    push_u32(v, lo);
    push_u32(v, hi);
    assert(final(v)@ =~= old(v)@ + le64(x));
}

/// Reads the little-endian `u16` at `p`.
pub fn read_u16(s: &[u8], p: usize) -> (r: u16)
    requires
        p + 2 <= s@.len(),
    ensures
        r == get16(s@, p as int),
{
    let lo = s[p] as u16;
    let hi = s[p + 1] as u16;
    assert(lo + 256 * hi <= 0xffff) by (nonlinear_arith)
        requires
            lo < 256,
            hi < 256,
    ;
    lo + 256 * hi
}

/// Reads the little-endian `u32` at `p`.
pub fn read_u32(s: &[u8], p: usize) -> (r: u32)
    requires
        p + 4 <= s@.len(),
    ensures
        r == get32(s@, p as int),
{
    let b0 = s[p] as u32;
    let b1 = s[p + 1] as u32;
    let b2 = s[p + 2] as u32;
    let b3 = s[p + 3] as u32;
    assert(b0 + 256 * b1 + 65536 * b2 + 16777216 * b3 <= 0xffff_ffff) by (nonlinear_arith)
        requires
            b0 < 256,
            b1 < 256,
            b2 < 256,
            b3 < 256,
    ;
    b0 + 256 * b1 + 65536 * b2 + 16777216 * b3
}

/// Reads the little-endian `u64` at `p`.
pub fn read_u64(s: &[u8], p: usize) -> (r: u64)
    requires
        p + 8 <= s@.len(),
    ensures
        r == get64(s@, p as int),
{
    let n = s.len();
    assert(p + 4 <= n);
    let lo = read_u32(s, p) as u64;
    let hi = read_u32(s, p + 4) as u64;
    assert(lo + 0x1_0000_0000 * hi <= 0xffff_ffff_ffff_ffff) by (nonlinear_arith)
        requires
            lo <= 0xffff_ffff,
            hi <= 0xffff_ffff,
    ;
    lo + 0x1_0000_0000 * hi
}

} // verus!
