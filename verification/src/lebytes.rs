//! Little-endian field decoding at byte offsets of an in-memory source.

use vstd::prelude::*;

verus! {

/// The `u32` stored little-endian in the four bytes of `s` starting at `i`.
pub open spec fn le32_at(s: Seq<u8>, i: int) -> u32
    recommends
        0 <= i,
        i + 4 <= s.len(),
{
    (s[i] as u32) | ((s[i + 1] as u32) << 8) | ((s[i + 2] as u32) << 16) | ((s[i + 3] as u32)
        << 24)
}

/// The `u16` stored little-endian in the two bytes of `s` starting at `i`.
pub open spec fn le16_at(s: Seq<u8>, i: int) -> u16
    recommends
        0 <= i,
        i + 2 <= s.len(),
{
    (s[i] as u16) | ((s[i + 1] as u16) << 8)
}

/// The `i16` stored little-endian in the two bytes of `s` starting at `i`:
/// the two's-complement reading of the same sixteen bits.
pub open spec fn le_i16_at(s: Seq<u8>, i: int) -> i16
    recommends
        0 <= i,
        i + 2 <= s.len(),
{
    le16_at(s, i) as i16
}

/// Reads the little-endian `u32` at offset `off` of `data`.
pub fn read_u32_at(data: &Vec<u8>, off: usize) -> (r: u32)
    requires
        off + 4 <= data@.len(),
    ensures
        r == le32_at(data@, off as int),
{
    let n = data.len();
    proof {
        assert(off + 4 <= n);
    }
    let b0 = data[off];
    let b1 = data[off + 1];
    let b2 = data[off + 2];
    let b3 = data[off + 3];
    (b0 as u32) | ((b1 as u32) << 8) | ((b2 as u32) << 16) | ((b3 as u32) << 24)
}

/// Reads the little-endian `u16` at offset `off` of `data`.
pub fn read_u16_at(data: &Vec<u8>, off: usize) -> (r: u16)
    requires
        off + 2 <= data@.len(),
    ensures
        r == le16_at(data@, off as int),
{
    let n = data.len();
    proof {
        assert(off + 2 <= n);
    }
    let b0 = data[off];
    let b1 = data[off + 1];
    (b0 as u16) | ((b1 as u16) << 8)
}

/// Reads the little-endian `i16` at offset `off` of `data`.
pub fn read_i16_at(data: &Vec<u8>, off: usize) -> (r: i16)
    requires
        off + 2 <= data@.len(),
    ensures
        r == le_i16_at(data@, off as int),
{
    let v = read_u16_at(data, off);
    #[verifier::truncate] (v as i16)
}

} // verus!
