//! Little-endian integer extraction from raw sector bytes, and a nibble
//! formatter. FAT32 stores every multi-byte field little-endian.

use vstd::prelude::*;

verus! {

/// The 16-bit value stored little-endian as the byte pair `(lo, hi)`.
pub open spec fn spec_le16(lo: u8, hi: u8) -> u16 {
    (lo as u16) | ((hi as u16) << 8)
}

/// The 32-bit value stored little-endian as four bytes, lowest first.
pub open spec fn spec_le32(b0: u8, b1: u8, b2: u8, b3: u8) -> u32 {
    (b0 as u32) | ((b1 as u32) << 8) | ((b2 as u32) << 16) | ((b3 as u32) << 24)
}

/// Reads the little-endian u16 at offset `i` of `b`.
pub fn le16_at(b: &[u8], i: usize) -> (r: u16)
    requires
        i + 2 <= b@.len(),
    ensures
        r == spec_le16(b@[i as int], b@[i + 1]),
{
    (b[i] as u16) | ((b[i + 1] as u16) << 8)
}

/// Reads the little-endian u32 at offset `i` of `b`.
pub fn le32_at(b: &[u8], i: usize) -> (r: u32)
    requires
        i + 4 <= b@.len(),
    ensures
        r == spec_le32(b@[i as int], b@[i + 1], b@[i + 2], b@[i + 3]),
{
    (b[i] as u32) | ((b[i + 1] as u32) << 8) | ((b[i + 2] as u32) << 16) | ((b[i + 3] as u32)
        << 24)
}

/// The ASCII hex digit for the low nibble of `n`: `0..=9` map to `'0'..='9'`
/// and `10..=15` map to `'a'..='f'`.
pub open spec fn spec_hex_digit(n: u8) -> u8 {
    if n & 0xf <= 9 {
        ((n & 0xf) + 48) as u8
    } else {
        ((n & 0xf) + 87) as u8
    }
}

/// Formats the low nibble of `n` as an ASCII hex digit.
pub fn hexfmt_u8(n: u8) -> (r: u8)
    ensures
        r == spec_hex_digit(n),
{
    proof {
        assert(n & 0xf <= 15) by (bit_vector);
    }
    let v = n & 0xf;
    if v <= 9 {
        v + 48
    } else {
        v + 87
    }
}

} // verus!
