//! CRC7 over SD command frames. The polynomial is 0x89 (x^7 + x^3 + 1);
//! working byte-aligned the feedback constant is 0x09, and the transmitted
//! byte is the 7-bit remainder shifted left with the stop bit set.

use vstd::prelude::*;

verus! {

/// One bit step: shift the accumulator, and fold the polynomial in when
/// the incoming data bit differs from the bit shifted out.
pub open spec fn spec_crc7_bit(crc: u8, d: u8) -> u8 {
    let c = (crc << 1) as u8;
    if ((d & 0x80) ^ (c & 0x80)) != 0 {
        c ^ 0x09
    } else {
        c
    }
}

/// `k` bit steps of one byte, consuming its bits from the top.
pub open spec fn spec_crc7_bits(crc: u8, d: u8, k: nat) -> u8
    decreases k,
{
    if k == 0 {
        crc
    } else {
        spec_crc7_bits(spec_crc7_bit(crc, d), (d << 1) as u8, (k - 1) as nat)
    }
}

/// The 7-bit remainder over the first `n` bytes of `data`.
pub open spec fn spec_crc7_prefix(data: Seq<u8>, n: nat) -> u8
    decreases n,
{
    if n == 0 {
        0u8
    } else {
        spec_crc7_bits(spec_crc7_prefix(data, (n - 1) as nat), data[n - 1], 8)
    }
}

/// The CRC byte transmitted after a five-byte command prefix: the 7-bit
/// remainder shifted left with the stop bit set.
pub open spec fn spec_crc7(data: Seq<u8>) -> u8 {
    ((spec_crc7_prefix(data, data.len()) << 1) | 1) as u8
}

/// Computes the CRC byte for a five-byte command prefix.
pub fn crc7(data: &[u8; 5]) -> (r: u8)
    ensures
        r == spec_crc7(data@),
{
    let mut crc: u8 = 0;
    let mut i: usize = 0;
    while i < 5
        invariant
            i <= 5,
            crc == spec_crc7_prefix(data@, i as nat),
        decreases 5 - i,
    {
        let mut d = data[i];
        let ghost d0 = d;
        let mut j: usize = 0;
        while j < 8
            invariant
                j <= 8,
                spec_crc7_bits(spec_crc7_prefix(data@, i as nat), d0, 8) == spec_crc7_bits(
                    crc,
                    d,
                    (8 - j) as nat,
                ),
            decreases 8 - j,
        {
            let c = crc << 1;
            crc = if ((d & 0x80) ^ (c & 0x80)) != 0 {
                c ^ 0x09
            } else {
                c
            };
            d = d << 1;
            j += 1;
        }
        i += 1;
    }
    (crc << 1) | 1
}

} // verus!
