//! Master boot record parsing. The MBR sits at sector 0: 446 bytes of boot
//! code, four 16-byte partition records at offsets 446, 462, 478 and 494,
//! and the signature bytes `0x55 0xAA` at offsets 510 and 511.

use vstd::prelude::*;

use crate::bytes::{le32_at, spec_le32};
use crate::device::{SectorRead, FS_BUFFER};
use crate::errors::FatError;

verus! {

/// One 16-byte partition record: boot flag, begin CHS triple, partition
/// type, end CHS triple, then the LBA start sector and total sector count,
/// both little-endian.
#[derive(Clone, Copy, Debug)]
pub struct PartitionInfo {
    pub boot: u8,
    pub begin_chs: [u8; 3],
    pub ptype: u8,
    pub end_chs: [u8; 3],
    pub start_sector: u32,
    pub total_sectors: u32,
}

/// True iff `p` holds exactly the fields stored at offset `off` of the
/// sector bytes `s`.
pub open spec fn spec_part_info_matches(p: PartitionInfo, s: Seq<u8>, off: int) -> bool {
    &&& p.boot == s[off]
    &&& p.begin_chs@ == s.subrange(off + 1, off + 4)
    &&& p.ptype == s[off + 4]
    &&& p.end_chs@ == s.subrange(off + 5, off + 8)
    &&& p.start_sector == spec_le32(s[off + 8], s[off + 9], s[off + 10], s[off + 11])
    &&& p.total_sectors == spec_le32(s[off + 12], s[off + 13], s[off + 14], s[off + 15])
}

/// True iff the sector carries the MBR signature `0x55 0xAA`.
pub open spec fn spec_mbr_signature_ok(s: Seq<u8>) -> bool {
    s.len() == 512 && s[510] == 0x55 && s[511] == 0xaa
}

impl PartitionInfo {
    /// An all-zero record.
    pub fn new() -> (p: PartitionInfo)
        ensures
            p.boot == 0,
            p.ptype == 0,
            p.start_sector == 0,
            p.total_sectors == 0,
    {
        PartitionInfo {
            boot: 0,
            begin_chs: [0u8; 3],
            ptype: 0,
            end_chs: [0u8; 3],
            start_sector: 0,
            total_sectors: 0,
        }
    }

    /// Parses the 16-byte record at offset `off` of a sector.
    pub fn parse(s: &[u8], off: usize) -> (p: PartitionInfo)
        requires
            off + 16 <= s@.len(),
        ensures
            spec_part_info_matches(p, s@, off as int),
    {
        let n = s.len();
        let begin_chs: [u8; 3] = [s[off + 1], s[off + 2], s[off + 3]];
        let end_chs: [u8; 3] = [s[off + 5], s[off + 6], s[off + 7]];
        proof {
            assert(begin_chs@ =~= s@.subrange(off + 1, off + 4));
            assert(end_chs@ =~= s@.subrange(off + 5, off + 8));
        }
        PartitionInfo {
            boot: s[off],
            begin_chs,
            ptype: s[off + 4],
            end_chs,
            start_sector: le32_at(s, off + 8),
            total_sectors: le32_at(s, off + 12),
        }
    }
}

/// The whole master boot record.
pub struct Mbr {
    pub boot_code: [u8; 446],
    pub partitions: [PartitionInfo; 4],
    pub signature: [u8; 2],
}

impl Mbr {
    /// An all-zero MBR.
    pub fn new() -> (m: Mbr)
        ensures
            m.signature@ == seq![0u8, 0u8],
    {
        let m = Mbr {
            boot_code: [0u8; 446],
            partitions: [
                PartitionInfo::new(),
                PartitionInfo::new(),
                PartitionInfo::new(),
                PartitionInfo::new(),
            ],
            signature: [0u8; 2],
        };
        proof {
            assert(m.signature@ =~= seq![0u8, 0u8]);
        }
        m
    }

    /// Reads sector 0 and returns the four partition records.
    ///
    /// Fails with `CorruptMBR` when the signature bytes are wrong and with
    /// `BlockDeviceFailed` when the device read fails.
    pub fn read_part_info<D: SectorRead>(dev: &mut D) -> (r: Result<[PartitionInfo; 4], FatError>)
        ensures
            final(dev).model() == old(dev).model(),
            (r matches Ok(parts) ==> {
                &&& old(dev).model().dom().contains(0)
                &&& spec_mbr_signature_ok(old(dev).model()[0])
                &&& forall|k: int|
                    0 <= k < 4 ==> spec_part_info_matches(
                        parts@[k],
                        old(dev).model()[0],
                        446 + 16 * k,
                    )
            }),
            r == Err::<[PartitionInfo; 4], FatError>(FatError::CorruptMBR) ==> old(
                dev,
            ).model().dom().contains(0) && !spec_mbr_signature_ok(old(dev).model()[0]),
            (r matches Err(e) ==> e == FatError::CorruptMBR || e == FatError::BlockDeviceFailed),
    {
        let sector = match dev.read_sector(FS_BUFFER, 0) {
            Ok(s) => s,
            Err(_) => {
                return Err(FatError::BlockDeviceFailed);
            },
        };
        if sector[510] != 0x55 || sector[511] != 0xaa {
            return Err(FatError::CorruptMBR);
        }
        let parts: [PartitionInfo; 4] = [
            PartitionInfo::parse(sector.as_slice(), 446),
            PartitionInfo::parse(sector.as_slice(), 462),
            PartitionInfo::parse(sector.as_slice(), 478),
            PartitionInfo::parse(sector.as_slice(), 494),
        ];
        proof {
            assert forall|k: int| 0 <= k < 4 implies spec_part_info_matches(
                parts@[k],
                old(dev).model()[0],
                446 + 16 * k,
            ) by {
                assert(parts@[0] == parts@.index(0));
                if k == 0 {
                } else if k == 1 {
                } else if k == 2 {
                } else {
                }
            }
        }
        Ok(parts)
    }
}

} // verus!
