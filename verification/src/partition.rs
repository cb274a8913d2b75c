//! FAT32 partition geometry and cluster-chain traversal.
//!
//! `Partition::read` parses and validates the BIOS parameter block at the
//! partition's first sector and derives the cluster geometry. The spec-side
//! model of a mounted partition is a handful of pure functions over the
//! disk model (`Map<int, Seq<u8>>`, sector index to bytes): where a cluster
//! starts, what the FAT says follows a cluster, and which byte of the disk
//! backs a given byte position of a file.

use vstd::prelude::*;

use vstd::arithmetic::div_mod::lemma_fundamental_div_mod;
use vstd::arithmetic::power2::{lemma2_to64, pow2};
use vstd::bits::{lemma_u32_shl_is_mul, lemma_u32_shr_is_div};

use crate::bytes::{le16_at, le32_at, spec_le16, spec_le32};
use crate::device::{SectorRead, FS_BUFFER};
use crate::errors::FatError;
use crate::mbr::PartitionInfo;

verus! {

/// The spec-side picture of a block device: sector index to sector bytes.
pub type DiskModel = Map<int, Seq<u8>>;

/// FAT32 requires at least this many data clusters.
pub const MIN_CLUSTER_COUNT: u32 = 65525;

/// The largest data-cluster count a FAT32 volume can carry; beyond it the
/// cluster numbers would collide with the reserved end-of-chain markers.
pub const MAX_CLUSTER_COUNT: u32 = 0x0FFF_FFF4;

/// Geometry of a mounted FAT32 partition.
#[derive(Clone, Copy, Debug)]
pub struct Partition {
    pub alloc_search_start: u32,
    pub cluster_sector_mask: u8,
    pub data_cluster_count: u32,
    pub data_start_sector: u32,
    pub fat_start_sector: u32,
    pub free_cluster_count: Option<u32>,
    pub log2_sectors_per_cluster: u8,
    pub sectors_per_cluster: u8,
    pub sectors_per_fat: u32,
    pub volume_label: [u8; 11],
}

/// True iff `spc` is one of the cluster sizes FAT32 allows.
pub open spec fn spec_is_pow2_spc(spc: u8) -> bool {
    spc == 1 || spc == 2 || spc == 4 || spc == 8 || spc == 16 || spc == 32 || spc == 64 || spc
        == 128
}

/// The exponent of a power-of-two cluster size.
pub open spec fn spec_log2_spc(spc: u8) -> u8 {
    if spc == 1 {
        0
    } else if spc == 2 {
        1
    } else if spc == 4 {
        2
    } else if spc == 8 {
        3
    } else if spc == 16 {
        4
    } else if spc == 32 {
        5
    } else if spc == 64 {
        6
    } else {
        7
    }
}

// BIOS parameter block fields, read from the partition's first sector.
pub open spec fn spec_bpb_bytes_per_sector(s: Seq<u8>) -> u16 {
    spec_le16(s[11], s[12])
}

pub open spec fn spec_bpb_sectors_per_cluster(s: Seq<u8>) -> u8 {
    s[13]
}

pub open spec fn spec_bpb_reserved_sectors(s: Seq<u8>) -> u16 {
    spec_le16(s[14], s[15])
}

pub open spec fn spec_bpb_fat_count(s: Seq<u8>) -> u8 {
    s[16]
}

pub open spec fn spec_bpb_total_sectors_32(s: Seq<u8>) -> u32 {
    spec_le32(s[32], s[33], s[34], s[35])
}

pub open spec fn spec_bpb_sectors_per_fat_32(s: Seq<u8>) -> u32 {
    spec_le32(s[36], s[37], s[38], s[39])
}

/// Sectors in front of the data area: the reserved region and two FATs.
pub open spec fn spec_bpb_used_sectors(s: Seq<u8>) -> int {
    spec_bpb_reserved_sectors(s) + 2 * spec_bpb_sectors_per_fat_32(s)
}

/// Structural validity of a boot sector for this library: two FATs,
/// 512-byte sectors, a power-of-two cluster size, and geometry arithmetic
/// that stays within 32 bits.
pub open spec fn spec_geometry_valid(s: Seq<u8>, start: u32) -> bool {
    &&& spec_bpb_fat_count(s) == 2
    &&& spec_bpb_bytes_per_sector(s) == 512
    &&& spec_is_pow2_spc(spec_bpb_sectors_per_cluster(s))
    &&& start + spec_bpb_used_sectors(s) <= u32::MAX
    &&& spec_bpb_total_sectors_32(s) >= spec_bpb_used_sectors(s)
    &&& start + spec_bpb_total_sectors_32(s) <= u32::MAX
}

/// The derived data-cluster count.
pub open spec fn spec_geometry_count(s: Seq<u8>, start: u32) -> u32 {
    (((spec_bpb_total_sectors_32(s) - spec_bpb_used_sectors(s)) as u32) >> (spec_log2_spc(
        spec_bpb_sectors_per_cluster(s),
    ) as u32))
}

impl Partition {
    /// Internal consistency of the derived geometry. Everything the cluster
    /// arithmetic relies on is recorded here: the cluster size is the
    /// stored power of two, the mask matches, the cluster count is in the
    /// FAT32 range, and the whole data area fits in 32-bit sector numbers.
    pub open spec fn wf(&self) -> bool {
        &&& self.log2_sectors_per_cluster <= 7
        &&& self.sectors_per_cluster == (1u8 << self.log2_sectors_per_cluster)
        &&& self.sectors_per_cluster > 0
        &&& self.cluster_sector_mask == self.sectors_per_cluster - 1
        &&& MIN_CLUSTER_COUNT <= self.data_cluster_count <= MAX_CLUSTER_COUNT
        &&& self.data_start_sector + (self.data_cluster_count as int) * (
        self.sectors_per_cluster as int) <= u32::MAX
    }

    /// The highest addressable cluster number.
    pub open spec fn spec_last_cluster(&self) -> u32 {
        (self.data_cluster_count + 1) as u32
    }

    #[verifier::when_used_as_spec(spec_last_cluster)]
    pub fn last_cluster(&self) -> (r: u32)
        requires
            self.wf(),
        ensures
            r == self.spec_last_cluster(),
    {
        self.data_cluster_count + 1
    }

    /// Log2 of the cluster size in bytes; sectors hold 512 bytes.
    pub open spec fn spec_log2_bytes_per_cluster(&self) -> u8 {
        (self.log2_sectors_per_cluster + 9) as u8
    }

    #[verifier::when_used_as_spec(spec_log2_bytes_per_cluster)]
    pub fn log2_bytes_per_cluster(&self) -> (r: u8)
        requires
            self.wf(),
        ensures
            r == self.spec_log2_bytes_per_cluster(),
    {
        self.log2_sectors_per_cluster + 9
    }

    /// First sector of a cluster; clusters 0 and 1 are reserved, so the
    /// data area starts at cluster 2.
    pub open spec fn spec_cluster_start_sector(&self, cluster: u32) -> int {
        self.data_start_sector + (cluster - 2) * (self.sectors_per_cluster as int)
    }

    pub fn cluster_start_sector(&self, cluster: u32) -> (r: u32)
        requires
            self.wf(),
            2 <= cluster <= self.spec_last_cluster(),
        ensures
            r == self.spec_cluster_start_sector(cluster),
            r + self.sectors_per_cluster - 1 <= u32::MAX,
    {
        proof {
            self.lemma_pow2_facts();
            assert(((cluster - 2) as int) * (self.sectors_per_cluster as int) + (
            self.sectors_per_cluster as int) <= (self.data_cluster_count as int) * (
            self.sectors_per_cluster as int)) by (nonlinear_arith)
                requires
                    cluster - 2 + 1 <= self.data_cluster_count,
                    self.sectors_per_cluster > 0,
            ;
            lemma_u32_shl_is_mul((cluster - 2) as u32, self.log2_sectors_per_cluster as u32);
        }
        self.data_start_sector + ((cluster - 2) << (self.log2_sectors_per_cluster as u32))
    }

    /// Which sector of its cluster the byte position `pos` falls in.
    pub open spec fn spec_sector_of_cluster(&self, pos: u32) -> u32 {
        (pos >> 9) & (self.cluster_sector_mask as u32)
    }

    #[verifier::when_used_as_spec(spec_sector_of_cluster)]
    pub fn sector_of_cluster(&self, pos: u32) -> (r: u32)
        ensures
            r == self.spec_sector_of_cluster(pos),
            r <= self.cluster_sector_mask,
    {
        proof {
            let m = self.cluster_sector_mask as u32;
            let p = pos;
            assert((p >> 9) & m <= m) by (bit_vector);
        }
        (pos >> 9) & (self.cluster_sector_mask as u32)
    }

    /// Useful powers of two for a well-formed partition.
    pub proof fn lemma_pow2_facts(&self)
        requires
            self.log2_sectors_per_cluster <= 7,
            self.sectors_per_cluster == (1u8 << self.log2_sectors_per_cluster),
        ensures
            pow2(self.log2_sectors_per_cluster as nat) == self.sectors_per_cluster,
            pow2((self.log2_sectors_per_cluster + 9) as nat) == 512 * (
            self.sectors_per_cluster as int),
    {
        lemma2_to64();
        let l2 = self.log2_sectors_per_cluster;
        assert((l2 == 0 ==> (1u8 << l2) == 1) && (l2 == 1 ==> (1u8 << l2) == 2) && (l2 == 2 ==> (
        1u8 << l2) == 4) && (l2 == 3 ==> (1u8 << l2) == 8) && (l2 == 4 ==> (1u8 << l2) == 16) && (
        l2 == 5 ==> (1u8 << l2) == 32) && (l2 == 6 ==> (1u8 << l2) == 64) && (l2 == 7 ==> (1u8
            << l2) == 128)) by (bit_vector);
    }

    /// The FAT sector that holds the entry for `cluster`; each 512-byte
    /// FAT sector carries 128 32-bit entries.
    pub open spec fn spec_fat_sector(&self, cluster: u32) -> int {
        self.fat_start_sector + (cluster >> 7)
    }

    /// Byte offset of the entry for `cluster` within its FAT sector.
    pub open spec fn spec_fat_offset(cluster: u32) -> int {
        4 * ((cluster & 0x7f) as int)
    }

    /// What the FAT records after `cluster`: the low 28 bits of the
    /// little-endian entry. Values outside `[2, last_cluster]` are chain
    /// terminators; callers check before following.
    pub open spec fn spec_fat_next(&self, m: DiskModel, cluster: u32) -> u32 {
        let s = m[self.spec_fat_sector(cluster)];
        let off = Self::spec_fat_offset(cluster);
        spec_le32(s[off], s[off + 1], s[off + 2], s[off + 3]) & 0x0fff_ffff
    }

    /// The cluster reached from `start` after `k` steps through the FAT.
    pub open spec fn spec_chain(&self, m: DiskModel, start: u32, k: nat) -> u32
        decreases k,
    {
        if k == 0 {
            start
        } else {
            self.spec_fat_next(m, self.spec_chain(m, start, (k - 1) as nat))
        }
    }

    /// Walking `a + b` steps is walking `a`, then `b` more.
    pub proof fn lemma_chain_add(&self, m: DiskModel, start: u32, a: nat, b: nat)
        ensures
            self.spec_chain(m, start, a + b) == self.spec_chain(
                m,
                self.spec_chain(m, start, a),
                b,
            ),
        decreases b,
    {
        if b > 0 {
            self.lemma_chain_add(m, start, a, (b - 1) as nat);
        }
    }

    /// Follows the FAT to the cluster after `cluster`.
    ///
    /// Returns `InvalidCluster` when `cluster` is outside the addressable
    /// range, `CorruptFat` when the FAT sector address overflows, and the
    /// device's error when the read fails; otherwise the low 28 bits of
    /// the FAT entry, which the caller must range-check before following.
    pub fn fat_get_next_cluster<D: SectorRead>(&self, dev: &mut D, cluster: u32) -> (r: Result<
        u32,
        FatError,
    >)
        requires
            self.wf(),
        ensures
            final(dev).model() == old(dev).model(),
            (r matches Ok(c) ==> {
                &&& 2 <= cluster <= self.spec_last_cluster()
                &&& old(dev).model().dom().contains(self.spec_fat_sector(cluster))
                &&& c == self.spec_fat_next(old(dev).model(), cluster)
            }),
            r == Err::<u32, FatError>(FatError::InvalidCluster) <==> (cluster < 2 || cluster
                > self.spec_last_cluster()),
            r == Err::<u32, FatError>(FatError::CorruptFat) <==> (2 <= cluster
                <= self.spec_last_cluster() && self.fat_start_sector + (cluster >> 7) > u32::MAX),
            (r matches Err(e) ==> e == FatError::InvalidCluster || e == FatError::CorruptFat || e
                == FatError::BlockDeviceFailed),
    {
        if cluster < 2 || cluster > self.last_cluster() {
            return Err(FatError::InvalidCluster);
        }
        let fat_sector = match self.fat_start_sector.checked_add(cluster >> 7) {
            Some(s) => s,
            None => {
                return Err(FatError::CorruptFat);
            },
        };
        let sector = match dev.read_sector(FS_BUFFER, fat_sector) {
            Ok(s) => s,
            Err(_) => {
                return Err(FatError::BlockDeviceFailed);
            },
        };
        proof {
            let c = cluster;
            assert((c & 0x7f) <= 127) by (bit_vector);
        }
        let idx: usize = ((cluster & 0x7f) as usize) * 4;
        let raw = le32_at(sector.as_slice(), idx);
        proof {
            let v = raw;
            assert(v & 0x0fff_ffff == (v & 0x0fff_ffff)) by (bit_vector);
        }
        Ok(raw & 0x0fff_ffff)
    }

    /// Reads the boot sector at `partition_info.start_sector`, validates
    /// the BIOS parameter block, and derives the cluster geometry.
    ///
    /// `CorruptPartition` reports a structurally invalid BPB;
    /// `UnsupportedVersion` reports a cluster count outside the FAT32
    /// range.
    #[verifier::loop_isolation(false)]
    pub fn read<D: SectorRead>(dev: &mut D, partition_info: &PartitionInfo) -> (r: Result<
        Partition,
        FatError,
    >)
        ensures
            final(dev).model() == old(dev).model(),
            (r matches Ok(p) ==> {
                let m = old(dev).model();
                let s = m[partition_info.start_sector as int];
                &&& m.dom().contains(partition_info.start_sector as int)
                &&& spec_geometry_valid(s, partition_info.start_sector)
                &&& p.wf()
                &&& p.sectors_per_cluster == spec_bpb_sectors_per_cluster(s)
                &&& p.log2_sectors_per_cluster == spec_log2_spc(spec_bpb_sectors_per_cluster(s))
                &&& p.sectors_per_fat == spec_bpb_sectors_per_fat_32(s)
                &&& p.fat_start_sector == partition_info.start_sector + spec_bpb_reserved_sectors(
                    s,
                )
                &&& p.data_start_sector == p.fat_start_sector + 2 * p.sectors_per_fat
                &&& p.data_cluster_count == spec_geometry_count(s, partition_info.start_sector)
                &&& MIN_CLUSTER_COUNT <= p.data_cluster_count <= MAX_CLUSTER_COUNT
                &&& p.volume_label@ == s.subrange(71, 82)
                &&& p.alloc_search_start == 1
                &&& p.free_cluster_count is None
            }),
            (r == Err::<Partition, FatError>(FatError::CorruptPartition) ==> {
                let m = old(dev).model();
                &&& m.dom().contains(partition_info.start_sector as int)
                &&& !spec_geometry_valid(m[partition_info.start_sector as int], partition_info.start_sector)
            }),
            (r == Err::<Partition, FatError>(FatError::UnsupportedVersion) ==> {
                let m = old(dev).model();
                let s = m[partition_info.start_sector as int];
                &&& m.dom().contains(partition_info.start_sector as int)
                &&& spec_geometry_valid(s, partition_info.start_sector)
                &&& !(MIN_CLUSTER_COUNT <= spec_geometry_count(s, partition_info.start_sector)
                    <= MAX_CLUSTER_COUNT)
            }),
            (r matches Err(e) ==> e == FatError::CorruptPartition || e
                == FatError::UnsupportedVersion || e == FatError::BlockDeviceFailed),
    {
        let start = partition_info.start_sector;
        let sector = match dev.read_sector(FS_BUFFER, start) {
            Ok(s) => s,
            Err(_) => {
                return Err(FatError::BlockDeviceFailed);
            },
        };
        let s = sector.as_slice();
        let bytes_per_sector = le16_at(s, 11);
        let sectors_per_cluster = s[13];
        let reserved_sectors = le16_at(s, 14);
        let fat_count = s[16];
        let total_sectors_32 = le32_at(s, 32);
        let sectors_per_fat = le32_at(s, 36);

        if fat_count != 2 || bytes_per_sector != 512 {
            return Err(FatError::CorruptPartition);
        }

        // Determine log2 of the cluster size by doubling a trial value; a
        // value that is not a power of two never matches and the trial
        // wraps to zero.
        let mut log2_sectors_per_cluster: u8 = 0;
        let mut i: u8 = 1;
        proof {
            assert((1u8 << 0) == 1) by (bit_vector);
        }
        while i != sectors_per_cluster
            invariant
                log2_sectors_per_cluster <= 8,
                log2_sectors_per_cluster <= 7 ==> i == (1u8 << log2_sectors_per_cluster),
                log2_sectors_per_cluster == 8 ==> i == 0,
                forall|j: u8|
                    j < log2_sectors_per_cluster && j <= 7 ==> sectors_per_cluster != (1u8 << j),
            decreases 8 - log2_sectors_per_cluster,
        {
            if i == 0 {
                proof {
                    // The trial visited every power of two before wrapping
                    // to zero, so the cluster size is none of them.
                    assert((1u8 << 0) == 1 && (1u8 << 1) == 2 && (1u8 << 2) == 4 && (1u8 << 3) == 8
                        && (1u8 << 4) == 16 && (1u8 << 5) == 32 && (1u8 << 6) == 64 && (1u8 << 7)
                        == 128) by (bit_vector);
                }
                return Err(FatError::CorruptPartition);
            }
            let ghost l2p = log2_sectors_per_cluster;
            let ghost ip = i;
            log2_sectors_per_cluster += 1;
            i <<= 1;
            proof {
                assert(l2p <= 7 && ip == (1u8 << l2p) ==> ((l2p + 1 <= 7 ==> (ip << 1) == (1u8 << (
                l2p + 1))) && (l2p + 1 == 8 ==> (ip << 1) == 0))) by (bit_vector);
            }
        }
        // The loop exits with the trial equal to the cluster size; a zero
        // trial means the size is zero, which is not a power of two.
        if sectors_per_cluster == 0 {
            return Err(FatError::CorruptPartition);
        }
        proof {
            let l2 = log2_sectors_per_cluster;
            let spc = sectors_per_cluster;
            assert((l2 <= 7 && spc == (1u8 << l2)) ==> ((l2 == 0 && spc == 1) || (l2 == 1 && spc
                == 2) || (l2 == 2 && spc == 4) || (l2 == 3 && spc == 8) || (l2 == 4 && spc == 16)
                || (l2 == 5 && spc == 32) || (l2 == 6 && spc == 64) || (l2 == 7 && spc == 128)))
                by (bit_vector);
        }

        let fat_start_sector = match start.checked_add(reserved_sectors as u32) {
            Some(v) => v,
            None => {
                return Err(FatError::CorruptPartition);
            },
        };
        let fat_total = match sectors_per_fat.checked_mul(2) {
            Some(v) => v,
            None => {
                return Err(FatError::CorruptPartition);
            },
        };
        let data_start_sector = match fat_start_sector.checked_add(fat_total) {
            Some(v) => v,
            None => {
                return Err(FatError::CorruptPartition);
            },
        };
        let used = reserved_sectors as u32 + fat_total;
        if total_sectors_32 < used {
            return Err(FatError::CorruptPartition);
        }
        if start.checked_add(total_sectors_32).is_none() {
            return Err(FatError::CorruptPartition);
        }
        let data_cluster_count = (total_sectors_32 - used) >> (log2_sectors_per_cluster as u32);

        if data_cluster_count < MIN_CLUSTER_COUNT || data_cluster_count > MAX_CLUSTER_COUNT {
            return Err(FatError::UnsupportedVersion);
        }

        let mut volume_label: [u8; 11] = [0u8; 11];
        let mut k: usize = 0;
        while k < 11
            invariant
                k <= 11,
                forall|j: int| 0 <= j < k ==> volume_label@[j] == sector@[71 + j],
            decreases 11 - k,
        {
            volume_label[k] = sector[71 + k];
            k += 1;
        }
        proof {
            assert(volume_label@ =~= old(dev).model()[start as int].subrange(71, 82));
        }

        let p = Partition {
            alloc_search_start: 1,
            cluster_sector_mask: sectors_per_cluster - 1,
            data_cluster_count,
            data_start_sector,
            fat_start_sector,
            free_cluster_count: None,
            log2_sectors_per_cluster,
            sectors_per_cluster,
            sectors_per_fat,
            volume_label,
        };
        proof {
            // The data area fits in 32-bit sector numbers: the cluster
            // count was divided out of the sector budget that was checked
            // against u32::MAX.
            p.lemma_pow2_facts();
            let x = (total_sectors_32 - used) as int;
            let d = pow2(log2_sectors_per_cluster as nat) as int;
            lemma_u32_shr_is_div((total_sectors_32 - used) as u32, log2_sectors_per_cluster as u32);
            lemma_fundamental_div_mod(x, d);
            vstd::arithmetic::div_mod::lemma_mod_bound(x, d);
            assert(d == p.sectors_per_cluster as int);
            assert(p.data_cluster_count as int == x / d);
            assert(x == d * (x / d) + x % d);
            assert((p.data_cluster_count as int) * (p.sectors_per_cluster as int) == d * (x / d))
                by (nonlinear_arith)
                requires
                    p.data_cluster_count as int == x / d,
                    d == p.sectors_per_cluster as int,
            ;
        }
        Ok(p)
    }
}

} // verus!
