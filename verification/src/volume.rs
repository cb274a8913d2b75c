//! A mounted FAT32 volume: opening files, seeking, and reading.
//!
//! The spec-side story: a file handle couples a byte position `pos` with
//! the cluster that backs it. `spec_cursor_index` is the cluster-chain
//! index the cursor rests on (boundary positions count into the cluster
//! they end, hence the `pos - 1`); `spec_pos_index` is the chain index
//! that holds the byte at `pos`. The two differ exactly at cluster
//! boundaries, where the loader advances the cluster lazily. `spec_byte_at`
//! names the disk byte that backs byte `pos` of a file, and `read`'s
//! contract promises exactly those bytes.

use vstd::prelude::*;

use crate::device::{SectorRead, BLOCK_SIZE, DATA_BUFFER};
use crate::errors::FatError;
use crate::file::{File, O_ACCESS_MODE};
use crate::dir_entry::SFN;
use crate::mbr::PartitionInfo;
use crate::partition::{DiskModel, Partition};

verus! {

/// An open volume: derived geometry plus the caller-chosen volume id that
/// ties file handles to it.
pub struct Volume {
    pub partition: Partition,
    pub id: u8,
}

/// The chain index of the cluster that holds the byte at `pos`.
pub open spec fn spec_pos_index(p: Partition, pos: u32) -> u32 {
    pos >> ((p.log2_sectors_per_cluster + 9) as u32)
}

/// The chain index the cursor at `pos` rests on: a position exactly at a
/// cluster boundary still counts into the cluster it ends.
pub open spec fn spec_cursor_index(p: Partition, pos: u32) -> u32 {
    if pos == 0 {
        0u32
    } else {
        ((pos - 1) as u32) >> ((p.log2_sectors_per_cluster + 9) as u32)
    }
}

/// The cluster `k` steps into the file's chain. Contiguous regular files
/// advance linearly; everything else follows the FAT.
pub open spec fn spec_cluster_for_index(p: Partition, m: DiskModel, f: File, k: nat) -> int {
    if f.spec_is_file() && f.spec_is_contiguous() {
        f.start_cluster + k
    } else {
        p.spec_chain(m, f.start_cluster, k) as int
    }
}

/// The coupling invariant between a handle's position and its cluster.
pub open spec fn spec_cursor_ok(p: Partition, m: DiskModel, f: File) -> bool {
    f.cluster as int == spec_cluster_for_index(p, m, f, spec_cursor_index(p, f.pos) as nat)
}

/// The disk sector that holds byte `pos` of the file.
pub open spec fn spec_sector_for_pos(p: Partition, m: DiskModel, f: File, pos: u32) -> int {
    p.data_start_sector + (spec_cluster_for_index(p, m, f, spec_pos_index(p, pos) as nat) - 2) * (
    p.sectors_per_cluster as int) + ((pos >> 9) & (p.cluster_sector_mask as u32))
}

/// The disk byte that backs byte `pos` of the file.
pub open spec fn spec_byte_at(p: Partition, m: DiskModel, f: File, pos: u32) -> u8 {
    m[spec_sector_for_pos(p, m, f, pos)][(pos & 0x1ff) as int]
}

/// How the two chain indexes relate when moving off a position: at a
/// cluster boundary the byte at `pos` lives one cluster past the cursor,
/// anywhere else they agree.
pub proof fn lemma_pos_index(p: Partition, pos: u32)
    requires
        p.wf(),
        pos != 0,
    ensures
        (pos & 0x1ff) == 0 && ((pos >> 9) & (p.cluster_sector_mask as u32)) == 0
            ==> spec_pos_index(p, pos) == spec_cursor_index(p, pos) + 1,
        !((pos & 0x1ff) == 0 && ((pos >> 9) & (p.cluster_sector_mask as u32)) == 0)
            ==> spec_pos_index(p, pos) == spec_cursor_index(p, pos),
{
    let l2 = p.log2_sectors_per_cluster;
    let msk8 = p.cluster_sector_mask;
    assert(l2 <= 7 && msk8 == (1u8 << l2) - 1 ==> (msk8 as u32) == (1u32 << (l2 as u32)) - 1)
        by (bit_vector);
    let msk = p.cluster_sector_mask as u32;
    let l2u = l2 as u32;
    let sh = (l2 + 9) as u32;
    let pm1 = (pos - 1) as u32;
    assert((pos != 0 && pm1 == pos - 1 && l2u <= 7 && sh == l2u + 9 && msk == (1u32 << l2u) - 1)
        ==> ((((pos & 0x1ff) == 0 && ((pos >> 9) & msk) == 0) ==> pos >> sh == (pm1 >> sh) + 1) && (
    !((pos & 0x1ff) == 0 && ((pos >> 9) & msk) == 0) ==> pos >> sh == pm1 >> sh)))
        by (bit_vector);
}

/// Positions in the same sector share their sector, their chain index,
/// and advance their in-sector offset linearly.
pub proof fn lemma_same_sector(pos: u32, pj: u32, j: u32, sh: u32)
    requires
        9 <= sh <= 16,
        pj == pos + j,
        (pos & 0x1ff) + j < 512,
    ensures
        pj >> 9 == pos >> 9,
        pj & 0x1ff == (pos & 0x1ff) + j,
        pj >> sh == pos >> sh,
{
    assert((pj == pos + j && (pos & 0x1ff) + j < 512 && 9 <= sh <= 16) ==> (pj >> 9 == pos >> 9
        && pj & 0x1ff == (pos & 0x1ff) + j && pj >> sh == pos >> sh)) by (bit_vector);
}

impl Volume {
    /// Mounts the partition described by `part_info` and tags the volume
    /// with `part_id`.
    pub fn open_volume<D: SectorRead>(
        dev: &mut D,
        part_id: u8,
        part_info: &PartitionInfo,
    ) -> (r: Result<Volume, FatError>)
        ensures
            final(dev).model() == old(dev).model(),
            (r matches Ok(v) ==> {
                let m = old(dev).model();
                let s = m[part_info.start_sector as int];
                &&& v.id == part_id
                &&& v.partition.wf()
                &&& m.dom().contains(part_info.start_sector as int)
                &&& crate::partition::spec_geometry_valid(s, part_info.start_sector)
                &&& v.partition.sectors_per_cluster == crate::partition::spec_bpb_sectors_per_cluster(s)
                &&& v.partition.log2_sectors_per_cluster == crate::partition::spec_log2_spc(
                    crate::partition::spec_bpb_sectors_per_cluster(s),
                )
                &&& v.partition.sectors_per_fat == crate::partition::spec_bpb_sectors_per_fat_32(s)
                &&& v.partition.fat_start_sector == part_info.start_sector
                    + crate::partition::spec_bpb_reserved_sectors(s)
                &&& v.partition.data_start_sector == v.partition.fat_start_sector + 2
                    * v.partition.sectors_per_fat
                &&& v.partition.data_cluster_count == crate::partition::spec_geometry_count(
                    s,
                    part_info.start_sector,
                )
                &&& v.partition.volume_label@ == s.subrange(71, 82)
            }),
            (r == Err::<Volume, FatError>(FatError::CorruptPartition) ==> {
                let m = old(dev).model();
                &&& m.dom().contains(part_info.start_sector as int)
                &&& !crate::partition::spec_geometry_valid(
                    m[part_info.start_sector as int],
                    part_info.start_sector,
                )
            }),
            (r == Err::<Volume, FatError>(FatError::UnsupportedVersion) ==> {
                let m = old(dev).model();
                let s = m[part_info.start_sector as int];
                &&& m.dom().contains(part_info.start_sector as int)
                &&& crate::partition::spec_geometry_valid(s, part_info.start_sector)
                &&& !(crate::partition::MIN_CLUSTER_COUNT <= crate::partition::spec_geometry_count(
                    s,
                    part_info.start_sector,
                ) <= crate::partition::MAX_CLUSTER_COUNT)
            }),
            (r matches Err(e) ==> e == FatError::CorruptPartition || e
                == FatError::UnsupportedVersion || e == FatError::BlockDeviceFailed),
    {
        let partition = match Partition::read(dev, part_info) {
            Ok(p) => p,
            Err(e) => {
                return Err(e);
            },
        };
        Ok(Volume { partition, id: part_id })
    }

    /// Opens the root directory.
    pub fn open_root(&self, flags: u8) -> (f: File)
        requires
            flags & O_ACCESS_MODE != 3,
        ensures
            f.vol_id == self.id,
            f.pos == 0,
            f.cluster == crate::file::ROOT_CLUSTER,
            f.start_cluster == crate::file::ROOT_CLUSTER,
            f.spec_is_root(),
            f.spec_is_directory(),
            !f.spec_is_file(),
            f.spec_is_open(),
            f.attributes == crate::file::ATTR_ROOT,
            f.flags == (if flags & O_ACCESS_MODE == crate::file::O_RDONLY {
                crate::file::FLAG_READ
            } else if flags & O_ACCESS_MODE == crate::file::O_WRONLY {
                crate::file::FLAG_WRITE
            } else {
                crate::file::FLAG_READ | crate::file::FLAG_WRITE
            }),
            f.spec_is_readable() <==> (flags & O_ACCESS_MODE == crate::file::O_RDONLY || flags
                & O_ACCESS_MODE == crate::file::O_RDWR),
            !f.spec_is_contiguous(),
            f.wf(),
    {
        File::open_root(self.id, flags)
    }

    /// Opens the file or subdirectory described by a directory record.
    pub fn open(&self, entry: &SFN, flags: u8) -> (f: File)
        requires
            flags & O_ACCESS_MODE != 3,
        ensures
            f.vol_id == self.id,
            f.pos == 0,
            f.cluster == entry.spec_first_cluster(),
            f.start_cluster == entry.spec_first_cluster(),
            f.spec_size() == entry.size,
            f.spec_is_open(),
            !f.spec_is_root(),
            f.spec_is_directory() == entry.spec_is_directory(),
            f.spec_is_file() == !entry.spec_is_directory(),
            f.flags == (if flags & O_ACCESS_MODE == crate::file::O_RDONLY {
                crate::file::FLAG_READ
            } else if flags & O_ACCESS_MODE == crate::file::O_WRONLY {
                crate::file::FLAG_WRITE
            } else {
                crate::file::FLAG_READ | crate::file::FLAG_WRITE
            }),
            f.spec_is_readable() <==> (flags & O_ACCESS_MODE == crate::file::O_RDONLY || flags
                & O_ACCESS_MODE == crate::file::O_RDWR),
            !f.spec_is_contiguous(),
            f.wf(),
    {
        File::open(self.id, entry, flags)
    }

    /// Closes a handle that belongs to this volume: a matching handle
    /// always closes; a foreign one is refused untouched.
    pub fn close(&self, file: &mut File) -> (r: Result<(), FatError>)
        ensures
            r is Ok <==> old(file).vol_id == self.id,
            r == Err::<(), FatError>(FatError::VolumeIdMismatch) <==> old(file).vol_id != self.id,
            (r is Ok ==> !final(file).spec_is_open() && final(file).spec_flags() == 0 && final(file).wf()
                && final(file).cluster == old(file).cluster && final(file).pos == old(file).pos
                && final(file).start_cluster == old(file).start_cluster && final(file).vol_id
                == old(file).vol_id && final(file).size == old(file).size),
            (r is Err ==> *final(file) == *old(file)),
    {
        if file.vol_id != self.id {
            return Err(FatError::VolumeIdMismatch);
        }
        file.close();
        Ok(())
    }

    /// The handle belongs to this volume.
    pub fn check_file(&self, file: &File) -> (r: Result<(), FatError>)
        ensures
            r is Ok <==> file.vol_id == self.id,
            (r matches Err(e) ==> e == FatError::VolumeIdMismatch),
    {
        if file.vol_id != self.id {
            return Err(FatError::VolumeIdMismatch);
        }
        Ok(())
    }

    /// The handle belongs to this volume and is a directory.
    pub fn check_dir(&self, dir: &File) -> (r: Result<(), FatError>)
        ensures
            r is Ok <==> dir.vol_id == self.id && dir.spec_is_directory(),
            r == Err::<(), FatError>(FatError::VolumeIdMismatch) <==> dir.vol_id != self.id,
            r == Err::<(), FatError>(FatError::NotADirectory) <==> (dir.vol_id == self.id
                && !dir.spec_is_directory()),
    {
        if dir.vol_id != self.id {
            return Err(FatError::VolumeIdMismatch);
        }
        if !dir.is_directory() {
            return Err(FatError::NotADirectory);
        }
        Ok(())
    }

    /// Loads the sector that holds byte `old(file).pos` of the file,
    /// advancing the handle's cluster when the position has just crossed
    /// into a new cluster. Returns the sector bytes and the byte offset of
    /// `pos` within them. On any error the handle is left unchanged.
    pub fn load_sector_for_file<D: SectorRead>(
        &self,
        dev: &mut D,
        file: &mut File,
        buffer_index: usize,
    ) -> (r: Result<([u8; BLOCK_SIZE], usize), FatError>)
        requires
            buffer_index < 2,
            self.partition.wf(),
            spec_cursor_ok(self.partition, old(dev).model(), *old(file)),
        ensures
            final(dev).model() == old(dev).model(),
            final(file).pos == old(file).pos,
            final(file).start_cluster == old(file).start_cluster,
            final(file).vol_id == old(file).vol_id,
            final(file).attributes == old(file).attributes,
            final(file).flags == old(file).flags,
            final(file).size == old(file).size,
            (r matches Ok(out) ==> {
                let p = self.partition;
                let m = old(dev).model();
                let f = *old(file);
                &&& final(file).cluster as int == spec_cluster_for_index(
                    p,
                    m,
                    f,
                    spec_pos_index(p, f.pos) as nat,
                )
                &&& 2 <= final(file).cluster <= p.spec_last_cluster()
                &&& m.dom().contains(spec_sector_for_pos(p, m, f, f.pos))
                &&& out.0@ == m[spec_sector_for_pos(p, m, f, f.pos)]
                &&& out.1 == (f.pos & 0x1ff) as usize
                &&& out.1 < 512
            }),
            (r is Err ==> *final(file) == *old(file)),
            (r matches Err(e) ==> e == FatError::InvalidCluster || e == FatError::CorruptFat || e
                == FatError::BlockDeviceFailed),
    {
        let ghost p = self.partition;
        let ghost m = old(dev).model();
        let ghost f0 = *old(file);
        let saved_cluster = file.cluster;
        proof {
            let fp = old(file).pos;
            assert(fp & 0x1ff < 512) by (bit_vector);
        }
        let sector_pos = (file.pos & 0x1ff) as usize;
        let sector_of_cluster = self.partition.sector_of_cluster(file.pos);

        // The position has just crossed into a new cluster; the handle's
        // cluster still points at the one before it.
        if file.pos != 0 && sector_pos == 0 && sector_of_cluster == 0 {
            proof {
                lemma_pos_index(p, f0.pos);
            }
            if file.is_file() && file.is_contiguous() {
                match file.cluster.checked_add(1) {
                    Some(c) => {
                        file.cluster = c;
                    },
                    None => {
                        return Err(FatError::InvalidCluster);
                    },
                }
            } else {
                match self.partition.fat_get_next_cluster(dev, file.cluster) {
                    Ok(c) => {
                        proof {
                            // One more FAT step extends the chain walk.
                            assert(p.spec_chain(m, f0.start_cluster, (spec_cursor_index(p, f0.pos)
                                + 1) as nat) == p.spec_fat_next(
                                m,
                                p.spec_chain(m, f0.start_cluster, spec_cursor_index(p, f0.pos) as nat),
                            ));
                        }
                        file.cluster = c;
                    },
                    Err(e) => {
                        file.cluster = saved_cluster;
                        return Err(e);
                    },
                }
            }
        } else {
            proof {
                if f0.pos != 0 {
                    lemma_pos_index(p, f0.pos);
                }
            }
        }
        proof {
            let sh = (p.log2_sectors_per_cluster + 9) as u32;
            assert(0u32 >> sh == 0) by (bit_vector);
            assert(file.cluster as int == spec_cluster_for_index(
                p,
                m,
                f0,
                spec_pos_index(p, f0.pos) as nat,
            ));
        }
        if file.cluster < 2 || file.cluster > self.partition.last_cluster() {
            file.cluster = saved_cluster;
            return Err(FatError::InvalidCluster);
        }
        let cluster_start = self.partition.cluster_start_sector(file.cluster);
        let sector_index = cluster_start + sector_of_cluster;
        match dev.read_sector(buffer_index, sector_index) {
            Ok(s) => Ok((s, sector_pos)),
            Err(e) => {
                file.cluster = saved_cluster;
                Err(e)
            },
        }
    }

    /// Moves a file's cursor to `pos`.
    ///
    /// Fails with `VolumeIdMismatch` for a foreign handle, `FileClosed`
    /// for a closed one, and `SeekError` for a seek past the end of a
    /// regular file; FAT errors surface unchanged. On error the handle is
    /// left exactly as it was.
    #[verifier::loop_isolation(false)]
    pub fn seek<D: SectorRead>(&self, dev: &mut D, file: &mut File, pos: u32) -> (r: Result<
        (),
        FatError,
    >)
        requires
            self.partition.wf(),
            old(file).wf(),
            spec_cursor_ok(self.partition, old(dev).model(), *old(file)),
        ensures
            final(dev).model() == old(dev).model(),
            final(file).start_cluster == old(file).start_cluster,
            final(file).vol_id == old(file).vol_id,
            final(file).attributes == old(file).attributes,
            final(file).flags == old(file).flags,
            final(file).size == old(file).size,
            (r is Ok ==> final(file).pos == pos && final(file).wf() && spec_cursor_ok(
                self.partition,
                old(dev).model(),
                *final(file),
            )),
            (r is Err ==> *final(file) == *old(file)),
            r == Err::<(), FatError>(FatError::VolumeIdMismatch) <==> old(file).vol_id != self.id,
            r == Err::<(), FatError>(FatError::FileClosed) <==> (old(file).vol_id == self.id
                && !old(file).spec_is_open()),
            r == Err::<(), FatError>(FatError::SeekError) <==> (old(file).vol_id == self.id && old(file).spec_is_open() && pos != old(file).pos && old(file).spec_is_file() && pos > old(file).size),
            // Success is owed wherever no FAT access is needed: a no-op
            // seek, a rewind to the start, and the contiguous fast path.
            (old(file).vol_id == self.id && old(file).spec_is_open() && pos == old(file).pos
                ==> r is Ok && *final(file) == *old(file)),
            (old(file).vol_id == self.id && old(file).spec_is_open() && pos == 0 ==> r is Ok),
            (old(file).vol_id == self.id && old(file).spec_is_open() && old(file).spec_is_file()
                && old(file).spec_is_contiguous() && pos <= old(file).size && old(
                file,
            ).start_cluster + spec_cursor_index(self.partition, pos) <= u32::MAX ==> r is Ok),
            (r matches Err(e) ==> e == FatError::VolumeIdMismatch || e == FatError::FileClosed
                || e == FatError::SeekError || e == FatError::InvalidCluster || e
                == FatError::CorruptFat || e == FatError::BlockDeviceFailed),
    {
        let ghost p = self.partition;
        let ghost m = old(dev).model();
        let ghost f0 = *old(file);
        if file.vol_id != self.id {
            return Err(FatError::VolumeIdMismatch);
        }
        if !file.is_open() {
            return Err(FatError::FileClosed);
        }
        if pos == file.pos {
            return Ok(());
        }
        if file.is_file() && pos > file.size() {
            return Err(FatError::SeekError);
        }

        let shift = self.partition.log2_bytes_per_cluster() as u32;
        let cluster_idx_new: u32 = if pos == 0 {
            0
        } else {
            (pos - 1) >> shift
        };
        proof {
            assert(cluster_idx_new == spec_cursor_index(p, pos));
        }

        if file.is_file() && file.is_contiguous() {
            match file.start_cluster.checked_add(cluster_idx_new) {
                Some(c) => {
                    file.cluster = c;
                    file.pos = pos;
                    return Ok(());
                },
                None => {
                    return Err(FatError::InvalidCluster);
                },
            }
        }

        let saved_cluster = file.cluster;
        let cluster_idx_cur: u32 = if file.pos == 0 {
            0
        } else {
            (file.pos - 1) >> shift
        };
        let restart = cluster_idx_new < cluster_idx_cur || file.pos == 0;
        let ghost base: nat = if restart {
            0nat
        } else {
            spec_cursor_index(p, f0.pos) as nat
        };
        let steps: u32;
        if restart {
            file.cluster = file.start_cluster;
            steps = cluster_idx_new;
        } else {
            steps = cluster_idx_new - cluster_idx_cur;
        }
        let mut i: u32 = 0;
        while i < steps
            invariant
                i <= steps,
                self.partition == p,
                self.partition.wf(),
                dev.model() == m,
                base + steps == cluster_idx_new,
                file.cluster == p.spec_chain(m, f0.start_cluster, (base + i) as nat),
                file.pos == f0.pos,
                file.start_cluster == f0.start_cluster,
                file.vol_id == f0.vol_id,
                file.attributes == f0.attributes,
                file.flags == f0.flags,
                file.size == f0.size,
            decreases steps - i,
        {
            match self.partition.fat_get_next_cluster(dev, file.cluster) {
                Ok(c) => {
                    file.cluster = c;
                },
                Err(e) => {
                    file.cluster = saved_cluster;
                    proof {
                        assert(*file =~= f0);
                    }
                    return Err(e);
                },
            }
            i += 1;
        }
        proof {
            if base != 0 {
                p.lemma_chain_add(m, f0.start_cluster, base, steps as nat);
            }
        }
        file.pos = pos;
        Ok(())
    }

    /// Reads from the file's cursor into the front of `buffer`, at most
    /// `buffer.len()` bytes and never past the end of the file. Returns
    /// the byte count; zero at end of file. Short reads happen only at
    /// end of file. The bytes delivered are exactly the disk bytes that
    /// back positions `pos .. pos + n` of the file.
    #[verifier::loop_isolation(false)]
    pub fn read<D: SectorRead>(&self, dev: &mut D, file: &mut File, buffer: &mut Vec<u8>) -> (r:
        Result<usize, FatError>)
        requires
            self.partition.wf(),
            old(file).wf(),
            spec_cursor_ok(self.partition, old(dev).model(), *old(file)),
        ensures
            final(dev).model() == old(dev).model(),
            final(buffer)@.len() == old(buffer)@.len(),
            final(file).start_cluster == old(file).start_cluster,
            final(file).vol_id == old(file).vol_id,
            final(file).attributes == old(file).attributes,
            final(file).flags == old(file).flags,
            final(file).size == old(file).size,
            final(file).wf(),
            spec_cursor_ok(self.partition, old(dev).model(), *final(file)),
            old(file).pos <= final(file).pos,
            // Every byte delivered is the disk byte behind that position.
            forall|i: int|
                0 <= i < final(file).pos - old(file).pos ==> final(buffer)@[i] == spec_byte_at(
                    self.partition,
                    old(dev).model(),
                    *old(file),
                    (old(file).pos + i) as u32,
                ),
            forall|i: int|
                final(file).pos - old(file).pos <= i < old(buffer)@.len() ==> final(buffer)@[i]
                    == old(buffer)@[i],
            (r matches Ok(n) ==> {
                let to_eof: int = if old(file).size >= old(file).pos {
                    old(file).size - old(file).pos
                } else {
                    0
                };
                &&& (n as int == if old(buffer)@.len() <= to_eof {
                    old(buffer)@.len() as int
                } else {
                    to_eof
                })
                &&& final(file).pos == old(file).pos + n
            }),
            r == Err::<usize, FatError>(FatError::VolumeIdMismatch) <==> old(file).vol_id
                != self.id,
            r == Err::<usize, FatError>(FatError::ReadError) <==> (old(file).vol_id == self.id
                && !old(file).spec_is_readable()),
            // A read that has nothing to transfer — an empty buffer or a
            // cursor at (or past) the end — succeeds with zero bytes and
            // touches nothing.
            (old(file).vol_id == self.id && old(file).spec_is_readable() && (old(buffer)@.len()
                == 0 || old(file).pos >= old(file).size) ==> r == Ok::<usize, FatError>(0usize)
                && *final(file) == *old(file) && final(buffer)@ == old(buffer)@),
            // The two argument-check failures touch nothing.
            (r == Err::<usize, FatError>(FatError::VolumeIdMismatch) || r == Err::<
                usize,
                FatError,
            >(FatError::ReadError) ==> *final(file) == *old(file) && final(buffer)@ == old(
                buffer,
            )@),
            (r matches Err(e) ==> e == FatError::VolumeIdMismatch || e == FatError::ReadError || e
                == FatError::InvalidCluster || e == FatError::CorruptFat || e
                == FatError::BlockDeviceFailed),
    {
        let ghost p = self.partition;
        let ghost m = old(dev).model();
        let ghost f0 = *old(file);
        let ghost buf0 = buffer@;
        if file.vol_id != self.id {
            return Err(FatError::VolumeIdMismatch);
        }
        if !file.is_readable() {
            return Err(FatError::ReadError);
        }

        let bytes_to_eof: u32 = if file.size() >= file.pos {
            file.size() - file.pos
        } else {
            0
        };
        let num_bytes: usize = if buffer.len() as u64 > bytes_to_eof as u64 {
            bytes_to_eof as usize
        } else {
            buffer.len()
        };

        let mut buf_pos: usize = 0;
        let mut remainder: usize = num_bytes;
        while remainder > 0
            invariant
                self.partition == p,
                self.partition.wf(),
                dev.model() == m,
                buf_pos + remainder == num_bytes,
                num_bytes <= buffer@.len(),
                buffer@.len() == buf0.len(),
                num_bytes <= bytes_to_eof,
                f0.pos + num_bytes <= u32::MAX,
                file.pos == f0.pos + buf_pos,
                file.start_cluster == f0.start_cluster,
                file.vol_id == f0.vol_id,
                file.attributes == f0.attributes,
                file.flags == f0.flags,
                file.size == f0.size,
                file.wf(),
                f0.spec_is_file() ==> f0.pos + num_bytes <= f0.size,
                spec_cursor_ok(p, m, *file),
                forall|i: int|
                    0 <= i < buf_pos ==> buffer@[i] == spec_byte_at(p, m, f0, (f0.pos + i) as u32),
                forall|i: int| buf_pos <= i < buf0.len() ==> buffer@[i] == buf0[i],
            decreases remainder,
        {
            let ghost fi = *file;
            let (sector, sector_pos) = match self.load_sector_for_file(dev, file, DATA_BUFFER) {
                Ok(out) => out,
                Err(e) => {
                    return Err(e);
                },
            };
            let n: usize = if 512 - sector_pos < remainder {
                512 - sector_pos
            } else {
                remainder
            };
            proof {
                let sh = (p.log2_sectors_per_cluster + 9) as u32;
                let fp = fi.pos;
                assert(fp & 0x1ff < 512) by (bit_vector);
                assert forall|j: int| 0 <= j < n implies #[trigger] spec_byte_at(
                    p,
                    m,
                    f0,
                    (f0.pos + buf_pos + j) as u32,
                ) == sector@[sector_pos + j] by {
                    lemma_same_sector(fi.pos, (fi.pos + j) as u32, j as u32, sh);
                    assert(spec_sector_for_pos(p, m, f0, (fi.pos + j) as u32)
                        == spec_sector_for_pos(p, m, f0, fi.pos));
                }
            }
            let mut j: usize = 0;
            while j < n
                invariant
                    j <= n,
                    buf_pos + n <= num_bytes <= buffer@.len(),
                    buffer@.len() == buf0.len(),
                    sector_pos + n <= 512,
                    sector@.len() == 512,
                    forall|k: int|
                        0 <= k < n ==> #[trigger] spec_byte_at(p, m, f0, (f0.pos + buf_pos + k) as u32)
                            == sector@[sector_pos + k],
                    forall|i: int|
                        0 <= i < buf_pos + j ==> buffer@[i] == spec_byte_at(
                            p,
                            m,
                            f0,
                            (f0.pos + i) as u32,
                        ),
                    forall|i: int| buf_pos + j <= i < buf0.len() ==> buffer@[i] == buf0[i],
                decreases n - j,
            {
                proof {
                    assert(spec_byte_at(p, m, f0, (f0.pos + buf_pos + j) as u32) == sector@[
                        sector_pos + j]);
                }
                buffer[buf_pos + j] = sector[sector_pos + j];
                j += 1;
            }
            proof {
                let sh = (p.log2_sectors_per_cluster + 9) as u32;
                lemma_same_sector(fi.pos, (fi.pos + (n - 1)) as u32, (n - 1) as u32, sh);
            }
            buf_pos += n;
            file.pos += n as u32;
            remainder -= n;
        }
        Ok(num_bytes)
    }
}

/// What a read delivers is a pure function of the disk model and of the
/// handle's start cluster, attribute byte and flag byte: two handles that
/// agree on those are backed by the same disk byte at every position.
/// Since `seek(f, 0)` restores the cursor to the start and reading never
/// changes the model, repeating `seek(f, 0)` followed by `read` on a
/// read-only filesystem delivers identical bytes on every invocation.
pub proof fn lemma_rewound_read_deterministic(p: Partition, m: DiskModel, f1: File, f2: File)
    requires
        f1.start_cluster == f2.start_cluster,
        f1.attributes == f2.attributes,
        f1.flags == f2.flags,
    ensures
        forall|pos: u32|
            #[trigger] spec_byte_at(p, m, f1, pos) == spec_byte_at(p, m, f2, pos),
{
    assert forall|pos: u32|
        #[trigger] spec_byte_at(p, m, f1, pos) == spec_byte_at(p, m, f2, pos) by {
        let k = spec_pos_index(p, pos) as nat;
        assert(spec_cluster_for_index(p, m, f1, k) == spec_cluster_for_index(p, m, f2, k));
    }
}

} // verus!
