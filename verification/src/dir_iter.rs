//! The directory iterator: walks a directory file record by record and
//! stitches long-filename runs to their short-name anchor.
//!
//! Long-name fragments are stored in reverse logical order directly before
//! their anchor. To yield them in ascending order without buffering, the
//! iterator makes two passes over each run: on first meeting the
//! logically-last fragment it jumps ahead to the anchor to learn its
//! attributes, rewinds to the logically-first fragment, and then walks the
//! fragments forward, validating each fragment's checksum and sequence
//! number against the run; the anchor is finally yielded as a `Short`
//! record with `had_lfn` set. Every cursor move goes through `seek`, so
//! runs that straddle a cluster boundary are followed correctly.

use vstd::prelude::*;

use crate::device::{SectorRead, FS_BUFFER};
use crate::dir_entry::{spec_sfn_checksum, DirEntry, LFN, SFN};
use crate::errors::FatError;
use crate::file::{File, O_RDONLY};
use crate::bytes::{spec_le16, spec_le32};
use crate::partition::{DiskModel, Partition};
use crate::volume::{lemma_same_sector, spec_byte_at, spec_cluster_for_index, spec_cursor_ok, spec_sector_for_pos, Volume};

verus! {

/// Deepest directory recursion `ls` accepts.
pub const MAX_SUBDIR_DEPTH: u16 = 8;

/// Cap on directory records visited in one listing pass; a FAT32
/// directory holds at most 65536 records, and the two-pass long-name walk
/// visits each at most a bounded number of times. Exceeding the cap means
/// the directory's cluster chain is cyclic.
pub const MAX_DIR_STEPS: u32 = 0x0020_0000;

/// The disk byte at offset `off` of the 32-byte record starting at byte
/// position `pos` of the directory file.
pub open spec fn spec_record_byte(p: Partition, m: DiskModel, f: File, pos: u32, off: int) -> u8 {
    spec_byte_at(p, m, f, (pos + off) as u32)
}

/// `sfn` holds exactly the fields of the short-name record at byte
/// position `pos` of the directory: the 11 name bytes, the attribute and
/// case bytes, the little-endian timestamps, the split first cluster and
/// the size.
pub open spec fn spec_short_from_record(
    p: Partition,
    m: DiskModel,
    f: File,
    pos: u32,
    sfn: SFN,
) -> bool {
    &&& sfn.name@ == Seq::new(11, |i: int| spec_record_byte(p, m, f, pos, i))
    &&& sfn.attributes == spec_record_byte(p, m, f, pos, 11)
    &&& sfn.case_flags == spec_record_byte(p, m, f, pos, 12)
    &&& sfn.creation_time_ms == spec_record_byte(p, m, f, pos, 13)
    &&& sfn.creation_time == spec_le16(
        spec_record_byte(p, m, f, pos, 14),
        spec_record_byte(p, m, f, pos, 15),
    )
    &&& sfn.creation_date == spec_le16(
        spec_record_byte(p, m, f, pos, 16),
        spec_record_byte(p, m, f, pos, 17),
    )
    &&& sfn.access_date == spec_le16(
        spec_record_byte(p, m, f, pos, 18),
        spec_record_byte(p, m, f, pos, 19),
    )
    &&& sfn.first_cluster_high == spec_le16(
        spec_record_byte(p, m, f, pos, 20),
        spec_record_byte(p, m, f, pos, 21),
    )
    &&& sfn.modify_time == spec_le16(
        spec_record_byte(p, m, f, pos, 22),
        spec_record_byte(p, m, f, pos, 23),
    )
    &&& sfn.modify_date == spec_le16(
        spec_record_byte(p, m, f, pos, 24),
        spec_record_byte(p, m, f, pos, 25),
    )
    &&& sfn.first_cluster_low == spec_le16(
        spec_record_byte(p, m, f, pos, 26),
        spec_record_byte(p, m, f, pos, 27),
    )
    &&& sfn.size == spec_le32(
        spec_record_byte(p, m, f, pos, 28),
        spec_record_byte(p, m, f, pos, 29),
        spec_record_byte(p, m, f, pos, 30),
        spec_record_byte(p, m, f, pos, 31),
    )
}

/// `lfn` holds exactly the fields of the long-name record at byte
/// position `pos` of the directory: the sequence byte, the three
/// character runs and the anchor checksum.
pub open spec fn spec_long_from_record(
    p: Partition,
    m: DiskModel,
    f: File,
    pos: u32,
    lfn: LFN,
) -> bool {
    &&& lfn.sequence_byte == spec_record_byte(p, m, f, pos, 0)
    &&& lfn.unicode1@ == Seq::new(10, |i: int| spec_record_byte(p, m, f, pos, 1 + i))
    &&& lfn.checksum_byte == spec_record_byte(p, m, f, pos, 13)
    &&& lfn.unicode2@ == Seq::new(12, |i: int| spec_record_byte(p, m, f, pos, 14 + i))
    &&& lfn.unicode3@ == Seq::new(4, |i: int| spec_record_byte(p, m, f, pos, 28 + i))
}

/// The 32 bytes of a record all come from the one sector that holds it:
/// a 32-aligned position pins every record byte to the loaded sector.
pub proof fn lemma_record_window(
    p: Partition,
    m: DiskModel,
    f1: File,
    f2: File,
    q: u32,
    s: Seq<u8>,
)
    requires
        p.wf(),
        f1.start_cluster == f2.start_cluster,
        f1.attributes == f2.attributes,
        f1.flags == f2.flags,
        q & 0x1f == 0,
        s == m[spec_sector_for_pos(p, m, f1, q)],
    ensures
        forall|off: int|
            0 <= off < 32 ==> #[trigger] spec_record_byte(p, m, f2, q, off) == s[(q & 0x1ff)
                + off],
{
    assert(q & 0x1f == 0 ==> q & 0x1ff <= 480 && q <= 0xffff_ffe0u32) by (bit_vector);
    let sh = (p.log2_sectors_per_cluster + 9) as u32;
    assert forall|off: int|
        0 <= off < 32 implies #[trigger] spec_record_byte(p, m, f2, q, off) == s[(q & 0x1ff)
        + off] by {
        lemma_same_sector(q, (q + off) as u32, off as u32, sh);
        assert(spec_cluster_for_index(
            p,
            m,
            f2,
            crate::volume::spec_pos_index(p, (q + off) as u32) as nat,
        ) == spec_cluster_for_index(p, m, f1, crate::volume::spec_pos_index(p, (q + off) as u32) as nat));
        assert(spec_sector_for_pos(p, m, f2, (q + off) as u32) == spec_sector_for_pos(
            p,
            m,
            f1,
            q,
        ));
    }
}

/// Iterator state carried between `dir_next` calls: the checksum of the
/// long-name run being walked (zero when idle), the next expected
/// fragment sequence number, and the attribute byte probed from the run's
/// anchor.
pub struct DirectoryIterator {
    pub lfn_checksum: u8,
    pub lfn_next: usize,
    pub sfn_attr: u8,
}

impl DirectoryIterator {
    /// True while the iterator is inside a long-name run.
    pub open spec fn spec_in_run(&self) -> bool {
        self.lfn_checksum != 0
    }

    /// At call boundaries an in-run iterator has already probed its
    /// anchor, whose attribute byte can never be the long-name marker.
    pub open spec fn wf(&self) -> bool {
        self.spec_in_run() ==> self.sfn_attr != 0x0f
    }

    pub fn new() -> (it: DirectoryIterator)
        ensures
            !it.spec_in_run(),
            it.wf(),
            it.lfn_next == 0,
            it.sfn_attr == 0,
    {
        DirectoryIterator { lfn_checksum: 0, lfn_next: 0, sfn_attr: 0 }
    }
}

impl Volume {
    /// Yields the next directory record, or `None` at the end marker.
    ///
    /// While inside a long-name run, every yielded `Long` fragment has
    /// been validated against the run's checksum and expected sequence
    /// number, and the `Short` anchor that ends the run carries
    /// `had_lfn = true` and a name whose checksum equals the run's;
    /// any mismatch surfaces as `LfnParseError` instead.
    #[verifier::loop_isolation(false)]
    pub fn dir_next<D: SectorRead>(
        &self,
        dev: &mut D,
        dir: &mut File,
        it: &mut DirectoryIterator,
    ) -> (r: Result<Option<DirEntry>, FatError>)
        requires
            self.partition.wf(),
            old(dir).wf(),
            spec_cursor_ok(self.partition, old(dev).model(), *old(dir)),
            old(dir).vol_id == self.id,
            old(dir).spec_is_directory(),
            old(it).wf(),
        ensures
            final(dev).model() == old(dev).model(),
            final(dir).wf(),
            spec_cursor_ok(self.partition, old(dev).model(), *final(dir)),
            final(dir).start_cluster == old(dir).start_cluster,
            final(dir).vol_id == old(dir).vol_id,
            final(dir).attributes == old(dir).attributes,
            final(dir).flags == old(dir).flags,
            final(dir).size == old(dir).size,
            (r matches Ok(e) ==> (e is Some ==> final(it).wf())),
            // `None` reports the on-disk end marker: a record whose first
            // name byte is zero at the final cursor position.
            (r == Ok::<Option<DirEntry>, FatError>(None) ==> spec_byte_at(
                self.partition,
                old(dev).model(),
                *final(dir),
                final(dir).pos,
            ) == 0),
            (r matches Ok(e) ==> (e matches Some(d) ==> (d matches DirEntry::Short(sfn, had)
                ==> !final(it).spec_in_run() && (old(it).spec_in_run() ==> had
                && spec_sfn_checksum(sfn.name@) == old(it).lfn_checksum)))),
            (r matches Ok(e) ==> (e matches Some(d) ==> (d matches DirEntry::Long(lfn, hint) ==> (
            final(it).spec_in_run() ==> final(it).lfn_checksum == lfn.checksum_byte && hint
                == final(it).sfn_attr) && (old(it).spec_in_run() ==> final(it).spec_in_run()
                && lfn.checksum_byte == old(it).lfn_checksum && lfn.spec_sequence_num() == old(it).lfn_next)))),
            r == Err::<Option<DirEntry>, FatError>(FatError::InvalidPosition) <==> old(dir).pos
                & 0x1f != 0,
            (old(dir).pos & 0x1f == 0 ==> final(dir).pos & 0x1f == 0),
            // Conversely, a cursor resting on the end marker can only
            // answer `None`, leaving the cursor where it is.
            ((old(dir).pos & 0x1f == 0 && spec_byte_at(
                self.partition,
                old(dev).model(),
                *old(dir),
                old(dir).pos,
            ) == 0 && r is Ok) ==> r == Ok::<Option<DirEntry>, FatError>(None) && final(dir).pos
                == old(dir).pos),
            // Every yield is exactly the record parsed from the cursor
            // position it was read at, recoverable from the final cursor:
            // a Short was read one record back; a fragment yielded while
            // walking forward was read one record ahead; the logically
            // last fragment was read a whole run back.
            (r matches Ok(e) ==> (e matches Some(d) ==> (d matches DirEntry::Short(sfn, had)
                ==> final(dir).pos >= 32 && spec_short_from_record(
                self.partition,
                old(dev).model(),
                *final(dir),
                (final(dir).pos - 32) as u32,
                sfn,
            )))),
            (r matches Ok(e) ==> (e matches Some(d) ==> (d matches DirEntry::Long(lfn, hint)
                ==> (!lfn.spec_is_last_in_sequence() ==> spec_long_from_record(
                self.partition,
                old(dev).model(),
                *final(dir),
                (final(dir).pos + 32) as u32,
                lfn,
            ) && final(dir).pos + 32 <= u32::MAX) && (lfn.spec_is_last_in_sequence() ==> final(dir).pos >= lfn.spec_sequence_num() * 32 && spec_long_from_record(
                self.partition,
                old(dev).model(),
                *final(dir),
                (final(dir).pos - lfn.spec_sequence_num() * 32) as u32,
                lfn,
            ))))),
            // Walking a run advances the expected sequence number past
            // each forward fragment; revisiting the logically last one
            // leaves it for the anchor check.
            (r matches Ok(e) ==> (e matches Some(d) ==> (d matches DirEntry::Long(lfn, hint)
                ==> (old(it).spec_in_run() ==> (!lfn.spec_is_last_in_sequence() ==> final(it).lfn_next == lfn.spec_sequence_num() + 1) && (lfn.spec_is_last_in_sequence()
                ==> final(it).lfn_next == old(it).lfn_next))))),
            // Inside a run, a fragment on disk whose checksum or sequence
            // number contradicts the run can never be yielded: the call
            // fails (with the parse error, unless the device or chain
            // failed first).
            ((old(it).spec_in_run() && old(dir).pos & 0x1f == 0 && spec_record_byte(
                self.partition,
                old(dev).model(),
                *old(dir),
                old(dir).pos,
                0,
            ) != 0 && spec_record_byte(
                self.partition,
                old(dev).model(),
                *old(dir),
                old(dir).pos,
                11,
            ) == 0x0f && (spec_record_byte(
                self.partition,
                old(dev).model(),
                *old(dir),
                old(dir).pos,
                13,
            ) != old(it).lfn_checksum || (spec_record_byte(
                self.partition,
                old(dev).model(),
                *old(dir),
                old(dir).pos,
                0,
            ) & 0x1f) as usize != old(it).lfn_next)) ==> (r matches Err(e) && (e
                == FatError::LfnParseError || e == FatError::InvalidCluster || e
                == FatError::CorruptFat || e == FatError::BlockDeviceFailed))),
            // A live plain record met outside a run is yielded as a bare
            // `Short` and the cursor moves one record forward.
            ((!old(it).spec_in_run() && old(dir).pos & 0x1f == 0 && old(dir).pos + 32 <= u32::MAX
                && spec_byte_at(self.partition, old(dev).model(), *old(dir), old(dir).pos) != 0
                && spec_byte_at(
                self.partition,
                old(dev).model(),
                *old(dir),
                (old(dir).pos + 11) as u32,
            ) != 0x0f && r is Ok) ==> (r matches Ok(e) && e matches Some(d) && d matches
                DirEntry::Short(sfn, had) && !had && final(dir).pos == old(dir).pos + 32)),
            (r matches Err(e) ==> e == FatError::InvalidPosition || e == FatError::LfnParseError
                || e == FatError::SeekError || e == FatError::InvalidCluster || e
                == FatError::CorruptFat || e == FatError::BlockDeviceFailed),
    {
        let ghost p = self.partition;
        let ghost m = old(dev).model();
        let ghost d0 = *old(dir);
        let ghost it0 = *old(it);
        // The cursor rests on a live plain record outside a run: the one
        // situation where the yield is fully determined in advance.
        let ghost plain_rec = !it0.spec_in_run() && d0.pos & 0x1f == 0 && d0.pos + 32 <= u32::MAX
            && spec_byte_at(p, m, d0, d0.pos) != 0 && spec_byte_at(p, m, d0, (d0.pos + 11) as u32)
            != 0x0f;
        // The cursor rests on the end marker.
        let ghost end_rec = d0.pos & 0x1f == 0 && spec_byte_at(p, m, d0, d0.pos) == 0;
        // The cursor rests on a fragment that contradicts the run.
        let ghost mism_rec = it0.spec_in_run() && d0.pos & 0x1f == 0 && spec_record_byte(
            p,
            m,
            d0,
            d0.pos,
            0,
        ) != 0 && spec_record_byte(p, m, d0, d0.pos, 11) == 0x0f && (spec_record_byte(
            p,
            m,
            d0,
            d0.pos,
            13,
        ) != it0.lfn_checksum || (spec_record_byte(p, m, d0, d0.pos, 0) & 0x1f) as usize
            != it0.lfn_next);

        // Directory records sit on 32-byte boundaries.
        if dir.pos & 0x1f > 0 {
            return Err(FatError::InvalidPosition);
        }
        proof {
            let a = d0.attributes;
            assert(a & 0x50u8 > 0 ==> a != 0) by (bit_vector);
        }
        loop
            invariant
                self.partition == p,
                self.partition.wf(),
                dev.model() == m,
                dir.wf(),
                spec_cursor_ok(p, m, *dir),
                dir.pos & 0x1f == 0,
                dir.start_cluster == d0.start_cluster,
                dir.vol_id == d0.vol_id,
                dir.attributes == d0.attributes,
                dir.flags == d0.flags,
                dir.size == d0.size,
                it.wf() || (it.sfn_attr == 0x0f && !it0.spec_in_run()),
                (*it == it0) || (!it0.spec_in_run() && it.lfn_next == 1),
                plain_rec ==> *it == it0 && *dir == d0,
                end_rec ==> *dir == d0,
                mism_rec ==> *it == it0 && *dir == d0,
            decreases (if it.lfn_checksum == 0 {
                2int
            } else if it.sfn_attr == 0x0f {
                1int
            } else {
                0int
            }), u32::MAX - dir.pos,
        {
            // The loader advances the cluster lazily at boundaries; the
            // cursor here only peeks at a record and keeps moving through
            // `seek`, so restore the cursor coupling after the load.
            let ghost pre = *dir;
            let ghost qv = dir.pos;
            let saved_cluster = dir.cluster;
            let (sector, sector_pos) = match self.load_sector_for_file(dev, dir, FS_BUFFER) {
                Ok(out) => out,
                Err(e) => {
                    return Err(e);
                },
            };
            dir.cluster = saved_cluster;
            proof {
                assert(*dir =~= pre);
                let dp = dir.pos;
                assert(dp & 0x1f == 0 ==> (dp & 0x1ff) <= 480) by (bit_vector);
            }
            let entry = SFN::parse(sector.as_slice(), sector_pos);
            proof {
                if plain_rec || mism_rec {
                    lemma_record_window(p, m, pre, pre, qv, sector@);
                    assert(entry.attributes == spec_record_byte(p, m, d0, d0.pos, 11));
                    assert(entry.name@[0] == spec_record_byte(p, m, d0, d0.pos, 0));
                }
            }
            if entry.name[0] == 0 {
                // End-of-directory marker.
                proof {
                    assert(entry.name@[0] == sector@[sector_pos as int]);
                    assert(spec_byte_at(p, m, *dir, dir.pos) == 0);
                }
                return Ok(None);
            }
            if entry.is_long_name_component() {
                let lfn = LFN::parse(sector.as_slice(), sector_pos);
                // While probing the anchor's attributes, the jumped-to
                // record must be the short-name anchor itself.
                if it.lfn_checksum != 0 && it.sfn_attr == 0x0f {
                    return Err(FatError::LfnParseError);
                }
                if it.lfn_checksum != 0 && (it.lfn_checksum != lfn.checksum() || it.lfn_next
                    != lfn.sequence_num()) {
                    return Err(FatError::LfnParseError);
                }
                if lfn.is_last_in_sequence() {
                    // Logically last, physically first: hop over the run
                    // to its anchor. Sequence numbers are 1-indexed; zero
                    // marks a malformed run.
                    if lfn.sequence_num() == 0 {
                        return Err(FatError::LfnParseError);
                    }
                    proof {
                        let sq = lfn.sequence_byte;
                        assert((sq & 0x1f) <= 31) by (bit_vector);
                    }
                    let jump = (lfn.sequence_num() as u32) * 32;
                    let target = match dir.pos.checked_add(jump) {
                        Some(t) => t,
                        None => {
                            return Err(FatError::LfnParseError);
                        },
                    };
                    proof {
                        let dp = dir.pos;
                        let sq = (lfn.sequence_byte & 0x1f) as u32;
                        assert(dp & 0x1f == 0 && dp + sq * 32 <= u32::MAX ==> ((dp + sq * 32)
                            as u32) & 0x1f == 0) by (bit_vector);
                    }
                    match self.seek(dev, dir, target) {
                        Ok(()) => (),
                        Err(e) => {
                            return Err(e);
                        },
                    }
                    if it.lfn_checksum == 0 {
                        // First pass: remember the run and go read the
                        // anchor's attributes.
                        it.lfn_checksum = lfn.checksum();
                        it.sfn_attr = 0x0f;
                        it.lfn_next = 1;
                        continue;
                    }
                    proof {
                        lemma_record_window(p, m, pre, *dir, qv, sector@);
                        assert(lfn.unicode1@ =~= Seq::new(
                            10,
                            |i: int| spec_record_byte(p, m, *dir, qv, 1 + i),
                        ));
                        assert(lfn.unicode2@ =~= Seq::new(
                            12,
                            |i: int| spec_record_byte(p, m, *dir, qv, 14 + i),
                        ));
                        assert(lfn.unicode3@ =~= Seq::new(
                            4,
                            |i: int| spec_record_byte(p, m, *dir, qv, 28 + i),
                        ));
                        assert(spec_long_from_record(p, m, *dir, qv, lfn));
                    }
                    return Ok(Some(DirEntry::Long(lfn, it.sfn_attr)));
                } else {
                    if dir.pos < 32 {
                        return Err(FatError::LfnParseError);
                    }
                    let target = dir.pos - 32;
                    proof {
                        let dp = dir.pos;
                        assert(dp & 0x1f == 0 && dp >= 32 ==> (((dp - 32) as u32) & 0x1f) == 0)
                            by (bit_vector);
                    }
                    match self.seek(dev, dir, target) {
                        Ok(()) => (),
                        Err(e) => {
                            return Err(e);
                        },
                    }
                    if it.lfn_checksum != 0 {
                        proof {
                            let sq = lfn.sequence_byte;
                            assert((sq & 0x1f) <= 31) by (bit_vector);
                        }
                        it.lfn_next = lfn.sequence_num() + 1;
                    }
                    proof {
                        lemma_record_window(p, m, pre, *dir, qv, sector@);
                        assert(lfn.unicode1@ =~= Seq::new(
                            10,
                            |i: int| spec_record_byte(p, m, *dir, qv, 1 + i),
                        ));
                        assert(lfn.unicode2@ =~= Seq::new(
                            12,
                            |i: int| spec_record_byte(p, m, *dir, qv, 14 + i),
                        ));
                        assert(lfn.unicode3@ =~= Seq::new(
                            4,
                            |i: int| spec_record_byte(p, m, *dir, qv, 28 + i),
                        ));
                        assert(spec_long_from_record(p, m, *dir, qv, lfn));
                    }
                    return Ok(Some(DirEntry::Long(lfn, it.sfn_attr)));
                }
            } else {
                let mut has_lfn = false;
                if it.lfn_checksum != 0 {
                    if it.lfn_checksum != entry.checksum() {
                        return Err(FatError::LfnParseError);
                    }
                    if it.sfn_attr == 0x0f {
                        // Second stop at the run: this is the probe pass;
                        // learn the anchor's attributes and rewind to the
                        // first fragment.
                        let probed = entry.file_attributes();
                        proof {
                            let a = entry.attributes;
                            assert((a & (0x01u8 | 0x02u8 | 0x04u8 | 0x10u8)) != 0x0fu8)
                                by (bit_vector);
                        }
                        it.sfn_attr = probed;
                        if dir.pos < 32 {
                            return Err(FatError::LfnParseError);
                        }
                        let target = dir.pos - 32;
                        proof {
                            let dp = dir.pos;
                            assert(dp & 0x1f == 0 && dp >= 32 ==> (((dp - 32) as u32) & 0x1f) == 0)
                                by (bit_vector);
                        }
                        match self.seek(dev, dir, target) {
                            Ok(()) => (),
                            Err(e) => {
                                return Err(e);
                            },
                        }
                        continue;
                    }
                    it.lfn_checksum = 0;
                    it.lfn_next = 0;
                    has_lfn = true;
                }
                let target = match dir.pos.checked_add(32) {
                    Some(t) => t,
                    None => {
                        // The cursor outran the 32-bit directory address
                        // space: the chain is broken.
                        return Err(FatError::CorruptFat);
                    },
                };
                proof {
                    let dp = dir.pos;
                    assert(dp & 0x1f == 0 && dp + 32 <= u32::MAX ==> ((dp + 32) as u32) & 0x1f
                        == 0) by (bit_vector);
                }
                match self.seek(dev, dir, target) {
                    Ok(()) => (),
                    Err(e) => {
                        return Err(e);
                    },
                }
                proof {
                    lemma_record_window(p, m, pre, *dir, qv, sector@);
                    assert(entry.name@ =~= Seq::new(
                        11,
                        |i: int| spec_record_byte(p, m, *dir, qv, i),
                    ));
                    assert(spec_short_from_record(p, m, *dir, qv, entry));
                }
                return Ok(Some(DirEntry::Short(entry, has_lfn)));
            }
        }
    }

    /// Lists a directory: rewinds it, collects every record that is not
    /// deleted (and not hidden unless `show_hidden`), tagged with `depth`,
    /// and recurses into subdirectories while `depth_limit` lasts.
    /// `depth_limit` beyond `MAX_SUBDIR_DEPTH` is rejected with
    /// `TooManySubdirs` to bound the call stack.
    #[verifier::loop_isolation(false)]
    pub fn ls<D: SectorRead>(
        &self,
        dev: &mut D,
        dir: &mut File,
        show_hidden: bool,
        depth: u16,
        depth_limit: u16,
        out: &mut Vec<(DirEntry, u16)>,
    ) -> (r: Result<(), FatError>)
        requires
            self.partition.wf(),
            old(dir).wf(),
            spec_cursor_ok(self.partition, old(dev).model(), *old(dir)),
            old(dir).vol_id == self.id,
            old(dir).spec_is_directory(),
            depth + depth_limit <= u16::MAX,
        ensures
            final(dev).model() == old(dev).model(),
            final(out)@.len() >= old(out)@.len(),
            forall|i: int| 0 <= i < old(out)@.len() ==> final(out)@[i] == old(out)@[i],
            forall|i: int|
                old(out)@.len() <= i < final(out)@.len() ==> !(#[trigger] final(out)@[i]).0.spec_deleted()
                    && (show_hidden || !final(out)@[i].0.spec_hidden()),
            r == Err::<(), FatError>(FatError::TooManySubdirs) <==> depth_limit
                > MAX_SUBDIR_DEPTH,
            // A listing succeeds only by reaching the end marker.
            (r is Ok ==> spec_byte_at(
                self.partition,
                old(dev).model(),
                *final(dir),
                final(dir).pos,
            ) == 0),
        decreases depth_limit,
    {
        let ghost p = self.partition;
        let ghost m = old(dev).model();
        let ghost d0 = *old(dir);
        let ghost out0 = out@;
        if depth_limit > MAX_SUBDIR_DEPTH {
            return Err(FatError::TooManySubdirs);
        }
        match self.seek(dev, dir, 0) {
            Ok(()) => (),
            Err(e) => {
                proof {
                    let a = d0.attributes;
                    assert(a & 0x50u8 > 0 ==> a != 0) by (bit_vector);
                }
                return Err(e);
            },
        }
        let mut it = DirectoryIterator::new();
        let mut fuel: u32 = MAX_DIR_STEPS;
        loop
            invariant
                self.partition == p,
                self.partition.wf(),
                dev.model() == m,
                dir.wf(),
                spec_cursor_ok(p, m, *dir),
                dir.start_cluster == d0.start_cluster,
                dir.vol_id == d0.vol_id,
                dir.attributes == d0.attributes,
                dir.flags == d0.flags,
                dir.size == d0.size,
                it.wf(),
                out@.len() >= out0.len(),
                forall|i: int| 0 <= i < out0.len() ==> out@[i] == out0[i],
                forall|i: int|
                    out0.len() <= i < out@.len() ==> !(#[trigger] out@[i]).0.spec_deleted() && (
                    show_hidden || !out@[i].0.spec_hidden()),
                depth + depth_limit <= u16::MAX,
                depth_limit <= MAX_SUBDIR_DEPTH,
            decreases fuel,
        {
            if fuel == 0 {
                return Err(FatError::CorruptFat);
            }
            fuel -= 1;
            let entry = match self.dir_next(dev, dir, &mut it) {
                Ok(Some(e)) => e,
                Ok(None) => {
                    return Ok(());
                },
                Err(e) => {
                    return Err(e);
                },
            };
            if entry.is_deleted() || (entry.is_hidden() && !show_hidden) {
                continue;
            }
            out.push((entry, depth));
            if let DirEntry::Short(sfn, _) = entry {
                if depth_limit > 0 && sfn.is_directory() && !sfn.is_self_or_parent() {
                    proof {
                        assert(0u8 & 3u8 != 3u8) by (bit_vector);
                    }
                    let mut d = self.open(&sfn, O_RDONLY);
                    match self.ls(dev, &mut d, show_hidden, depth + 1, depth_limit - 1, out) {
                        Ok(()) => (),
                        Err(e) => {
                            return Err(e);
                        },
                    }
                }
            }
        }
    }
}

} // verus!
