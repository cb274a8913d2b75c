//! FAT32 directory records. Each record is 32 bytes on disk and is either
//! a short-name entry (SFN: 11-byte name, attributes, first cluster split
//! high/low, size) or a long-filename fragment (LFN: sequence byte, 13
//! UTF-16 code units in three unaligned runs, and the checksum of the
//! companion SFN).

use vstd::prelude::*;

verus! {

pub const DIRENT_ATTR_RO: u8 = 0x01;
pub const DIRENT_ATTR_HIDDEN: u8 = 0x02;
pub const DIRENT_ATTR_SYSTEM: u8 = 0x04;
pub const DIRENT_ATTR_VOLUME_LABEL: u8 = 0x08;
pub const DIRENT_ATTR_SUBDIR: u8 = 0x10;
pub const DIRENT_ATTR_LONG_NAME: u8 = 0x0f;

/// First name byte of a deleted record.
pub const DELETED: u8 = 0xe5;

pub const DOT: u8 = 0x2e;
pub const SPACE: u8 = 0x20;

/// A short-name (8.3) directory record.
#[derive(Clone, Copy, Debug)]
pub struct SFN {
    pub name: [u8; 11],
    pub attributes: u8,
    pub case_flags: u8,
    pub creation_time_ms: u8,
    pub creation_time: u16,
    pub creation_date: u16,
    pub access_date: u16,
    pub first_cluster_high: u16,
    pub modify_time: u16,
    pub modify_date: u16,
    pub first_cluster_low: u16,
    pub size: u32,
}

/// A long-filename fragment record.
#[derive(Clone, Copy, Debug)]
pub struct LFN {
    pub sequence_byte: u8,
    pub unicode1: [u8; 10],
    pub checksum_byte: u8,
    pub unicode2: [u8; 12],
    pub unicode3: [u8; 4],
}

/// One step of the FAT short-name checksum: rotate the accumulator right by
/// one bit, then add the next name byte, wrapping at 8 bits.
pub open spec fn spec_checksum_step(sum: u8, c: u8) -> u8 {
    ((((sum & 1) << 7 | sum >> 1) + c) % 256) as u8
}

/// The FAT checksum of the first `n` bytes of `name`.
pub open spec fn spec_checksum_prefix(name: Seq<u8>, n: nat) -> u8
    decreases n,
{
    if n == 0 {
        0u8
    } else {
        spec_checksum_step(spec_checksum_prefix(name, (n - 1) as nat), name[n - 1])
    }
}

/// The right-rotate-and-add checksum over an 11-byte short name, as used to
/// pair LFN fragments with their SFN anchor.
pub open spec fn spec_sfn_checksum(name: Seq<u8>) -> u8 {
    spec_checksum_prefix(name, 11)
}

/// True iff an 11-byte name is the `.` or `..` entry: a dot, optionally a
/// second dot, then spaces.
pub open spec fn spec_is_self_or_parent(name: Seq<u8>) -> bool {
    &&& name[0] == DOT
    &&& (name[1] == DOT || name[1] == SPACE)
    &&& forall|i: int| 2 <= i < 11 ==> name[i] == SPACE
}

impl SFN {
    /// Parses the 32-byte record at byte offset `off` of `s`.
    pub fn parse(s: &[u8], off: usize) -> (r: SFN)
        requires
            off + 32 <= s@.len(),
        ensures
            r.name@ == s@.subrange(off as int, off + 11),
            r.attributes == s@[off + 11],
            r.case_flags == s@[off + 12],
            r.creation_time_ms == s@[off + 13],
            r.creation_time == crate::bytes::spec_le16(s@[off + 14], s@[off + 15]),
            r.creation_date == crate::bytes::spec_le16(s@[off + 16], s@[off + 17]),
            r.access_date == crate::bytes::spec_le16(s@[off + 18], s@[off + 19]),
            r.first_cluster_high == crate::bytes::spec_le16(s@[off + 20], s@[off + 21]),
            r.modify_time == crate::bytes::spec_le16(s@[off + 22], s@[off + 23]),
            r.modify_date == crate::bytes::spec_le16(s@[off + 24], s@[off + 25]),
            r.first_cluster_low == crate::bytes::spec_le16(s@[off + 26], s@[off + 27]),
            r.size == crate::bytes::spec_le32(
                s@[off + 28],
                s@[off + 29],
                s@[off + 30],
                s@[off + 31],
            ),
    {
        let n = s.len();
        let mut name: [u8; 11] = [0u8; 11];
        let mut i: usize = 0;
        while i < 11
            invariant
                i <= 11,
                n == s@.len(),
                off + 32 <= n,
                name@.len() == 11,
                forall|j: int| 0 <= j < i ==> name@[j] == s@[off + j],
            decreases 11 - i,
        {
            name[i] = s[off + i];
            i += 1;
        }
        proof {
            assert(name@ =~= s@.subrange(off as int, off + 11));
        }
        SFN {
            name,
            attributes: s[off + 11],
            case_flags: s[off + 12],
            creation_time_ms: s[off + 13],
            creation_time: crate::bytes::le16_at(s, off + 14),
            creation_date: crate::bytes::le16_at(s, off + 16),
            access_date: crate::bytes::le16_at(s, off + 18),
            first_cluster_high: crate::bytes::le16_at(s, off + 20),
            modify_time: crate::bytes::le16_at(s, off + 22),
            modify_date: crate::bytes::le16_at(s, off + 24),
            first_cluster_low: crate::bytes::le16_at(s, off + 26),
            size: crate::bytes::le32_at(s, off + 28),
        }
    }

    /// Attribute bits a file handle inherits from its directory record.
    pub fn file_attributes(&self) -> (r: u8)
        ensures
            r == self.attributes & (DIRENT_ATTR_RO | DIRENT_ATTR_HIDDEN | DIRENT_ATTR_SYSTEM
                | DIRENT_ATTR_SUBDIR),
    {
        self.attributes & (DIRENT_ATTR_RO | DIRENT_ATTR_HIDDEN | DIRENT_ATTR_SYSTEM
            | DIRENT_ATTR_SUBDIR)
    }

    pub open spec fn spec_is_hidden(&self) -> bool {
        self.attributes & DIRENT_ATTR_HIDDEN > 0
    }

    #[verifier::when_used_as_spec(spec_is_hidden)]
    pub fn is_hidden(&self) -> (r: bool)
        ensures
            r == self.spec_is_hidden(),
    {
        self.attributes & DIRENT_ATTR_HIDDEN > 0
    }

    pub open spec fn spec_is_directory(&self) -> bool {
        self.attributes & DIRENT_ATTR_SUBDIR > 0
    }

    #[verifier::when_used_as_spec(spec_is_directory)]
    pub fn is_directory(&self) -> (r: bool)
        ensures
            r == self.spec_is_directory(),
    {
        self.attributes & DIRENT_ATTR_SUBDIR > 0
    }

    /// True iff the record is a file or subdirectory, not a volume label.
    pub fn is_file_or_subdir(&self) -> (r: bool)
        ensures
            r == (self.attributes & DIRENT_ATTR_VOLUME_LABEL == 0),
    {
        self.attributes & DIRENT_ATTR_VOLUME_LABEL == 0
    }

    pub open spec fn spec_is_long_name_component(&self) -> bool {
        self.attributes == DIRENT_ATTR_LONG_NAME
    }

    /// True iff the record is a long-filename fragment in disguise.
    #[verifier::when_used_as_spec(spec_is_long_name_component)]
    pub fn is_long_name_component(&self) -> (r: bool)
        ensures
            r == self.spec_is_long_name_component(),
    {
        self.attributes == DIRENT_ATTR_LONG_NAME
    }

    /// True iff the record is the `.` or `..` entry of a directory.
    pub fn is_self_or_parent(&self) -> (r: bool)
        ensures
            r == spec_is_self_or_parent(self.name@),
    {
        if !(self.name[0] == DOT) {
            return false;
        }
        if !(self.name[1] == DOT || self.name[1] == SPACE) {
            return false;
        }
        let mut i: usize = 2;
        while i < 11
            invariant
                2 <= i <= 11,
                forall|j: int| 2 <= j < i ==> self.name@[j] == SPACE,
            decreases 11 - i,
        {
            if self.name[i] != SPACE {
                return false;
            }
            i += 1;
        }
        true
    }

    pub fn name(&self) -> (r: &[u8])
        ensures
            r@ == self.name@,
    {
        self.name.as_slice()
    }

    pub fn size(&self) -> (r: u32)
        ensures
            r == self.size,
    {
        self.size
    }

    /// The first cluster of the record's data, split high/low on disk.
    pub open spec fn spec_first_cluster(&self) -> u32 {
        ((self.first_cluster_high as u32) << 16) | (self.first_cluster_low as u32)
    }

    #[verifier::when_used_as_spec(spec_first_cluster)]
    pub fn first_cluster(&self) -> (r: u32)
        ensures
            r == self.spec_first_cluster(),
    {
        ((self.first_cluster_high as u32) << 16) | (self.first_cluster_low as u32)
    }

    /// The FAT checksum of the 11-byte name, used to validate LFN runs.
    pub fn checksum(&self) -> (r: u8)
        ensures
            r == spec_sfn_checksum(self.name@),
    {
        let mut sum: u8 = 0;
        let mut i: usize = 0;
        while i < 11
            invariant
                i <= 11,
                sum == spec_checksum_prefix(self.name@, i as nat),
            decreases 11 - i,
        {
            proof {
                let s = sum;
                assert(((s & 1) << 7 | s >> 1) <= 255) by (bit_vector);
            }
            sum = ((sum & 1) << 7 | sum >> 1).wrapping_add(self.name[i]);
            i += 1;
        }
        sum
    }
}

impl LFN {
    /// Parses the 32-byte long-name record at byte offset `off` of `s`.
    pub fn parse(s: &[u8], off: usize) -> (r: LFN)
        requires
            off + 32 <= s@.len(),
        ensures
            r.sequence_byte == s@[off as int],
            r.unicode1@ == s@.subrange(off + 1, off + 11),
            r.checksum_byte == s@[off + 13],
            r.unicode2@ == s@.subrange(off + 14, off + 26),
            r.unicode3@ == s@.subrange(off + 28, off + 32),
    {
        let n = s.len();
        let mut unicode1: [u8; 10] = [0u8; 10];
        let mut i: usize = 0;
        while i < 10
            invariant
                i <= 10,
                n == s@.len(),
                off + 32 <= n,
                forall|j: int| 0 <= j < i ==> unicode1@[j] == s@[off + 1 + j],
            decreases 10 - i,
        {
            unicode1[i] = s[off + 1 + i];
            i += 1;
        }
        let mut unicode2: [u8; 12] = [0u8; 12];
        let mut k: usize = 0;
        while k < 12
            invariant
                k <= 12,
                n == s@.len(),
                off + 32 <= n,
                forall|j: int| 0 <= j < k ==> unicode2@[j] == s@[off + 14 + j],
            decreases 12 - k,
        {
            unicode2[k] = s[off + 14 + k];
            k += 1;
        }
        let mut unicode3: [u8; 4] = [0u8; 4];
        let mut m: usize = 0;
        while m < 4
            invariant
                m <= 4,
                n == s@.len(),
                off + 32 <= n,
                forall|j: int| 0 <= j < m ==> unicode3@[j] == s@[off + 28 + j],
            decreases 4 - m,
        {
            unicode3[m] = s[off + 28 + m];
            m += 1;
        }
        proof {
            assert(unicode1@ =~= s@.subrange(off + 1, off + 11));
            assert(unicode2@ =~= s@.subrange(off + 14, off + 26));
            assert(unicode3@ =~= s@.subrange(off + 28, off + 32));
        }
        LFN { sequence_byte: s[off], unicode1, checksum_byte: s[off + 13], unicode2, unicode3 }
    }

    /// The low byte of the `i`-th UTF-16 code unit carried by this
    /// fragment. The 13 units sit in three unaligned runs.
    pub open spec fn spec_get_char(&self, i: int) -> u8 {
        if i < 5 {
            self.unicode1@[2 * i]
        } else if i < 11 {
            self.unicode2@[2 * i - 10]
        } else if i < 13 {
            self.unicode3@[2 * i - 22]
        } else {
            0
        }
    }

    pub fn get_char(&self, i: usize) -> (r: u8)
        requires
            0 <= i,
        ensures
            r == self.spec_get_char(i as int),
    {
        if i < 5 {
            self.unicode1[2 * i]
        } else if i < 11 {
            self.unicode2[2 * i - 10]
        } else if i < 13 {
            self.unicode3[2 * i - 22]
        } else {
            0
        }
    }

    pub fn checksum(&self) -> (r: u8)
        ensures
            r == self.checksum_byte,
    {
        self.checksum_byte
    }

    /// The 1-indexed sequence number of this fragment within its run.
    pub open spec fn spec_sequence_num(&self) -> usize {
        (self.sequence_byte & 0x1f) as usize
    }

    #[verifier::when_used_as_spec(spec_sequence_num)]
    pub fn sequence_num(&self) -> (r: usize)
        ensures
            r == self.spec_sequence_num(),
    {
        (self.sequence_byte & 0x1f) as usize
    }

    /// True iff this is the logically last (physically first) fragment.
    pub open spec fn spec_is_last_in_sequence(&self) -> bool {
        self.sequence_byte & 0x40 > 0
    }

    #[verifier::when_used_as_spec(spec_is_last_in_sequence)]
    pub fn is_last_in_sequence(&self) -> (r: bool)
        ensures
            r == self.spec_is_last_in_sequence(),
    {
        self.sequence_byte & 0x40 > 0
    }
}

/// A directory record as yielded by the directory iterator: a long-name
/// fragment carrying the anchor's attribute byte, or a short-name record
/// carrying whether a long-name run preceded it.
#[derive(Clone, Copy, Debug)]
pub enum DirEntry {
    Long(LFN, u8),
    Short(SFN, bool),
}

impl DirEntry {
    pub open spec fn spec_self_or_parent(&self) -> bool {
        match self {
            DirEntry::Long(..) => false,
            DirEntry::Short(sfn, _) => spec_is_self_or_parent(sfn.name@),
        }
    }

    pub fn is_self_or_parent(&self) -> (r: bool)
        ensures
            r == self.spec_self_or_parent(),
    {
        match self {
            DirEntry::Long(..) => false,
            DirEntry::Short(sfn, _) => sfn.is_self_or_parent(),
        }
    }

    pub open spec fn spec_deleted(&self) -> bool {
        match self {
            DirEntry::Long(lfn, _) => lfn.sequence_byte == DELETED,
            DirEntry::Short(sfn, _) => sfn.name@[0] == DELETED,
        }
    }

    pub fn is_deleted(&self) -> (r: bool)
        ensures
            r == self.spec_deleted(),
    {
        match self {
            DirEntry::Long(lfn, _) => lfn.sequence_byte == DELETED,
            DirEntry::Short(sfn, _) => sfn.name[0] == DELETED,
        }
    }

    pub open spec fn spec_hidden(&self) -> bool {
        match self {
            DirEntry::Long(_, attr) => attr & DIRENT_ATTR_HIDDEN > 0,
            DirEntry::Short(sfn, _) => sfn.spec_is_hidden(),
        }
    }

    pub fn is_hidden(&self) -> (r: bool)
        ensures
            r == self.spec_hidden(),
    {
        match self {
            DirEntry::Long(_, attr) => *attr & DIRENT_ATTR_HIDDEN > 0,
            DirEntry::Short(sfn, _) => sfn.is_hidden(),
        }
    }
}

} // verus!
