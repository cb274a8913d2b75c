//! File handles. A `File` is a small, caller-owned cursor over a file or
//! directory: current cluster, byte position, start cluster, owning volume,
//! an attribute byte and a flag byte, and the byte size.
//!
//! Attributes encode closed (0), regular file (0x08), subdirectory (0x10)
//! and root directory (0x40); flags encode readable (0x01), writable (0x02)
//! and contiguous (0x40).

use vstd::prelude::*;

use crate::dir_entry::SFN;

verus! {

pub const ATTR_CLOSED: u8 = 0;
pub const ATTR_FILE: u8 = 0x08;
pub const ATTR_SUBDIR: u8 = 0x10;
pub const ATTR_ROOT: u8 = 0x40;
pub const ATTR_DIRECTORY: u8 = 0x50;

pub const FLAG_READ: u8 = 0x01;
pub const FLAG_WRITE: u8 = 0x02;
pub const FLAG_CONTIGUOUS: u8 = 0x40;

/// FAT32 reserves clusters 0 and 1; the root directory chain starts at 2.
pub const ROOT_CLUSTER: u32 = 2;

// Open flags. Only the read modes are honored by this revision; the rest
// are reserved for future write support.
pub const O_RDONLY: u8 = 0x0;
pub const O_WRONLY: u8 = 0x1;
pub const O_RDWR: u8 = 0x2;
pub const O_AT_END: u8 = 0x4;
pub const O_APPEND: u8 = 0x8;
pub const O_CREAT: u8 = 0x10;
pub const O_TRUNC: u8 = 0x20;
pub const O_EXCL: u8 = 0x40;
pub const O_SYNC: u8 = 0x80;

pub const O_ACCESS_MODE: u8 = 0x3;

/// A cursor over an open file or directory. Cluster numbers are `u32`
/// because the FAT32 address space exceeds 16 bits.
#[derive(Clone, Copy, Debug)]
#[verifier::ext_equal]
pub struct File {
    pub cluster: u32,
    pub pos: u32,
    pub start_cluster: u32,
    pub vol_id: u8,
    pub attributes: u8,
    pub flags: u8,
    pub size: u32,
}

impl File {
    pub open spec fn spec_is_contiguous(&self) -> bool {
        self.flags & FLAG_CONTIGUOUS > 0
    }

    pub open spec fn spec_is_directory(&self) -> bool {
        self.attributes & ATTR_DIRECTORY > 0
    }

    pub open spec fn spec_is_file(&self) -> bool {
        self.attributes & ATTR_FILE > 0
    }

    pub open spec fn spec_is_open(&self) -> bool {
        self.attributes != ATTR_CLOSED
    }

    pub open spec fn spec_is_readable(&self) -> bool {
        self.flags & FLAG_READ > 0
    }

    pub open spec fn spec_is_root(&self) -> bool {
        self.attributes & ATTR_ROOT > 0
    }

    pub open spec fn spec_flags(&self) -> u8 {
        self.flags
    }

    pub open spec fn spec_size(&self) -> u32 {
        self.size
    }

    /// Well-formedness of a handle: a regular file's position never passes
    /// its size, and a root directory reports size zero and starts at the
    /// fixed FAT32 root cluster.
    pub open spec fn wf(&self) -> bool {
        &&& (self.spec_is_file() ==> self.pos <= self.size)
        &&& (self.spec_is_root() ==> self.size == 0 && self.start_cluster == ROOT_CLUSTER)
    }

    /// A closed handle that belongs to no volume; the volume id is a
    /// sentinel no mounted volume uses by convention.
    pub fn empty() -> (f: File)
        ensures
            f.cluster == 0,
            f.pos == 0,
            f.start_cluster == 0,
            f.vol_id == 123,
            f.attributes == ATTR_CLOSED,
            !f.spec_is_open(),
            f.spec_flags() == 0,
            f.spec_size() == 0,
            f.wf(),
    {
        proof {
            assert(0u8 & ATTR_FILE == 0) by (bit_vector);
            assert(0u8 & ATTR_ROOT == 0) by (bit_vector);
        }
        File {
            cluster: 0,
            pos: 0,
            start_cluster: 0,
            vol_id: 123,
            attributes: ATTR_CLOSED,
            flags: 0,
            size: 0,
        }
    }

    /// Closes the handle: clears the attributes and flags.
    pub fn close(&mut self)
        ensures
            !final(self).spec_is_open(),
            final(self).spec_flags() == 0,
            final(self).cluster == old(self).cluster,
            final(self).pos == old(self).pos,
            final(self).start_cluster == old(self).start_cluster,
            final(self).vol_id == old(self).vol_id,
            final(self).spec_size() == old(self).spec_size(),
            final(self).wf(),
    {
        self.attributes = ATTR_CLOSED;
        self.flags = 0;
        proof {
            assert(0u8 & ATTR_FILE == 0) by (bit_vector);
            assert(0u8 & ATTR_ROOT == 0) by (bit_vector);
        }
    }

    /// Opens a handle on `start_cluster` with the given attribute byte,
    /// open flags and size. The access-mode bits of `flags` must be one of
    /// `O_RDONLY`, `O_WRONLY` or `O_RDWR`.
    pub fn open_helper(vol_id: u8, start_cluster: u32, attributes: u8, flags: u8, size: u32) -> (f:
        File)
        requires
            flags & O_ACCESS_MODE != 3,
            attributes & ATTR_ROOT > 0 ==> size == 0 && start_cluster == ROOT_CLUSTER,
        ensures
            f.cluster == start_cluster,
            f.pos == 0,
            f.start_cluster == start_cluster,
            f.vol_id == vol_id,
            f.attributes == attributes,
            f.spec_size() == size,
            f.flags == (if flags & O_ACCESS_MODE == O_RDONLY {
                FLAG_READ
            } else if flags & O_ACCESS_MODE == O_WRONLY {
                FLAG_WRITE
            } else {
                FLAG_READ | FLAG_WRITE
            }),
            f.spec_is_readable() <==> (flags & O_ACCESS_MODE == O_RDONLY || flags & O_ACCESS_MODE
                == O_RDWR),
            !f.spec_is_contiguous(),
            f.wf(),
    {
        let mode = flags & O_ACCESS_MODE;
        proof {
            assert(flags & 3 == 0 || flags & 3 == 1 || flags & 3 == 2 || flags & 3 == 3)
                by (bit_vector);
            assert(FLAG_READ & FLAG_CONTIGUOUS == 0 && FLAG_READ & FLAG_READ > 0) by (bit_vector);
            assert(FLAG_WRITE & FLAG_CONTIGUOUS == 0 && FLAG_WRITE & FLAG_READ == 0)
                by (bit_vector);
            assert((FLAG_READ | FLAG_WRITE) & FLAG_CONTIGUOUS == 0 && (FLAG_READ | FLAG_WRITE)
                & FLAG_READ > 0) by (bit_vector);
        }
        let fflags: u8 = if mode == O_RDONLY {
            FLAG_READ
        } else if mode == O_WRONLY {
            FLAG_WRITE
        } else {
            FLAG_READ | FLAG_WRITE
        };
        File { cluster: start_cluster, pos: 0, start_cluster, vol_id, attributes, flags: fflags, size }
    }

    /// Opens a handle on the file or subdirectory described by a directory
    /// record. The handle's attribute byte keeps the record's read-only,
    /// hidden and system bits and encodes whether it is a regular file or a
    /// subdirectory.
    pub fn open(vol_id: u8, entry: &SFN, flags: u8) -> (f: File)
        requires
            flags & O_ACCESS_MODE != 3,
        ensures
            f.cluster == entry.spec_first_cluster(),
            f.pos == 0,
            f.start_cluster == entry.spec_first_cluster(),
            f.vol_id == vol_id,
            f.spec_size() == entry.size,
            f.spec_is_open(),
            f.spec_is_directory() == entry.spec_is_directory(),
            f.spec_is_file() == !entry.spec_is_directory(),
            !f.spec_is_root(),
            f.flags == (if flags & O_ACCESS_MODE == O_RDONLY {
                FLAG_READ
            } else if flags & O_ACCESS_MODE == O_WRONLY {
                FLAG_WRITE
            } else {
                FLAG_READ | FLAG_WRITE
            }),
            f.spec_is_readable() <==> (flags & O_ACCESS_MODE == O_RDONLY || flags & O_ACCESS_MODE
                == O_RDWR),
            !f.spec_is_contiguous(),
            f.wf(),
    {
        let kept = entry.file_attributes();
        let low = kept & 0x07;
        let attributes: u8 = if entry.is_directory() {
            low | ATTR_SUBDIR
        } else {
            low | ATTR_FILE
        };
        proof {
            let k = kept;
            let l = low;
            assert(l == k & 0x07 ==> ((l | 0x10u8) & 0x50u8 > 0 && (l | 0x10u8) & 0x08u8 == 0 && (l
                | 0x10u8) & 0x40u8 == 0 && (l | 0x10u8) != 0 && (l | 0x08u8) & 0x50u8 == 0 && (l
                | 0x08u8) & 0x08u8 > 0 && (l | 0x08u8) & 0x40u8 == 0 && (l | 0x08u8) != 0))
                by (bit_vector);
        }
        File::open_helper(vol_id, entry.first_cluster(), attributes, flags, entry.size())
    }

    /// Opens a handle on the volume's root directory.
    pub fn open_root(vol_id: u8, flags: u8) -> (f: File)
        requires
            flags & O_ACCESS_MODE != 3,
        ensures
            f.cluster == ROOT_CLUSTER,
            f.pos == 0,
            f.start_cluster == ROOT_CLUSTER,
            f.vol_id == vol_id,
            f.spec_size() == 0,
            f.attributes == ATTR_ROOT,
            f.spec_is_open(),
            f.spec_is_root(),
            f.spec_is_directory(),
            !f.spec_is_file(),
            f.flags == (if flags & O_ACCESS_MODE == O_RDONLY {
                FLAG_READ
            } else if flags & O_ACCESS_MODE == O_WRONLY {
                FLAG_WRITE
            } else {
                FLAG_READ | FLAG_WRITE
            }),
            f.spec_is_readable() <==> (flags & O_ACCESS_MODE == O_RDONLY || flags & O_ACCESS_MODE
                == O_RDWR),
            !f.spec_is_contiguous(),
            f.wf(),
    {
        proof {
            assert(ATTR_ROOT & 0x50u8 > 0 && ATTR_ROOT & 0x08u8 == 0 && ATTR_ROOT != 0 && ATTR_ROOT
                & 0x40u8 > 0) by (bit_vector);
        }
        File::open_helper(vol_id, ROOT_CLUSTER, ATTR_ROOT, flags, 0)
    }

    #[verifier::when_used_as_spec(spec_is_contiguous)]
    pub fn is_contiguous(&self) -> (r: bool)
        ensures
            r == self.spec_is_contiguous(),
    {
        self.flags & FLAG_CONTIGUOUS > 0
    }

    #[verifier::when_used_as_spec(spec_is_directory)]
    pub fn is_directory(&self) -> (r: bool)
        ensures
            r == self.spec_is_directory(),
    {
        self.attributes & ATTR_DIRECTORY > 0
    }

    #[verifier::when_used_as_spec(spec_is_file)]
    pub fn is_file(&self) -> (r: bool)
        ensures
            r == self.spec_is_file(),
    {
        self.attributes & ATTR_FILE > 0
    }

    #[verifier::when_used_as_spec(spec_is_open)]
    pub fn is_open(&self) -> (r: bool)
        ensures
            r == self.spec_is_open(),
    {
        self.attributes != ATTR_CLOSED
    }

    #[verifier::when_used_as_spec(spec_is_readable)]
    pub fn is_readable(&self) -> (r: bool)
        ensures
            r == self.spec_is_readable(),
    {
        self.flags & FLAG_READ > 0
    }

    #[verifier::when_used_as_spec(spec_is_root)]
    pub fn is_root(&self) -> (r: bool)
        ensures
            r == self.spec_is_root(),
    {
        self.attributes & ATTR_ROOT > 0
    }

    #[verifier::when_used_as_spec(spec_flags)]
    pub fn flags(&self) -> (r: u8)
        ensures
            r == self.spec_flags(),
    {
        self.flags
    }

    #[verifier::when_used_as_spec(spec_size)]
    pub fn size(&self) -> (r: u32)
        ensures
            r == self.spec_size(),
    {
        self.size
    }
}

/// The invariant every well-formed handle obeys: a regular file's cursor
/// stays within its size, and a root directory has size zero and starts at
/// cluster 2.
pub proof fn lemma_file_invariant(f: File)
    requires
        f.wf(),
    ensures
        f.spec_is_file() ==> f.pos <= f.spec_size(),
        f.spec_is_root() ==> f.spec_size() == 0 && f.start_cluster == ROOT_CLUSTER,
{
}

} // verus!
