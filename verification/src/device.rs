//! The sector source the FAT32 layer reads from.
//!
//! `SectorRead` abstracts a block device as a mathematical map from sector
//! index to 512 bytes. A read may fail (a real card can time out or be
//! removed), but whatever it returns must agree with the model, and reading
//! never changes the model. `MemDisk` is a verified in-memory
//! implementation backed by a flat byte vector; an SPI-attached `SdCard`
//! can be adapted to the trait by platform glue outside this crate.

use vstd::prelude::*;

use crate::errors::FatError;

verus! {

pub const BLOCK_SIZE: usize = 512;

/// Buffer-pool slot reserved for filesystem metadata (FAT sectors,
/// directory sectors, the boot sector).
pub const FS_BUFFER: usize = 0;

/// Buffer-pool slot reserved for file payload sectors.
pub const DATA_BUFFER: usize = 1;

/// A read-only block device holding 512-byte sectors.
pub trait SectorRead: Sized {
    /// The device contents: a map from sector index to the 512 bytes the
    /// device would serve for that sector.
    spec fn model(&self) -> Map<int, Seq<u8>>;

    /// Reads one sector. `buffer_index` names the buffer-pool slot the
    /// caller wants the sector staged in (`FS_BUFFER` or `DATA_BUFFER`);
    /// implementations that cache sectors key their cache by it.
    ///
    /// Success is up to the device, but a successful read returns exactly
    /// the modeled bytes, and reading never changes the model.
    fn read_sector(&mut self, buffer_index: usize, lba: u32) -> (r: Result<[u8; BLOCK_SIZE], FatError>)
        requires
            buffer_index < 2,
        ensures
            final(self).model() == old(self).model(),
            (r matches Ok(s) ==> old(self).model().dom().contains(lba as int) && s@ == old(
                self,
            ).model()[lba as int]),
            (r matches Err(e) ==> e == FatError::BlockDeviceFailed),
    ;
}

/// An in-memory block device: sector `i` is bytes `512*i .. 512*i + 512`
/// of `data`. Any trailing partial sector is not addressable.
pub struct MemDisk {
    pub data: Vec<u8>,
}

impl MemDisk {
    /// Number of whole sectors held.
    pub open spec fn spec_sector_count(&self) -> int {
        self.data@.len() as int / 512
    }

    pub fn new(data: Vec<u8>) -> (d: MemDisk)
        ensures
            d.data == data,
    {
        MemDisk { data }
    }

    pub fn sector_count(&self) -> (r: usize)
        ensures
            r == self.spec_sector_count(),
    {
        self.data.len() / 512
    }
}

impl SectorRead for MemDisk {
    open spec fn model(&self) -> Map<int, Seq<u8>> {
        Map::new(
            |i: int| 0 <= i < self.spec_sector_count(),
            |i: int| self.data@.subrange(512 * i, 512 * i + 512),
        )
    }

    fn read_sector(&mut self, buffer_index: usize, lba: u32) -> (r: Result<[u8; BLOCK_SIZE], FatError>)
        ensures
            r is Ok <==> lba < old(self).spec_sector_count(),
    {
        let count = self.data.len() / 512;
        if (lba as usize) >= count {
            return Err(FatError::BlockDeviceFailed);
        }
        let base: usize = (lba as usize) * 512;
        proof {
            vstd::arithmetic::div_mod::lemma_fundamental_div_mod(self.data@.len() as int, 512);
            assert((lba as int) * 512 + 512 <= (self.data@.len() as int / 512) * 512) by (nonlinear_arith)
                requires
                    (lba as int) < self.data@.len() as int / 512,
            ;
        }
        let mut out: [u8; BLOCK_SIZE] = [0u8; BLOCK_SIZE];
        let mut i: usize = 0;
        while i < 512
            invariant
                i <= 512,
                base == (lba as int) * 512,
                base + 512 <= self.data@.len(),
                out@.len() == 512,
                forall|j: int| 0 <= j < i ==> out@[j] == self.data@[base + j],
            decreases 512 - i,
        {
            out[i] = self.data[base + i];
            i += 1;
        }
        proof {
            assert(out@ =~= self.data@.subrange(512 * (lba as int), 512 * (lba as int) + 512));
        }
        Ok(out)
    }
}

} // verus!
