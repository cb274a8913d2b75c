//! Card identification (CID) and card-specific data (CSD) registers.
//!
//! The registers arrive as 16 raw bytes; `CardId::parse` and
//! `CardSpecificData::parse` are pure and fully specified, so whatever
//! the card answered is decoded exactly as documented. The `SdCard`
//! methods fetch the bytes over the bus and hand them to the parsers.

use vstd::prelude::*;

use crate::errors::SdCardError;
use crate::device::BLOCK_SIZE;
use crate::sdcard::SdCard;
use crate::sdcmd::SdRegister;
use crate::spi::SpiLink;

verus! {

/// The decoded card identification register.
#[derive(Clone, Copy, Debug)]
pub struct CardId {
    pub manufacturer_id: u8,
    pub oem_id: (u8, u8),
    pub product_name: [u8; 5],
    pub product_revision: (u8, u8),
    pub product_serial_num: u32,
    pub manufacturing_date_year: u16,
    pub manufacturing_date_month: u8,
}

impl CardId {
    /// Decodes the 16 CID bytes: manufacturer, OEM pair, five name
    /// bytes, revision nibbles, big-endian serial, and the packed
    /// manufacturing date.
    pub fn parse(data: &[u8; 16]) -> (r: CardId)
        ensures
            r.manufacturer_id == data@[0],
            r.oem_id == (data@[1], data@[2]),
            r.product_name@ == data@.subrange(3, 8),
            r.product_revision == ((data@[8] & 0xf0), (data@[8] & 0x0f)),
            r.product_serial_num == ((data@[9] as u32) << 24 | (data@[10] as u32) << 16 | (
            data@[11] as u32) << 8 | (data@[12] as u32)),
            r.manufacturing_date_year == 2000 + (((data@[13] << 4) as u16) | ((data@[14] >> 4)
                as u16)),
            r.manufacturing_date_month == data@[14] & 0x0f,
    {
        let name: [u8; 5] = [data[3], data[4], data[5], data[6], data[7]];
        proof {
            assert(name@ =~= data@.subrange(3, 8));
            let hi = data@[13];
            let lo = data@[14];
            assert(((hi << 4) as u16 | (lo >> 4) as u16) <= 255) by (bit_vector);
        }
        CardId {
            manufacturer_id: data[0],
            oem_id: (data[1], data[2]),
            product_name: name,
            product_revision: (data[8] & 0xf0, data[8] & 0x0f),
            product_serial_num: (data[9] as u32) << 24 | (data[10] as u32) << 16 | (data[11]
                as u32) << 8 | (data[12] as u32),
            manufacturing_date_year: 2000 + ((data[13] << 4) as u16 | (data[14] >> 4) as u16),
            manufacturing_date_month: data[14] & 0x0f,
        }
    }

    pub fn manufacturer_id(&self) -> (r: u8)
        ensures
            r == self.manufacturer_id,
    {
        self.manufacturer_id
    }

    pub fn oem_id(&self) -> (r: (u8, u8))
        ensures
            r == self.oem_id,
    {
        self.oem_id
    }

    pub fn product_name(&self) -> (r: [u8; 5])
        ensures
            r == self.product_name,
    {
        self.product_name
    }

    pub fn product_revision(&self) -> (r: (u8, u8))
        ensures
            r == self.product_revision,
    {
        self.product_revision
    }

    pub fn product_serial_num(&self) -> (r: u32)
        ensures
            r == self.product_serial_num,
    {
        self.product_serial_num
    }

    pub fn manufacturing_date(&self) -> (r: (u16, u8))
        ensures
            r == (self.manufacturing_date_year, self.manufacturing_date_month),
    {
        (self.manufacturing_date_year, self.manufacturing_date_month)
    }
}

/// The decoded card-specific data register, CSD version 2.
#[derive(Clone, Copy, Debug)]
pub struct CardSpecificData {
    pub version: u8,
    pub tran_speed_mhz: u8,
    pub supported_command_classes: u16,
    pub max_read_block_len_bytes: usize,
    pub capacity_mib: u32,
}

impl CardSpecificData {
    /// Decodes the 16 CSD bytes. Only CSD version 2 (high capacity) is
    /// accepted; the capacity is the 22-bit C_SIZE field scaled to MiB.
    pub fn parse(data: &[u8; 16]) -> (r: Result<CardSpecificData, SdCardError>)
        ensures
            (r matches Ok(c) ==> {
                &&& (data@[0] >> 6) + 1 == 2
                &&& c.version == 2
                &&& c.tran_speed_mhz == (if data@[3] == 0x32 {
                    25u8
                } else if data@[3] == 0x5a {
                    50u8
                } else {
                    0u8
                })
                &&& c.supported_command_classes == ((data@[4] as u16) << 4) | ((data@[5] as u16)
                    >> 4)
                &&& c.max_read_block_len_bytes == (if data@[5] & 0x0f == 0x09 {
                    512usize
                } else {
                    0usize
                })
                &&& c.capacity_mib == ((((((((data@[7] & 0x3f) as u64) << 16) | ((data@[8] as u64)
                    << 8) | (data@[9] as u64)) + 1) as u64) * 512000) as u64) >> 20
            }),
            r == Err::<CardSpecificData, SdCardError>(SdCardError::SDVersionOneUnsupported) <==> (
            data@[0] >> 6) + 1 != 2,
            (r matches Err(e) ==> e == SdCardError::SDVersionOneUnsupported),
    {
        proof {
            let b = data@[0];
            assert(b >> 6 <= 3) by (bit_vector);
        }
        let version = (data[0] >> 6) + 1;
        if version != 2 {
            return Err(SdCardError::SDVersionOneUnsupported);
        }
        let c_size: u64 = (((data[7] & 0x3f) as u64) << 16) | ((data[8] as u64) << 8) | (data[9]
            as u64);
        proof {
            let b7 = data@[7];
            let b8 = data@[8];
            let b9 = data@[9];
            assert(((((b7 & 0x3f) as u64) << 16) | ((b8 as u64) << 8) | (b9 as u64))
                <= 0x003f_ffffu64) by (bit_vector);
            assert((c_size + 1) * 512000 <= 2147483648000) by (nonlinear_arith)
                requires
                    c_size <= 0x003f_ffffu64,
            ;
        }
        let product: u64 = (c_size + 1) * 512000;
        proof {
            let pd = product;
            assert(pd <= 2147483648000u64 ==> pd >> 20 <= 0xffff_ffffu64) by (bit_vector);
        }
        let capacity: u64 = product >> 20;
        Ok(
            CardSpecificData {
                version,
                tran_speed_mhz: if data[3] == 0x32 {
                    25
                } else if data[3] == 0x5a {
                    50
                } else {
                    0
                },
                supported_command_classes: ((data[4] as u16) << 4) | ((data[5] as u16) >> 4),
                max_read_block_len_bytes: if data[5] & 0x0f == 0x09 {
                    BLOCK_SIZE
                } else {
                    0
                },
                capacity_mib: capacity as u32,
            },
        )
    }

    pub fn version(&self) -> (r: u8)
        ensures
            r == self.version,
    {
        self.version
    }

    pub fn tran_speed_mhz(&self) -> (r: u8)
        ensures
            r == self.tran_speed_mhz,
    {
        self.tran_speed_mhz
    }

    pub fn supported_command_classes(&self) -> (r: u16)
        ensures
            r == self.supported_command_classes,
    {
        self.supported_command_classes
    }

    pub fn max_read_block_len_bytes(&self) -> (r: usize)
        ensures
            r == self.max_read_block_len_bytes,
    {
        self.max_read_block_len_bytes
    }

    pub fn capacity_mib(&self) -> (r: u32)
        ensures
            r == self.capacity_mib,
    {
        self.capacity_mib
    }
}

impl<S: SpiLink> SdCard<S> {
    /// Reads and decodes the card identification register. The card
    /// chooses the bytes; the decoding itself is exact (`CardId::parse`).
    pub fn read_card_id(&mut self) -> (r: Result<CardId, SdCardError>)
        ensures
            final(self).spec_pool_unchanged(old(self)),
    {
        let data = match self.read_register(SdRegister::CID) {
            Ok(d) => d,
            Err(e) => {
                return Err(e);
            },
        };
        Ok(CardId::parse(&data))
    }

    /// Reads and decodes the card-specific data register; only CSD
    /// version 2 cards are accepted.
    pub fn read_card_specific_data(&mut self) -> (r: Result<CardSpecificData, SdCardError>)
        ensures
            final(self).spec_pool_unchanged(old(self)),
    {
        let data = match self.read_register(SdRegister::CSD) {
            Ok(d) => d,
            Err(e) => {
                return Err(e);
            },
        };
        CardSpecificData::parse(&data)
    }
}

} // verus!
