//! A read-oriented FAT32 filesystem stack for SD/SDHC cards driven over SPI.
//!
//! The crate is split in two halves that mirror the hardware stack:
//!
//! * `sdcard` and its helpers implement the SD card block device: the SPI
//!   command protocol (CRC7-framed commands, R1/R3/R7 responses), the
//!   power-up handshake, the register reads, and a two-slot sector buffer
//!   pool with a mode/tag cache.
//! * `mbr`, `partition`, `volume`, `dir_iter` and `lfn` implement the FAT32
//!   on-disk layer: partition table parsing, BIOS parameter block validation,
//!   cluster-chain traversal, the long-filename directory iterator, path
//!   resolution, and the byte-accurate seek/read state machine.
//!
//! The FAT32 layer is written against the `SectorRead` trait so that it can
//!   be driven by any sector source; `MemDisk` is a verified in-memory
//!   implementation used by the test suite, and an SPI-attached card can be
//!   adapted to it by unverified glue.

pub mod bytes;
pub mod cardinfo;
pub mod crc;
pub mod device;
pub mod dir_entry;
pub mod errors;
pub mod file;
pub mod mbr;
pub mod partition;
pub mod volume;
pub mod dir_iter;
pub mod lfn;
pub mod sdcmd;
pub mod sdcard;
pub mod spi;
