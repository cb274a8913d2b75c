//! Error taxonomy: one flat enum for the block device and one for the
//! filesystem layer. Every block-device failure is collapsed into
//! `FatError::BlockDeviceFailed` at the filesystem boundary.

use vstd::prelude::*;

verus! {

/// Errors surfaced by the SD card block device.
#[derive(Clone, Copy, Debug, PartialEq, Eq, Structural)]
pub enum SdCardError {
    NoResponse,
    EraseReset,
    IllegalCommand,
    CRCError,
    EraseSequenceError,
    AddressError,
    ParameterError,
    RegisterError,
    ReadError,
    SDVersionOneUnsupported,
    CardCheckPatternMismatch,
    DataBufferLocked,
    Timeout,
    Unknown,
}

/// Errors surfaced by the FAT32 layer.
#[derive(Clone, Copy, Debug, PartialEq, Eq, Structural)]
pub enum FatError {
    BlockDeviceFailed,
    CorruptMBR,
    BadPartitionNumber,
    CorruptPartition,
    FileClosed,
    SeekError,
    InvalidCluster,
    CorruptFat,
    VolumeIdMismatch,
    NotADirectory,
    InvalidPosition,
    ReadError,
    UnsupportedVersion,
    TooManySubdirs,
    LfnParseError,
    ParsePathError,
    FileNotFound,
    Unknown,
}

impl FatError {
    /// Every block-device error maps to the single bottom-level filesystem
    /// failure kind.
    pub fn from_sd(_e: SdCardError) -> (r: FatError)
        ensures
            r == FatError::BlockDeviceFailed,
    {
        FatError::BlockDeviceFailed
    }
}

} // verus!
