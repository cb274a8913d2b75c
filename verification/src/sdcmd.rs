//! SD command numbers, the six-byte command frame, and R1 response
//! decoding.

use vstd::prelude::*;

use crate::crc::{crc7, spec_crc7};
use crate::errors::SdCardError;

verus! {

/// Commands with a plain R1 response.
#[derive(Clone, Copy, Debug)]
pub enum SdCommand {
    GoIdleState,
    StopTransmission,
    ReadBlock,
    ReadMultipleBlocks,
    AppCommand,
    SetCRC,
}

impl SdCommand {
    pub open spec fn spec_code(&self) -> u8 {
        match self {
            SdCommand::GoIdleState => 0,
            SdCommand::StopTransmission => 12,
            SdCommand::ReadBlock => 17,
            SdCommand::ReadMultipleBlocks => 18,
            SdCommand::AppCommand => 55,
            SdCommand::SetCRC => 59,
        }
    }

    #[verifier::when_used_as_spec(spec_code)]
    pub fn code(&self) -> (r: u8)
        ensures
            r == self.spec_code(),
    {
        match self {
            SdCommand::GoIdleState => 0,
            SdCommand::StopTransmission => 12,
            SdCommand::ReadBlock => 17,
            SdCommand::ReadMultipleBlocks => 18,
            SdCommand::AppCommand => 55,
            SdCommand::SetCRC => 59,
        }
    }
}

/// Application-specific commands; each is preceded by CMD55.
#[derive(Clone, Copy, Debug)]
pub enum SdAppCommand {
    SendOpCondition,
}

impl SdAppCommand {
    pub open spec fn spec_code(&self) -> u8 {
        41
    }

    #[verifier::when_used_as_spec(spec_code)]
    pub fn code(&self) -> (r: u8)
        ensures
            r == self.spec_code(),
    {
        41
    }
}

/// Commands with a 40-bit (R3/R7) response.
#[derive(Clone, Copy, Debug)]
pub enum SdCommandWide {
    SendIfCond,
    ReadOCR,
}

impl SdCommandWide {
    pub open spec fn spec_code(&self) -> u8 {
        match self {
            SdCommandWide::SendIfCond => 8,
            SdCommandWide::ReadOCR => 58,
        }
    }

    #[verifier::when_used_as_spec(spec_code)]
    pub fn code(&self) -> (r: u8)
        ensures
            r == self.spec_code(),
    {
        match self {
            SdCommandWide::SendIfCond => 8,
            SdCommandWide::ReadOCR => 58,
        }
    }
}

/// Registers read with an R2-style 16-byte payload.
#[derive(Clone, Copy, Debug)]
pub enum SdRegister {
    CSD,
    CID,
}

impl SdRegister {
    pub open spec fn spec_code(&self) -> u8 {
        match self {
            SdRegister::CSD => 9,
            SdRegister::CID => 10,
        }
    }

    #[verifier::when_used_as_spec(spec_code)]
    pub fn code(&self) -> (r: u8)
        ensures
            r == self.spec_code(),
    {
        match self {
            SdRegister::CSD => 9,
            SdRegister::CID => 10,
        }
    }
}

/// The six bytes of a command frame: `0x40 | cmd`, the argument big-endian,
/// and the CRC byte with the stop bit set.
pub open spec fn spec_command_frame(cmd: u8, arg: u32) -> Seq<u8> {
    let b0 = (0x40 | cmd) as u8;
    let b1 = ((arg >> 24) & 0xff) as u8;
    let b2 = ((arg >> 16) & 0xff) as u8;
    let b3 = ((arg >> 8) & 0xff) as u8;
    let b4 = (arg & 0xff) as u8;
    seq![b0, b1, b2, b3, b4, spec_crc7(seq![b0, b1, b2, b3, b4])]
}

/// Builds the six-byte frame for a command and argument.
pub fn command_frame(cmd: u8, arg: u32) -> (r: [u8; 6])
    ensures
        r@ == spec_command_frame(cmd, arg),
{
    proof {
        let a = arg;
        assert((a >> 24) & 0xff <= 0xff && (a >> 16) & 0xff <= 0xff && (a >> 8) & 0xff <= 0xff && (
        a & 0xff) <= 0xff) by (bit_vector);
    }
    let prefix: [u8; 5] = [
        0x40 | cmd,
        ((arg >> 24) & 0xff) as u8,
        ((arg >> 16) & 0xff) as u8,
        ((arg >> 8) & 0xff) as u8,
        (arg & 0xff) as u8,
    ];
    let crc = crc7(&prefix);
    let frame: [u8; 6] = [prefix[0], prefix[1], prefix[2], prefix[3], prefix[4], crc];
    proof {
        assert(prefix@ =~= spec_command_frame(cmd, arg).subrange(0, 5));
        assert(frame@ =~= spec_command_frame(cmd, arg));
    }
    frame
}

/// What an R1 status byte means during initialization: `0x01` (idle) is
/// the expected success; the error bits are ranked erase-reset, illegal
/// command, CRC error, address error, parameter error; anything else is
/// unknown.
pub open spec fn spec_decode_r1(b: u8) -> Result<(), SdCardError> {
    if b == 0x01 {
        Ok(())
    } else if b & 0x02 != 0 {
        Err(SdCardError::EraseReset)
    } else if b & 0x04 != 0 {
        Err(SdCardError::IllegalCommand)
    } else if b & 0x08 != 0 {
        Err(SdCardError::CRCError)
    } else if b & 0x10 != 0 {
        Err(SdCardError::AddressError)
    } else if b & 0x20 != 0 {
        Err(SdCardError::ParameterError)
    } else {
        Err(SdCardError::Unknown)
    }
}

/// Maps an R1 status byte to the outcome of a command that expects the
/// card to be idle.
pub fn decode_r1(b: u8) -> (r: Result<(), SdCardError>)
    ensures
        r == spec_decode_r1(b),
{
    if b == 0x01 {
        Ok(())
    } else if b & 0x02 != 0 {
        Err(SdCardError::EraseReset)
    } else if b & 0x04 != 0 {
        Err(SdCardError::IllegalCommand)
    } else if b & 0x08 != 0 {
        Err(SdCardError::CRCError)
    } else if b & 0x10 != 0 {
        Err(SdCardError::AddressError)
    } else if b & 0x20 != 0 {
        Err(SdCardError::ParameterError)
    } else {
        Err(SdCardError::Unknown)
    }
}

/// Outcome of a command that expects a zero (ready) status, as the read
/// commands do once initialization is over.
pub fn decode_r1_read(b: u8) -> (r: Result<(), SdCardError>)
    ensures
        (r is Ok <==> b == 0 || b == 0x01),
        (r matches Err(e) ==> spec_decode_r1(b) == Err::<(), SdCardError>(e)),
{
    if b == 0 {
        return Ok(());
    }
    match decode_r1(b) {
        Ok(()) => Ok(()),
        Err(e) => Err(e),
    }
}

/// Whether a CMD8 (SEND_IF_COND) 32-bit reply echoes the 3.3 V check
/// pattern in its trailing byte; a wrong echo is a broken card.
pub fn check_if_cond_echo(data: &[u8; 4]) -> (r: Result<(), SdCardError>)
    ensures
        r is Ok <==> data@[3] == 0xaa,
        (r matches Err(e) ==> e == SdCardError::CardCheckPatternMismatch),
{
    if data[3] != 0xaa {
        Err(SdCardError::CardCheckPatternMismatch)
    } else {
        Ok(())
    }
}

/// Whether the OCR's leading byte reports a powered-up high-capacity
/// card: the power-up-done and card-capacity bits both set.
pub fn ocr_high_capacity(data: &[u8; 4]) -> (r: bool)
    ensures
        r == (data@[0] & 0xc0 == 0xc0),
{
    data[0] & 0xc0 == 0xc0
}

/// Whether an ACMD41 status byte reports the card ready: every bit,
/// including idle, cleared.
pub fn acmd41_ready(b: u8) -> (r: bool)
    ensures
        r == (b == 0),
{
    b == 0
}

} // verus!
