//! The SD card block device: command transport, the power-up handshake,
//! and a two-slot sector buffer pool with a mode and cached-sector tag.
//!
//! The buffer pool holds one slot for filesystem metadata and one for
//! file payload. A repeated read of the sector a slot already caches is a
//! buffer hit: the card sees no traffic at all, which is stated in
//! `read_sector_as`'s contract as the link and buffers being left exactly
//! as they were.
//!
//! Nothing is assumed about the bytes the card returns; the contracts
//! here pin down the state machine — mode and tag transitions, the
//! chip-select discipline, bounded waits — and leave the payload bytes to
//! the layers above.

use vstd::prelude::*;

use crate::device::BLOCK_SIZE;
use crate::errors::SdCardError;
use crate::sdcmd::{acmd41_ready, check_if_cond_echo, command_frame, decode_r1, decode_r1_read, ocr_high_capacity, SdAppCommand, SdCommand, SdCommandWide, SdRegister};
use crate::spi::SpiLink;

verus! {

/// CMD0 is retried this many times during power-up.
pub const SD_CMD0_RETRY_COUNT: u8 = 10;

/// Milliseconds allowed for ACMD41 polling during power-up.
pub const SD_INIT_TIMEOUT_MS: u32 = 2000;

/// Milliseconds allowed for the data-start token of a read.
pub const SD_READ_TIMEOUT_MS: u32 = 300;

/// Byte-pump iterations allowed where only the clock bounds a wait;
/// keeps every wait finite even if the clock stalls.
pub const SD_WAIT_BYTE_CAP: u32 = 0x0100_0000;

/// The data-start token that precedes a payload.
pub const DATA_START_TOKEN: u8 = 0xfe;

/// Detected card version. Only v2 cards with high capacity complete
/// power-up; they are addressed in 512-byte sectors.
#[derive(Clone, Copy, Debug, PartialEq, Eq, Structural)]
pub enum SdVersion {
    One,
    Two { sdhc: bool },
}

/// A sector buffer's state: free, pinned by a caller, or holding a read
/// (or, in a future revision, written) sector.
#[derive(Clone, Copy, Debug, PartialEq, Eq, Structural)]
pub enum DataMode {
    Idle,
    Locked,
    Read,
    Write,
}

/// An initialized SD card on an SPI link, with the two-slot sector
/// buffer pool.
pub struct SdCard<S: SpiLink> {
    pub version: SdVersion,
    pub link: S,
    pub buffers: [[u8; BLOCK_SIZE]; 2],
    pub modes: [DataMode; 2],
    pub sectors_in_buffer: [u32; 2],
    pub saved_modes: [DataMode; 2],
    pub last_op_mode: DataMode,
    pub last_sector: u32,
}

impl<S: SpiLink> SdCard<S> {
    /// The buffer pool and version are untouched.
    pub open spec fn spec_pool_unchanged(&self, old_card: &Self) -> bool {
        &&& self.version == old_card.version
        &&& self.buffers == old_card.buffers
        &&& self.modes == old_card.modes
        &&& self.sectors_in_buffer == old_card.sectors_in_buffer
        &&& self.saved_modes == old_card.saved_modes
    }

    /// The sequential-read memo is untouched.
    pub open spec fn spec_memo_unchanged(&self, old_card: &Self) -> bool {
        &&& self.last_op_mode == old_card.last_op_mode
        &&& self.last_sector == old_card.last_sector
    }

    /// Drives chip select low: the card listens.
    fn select(&mut self)
        ensures
            final(self).spec_pool_unchanged(old(self)),
            final(self).spec_memo_unchanged(old(self)),
    {
        self.link.cs_low();
    }

    /// Drives chip select high: the bus is released.
    fn unselect(&mut self)
        ensures
            final(self).spec_pool_unchanged(old(self)),
            final(self).spec_memo_unchanged(old(self)),
    {
        self.link.cs_high();
    }

    /// Clocks one byte out and one in.
    fn transfer(&mut self, byte: u8) -> (r: u8)
        ensures
            final(self).spec_pool_unchanged(old(self)),
            final(self).spec_memo_unchanged(old(self)),
    {
        self.link.transfer(byte)
    }

    /// Frames and sends one command and polls for its R1 response byte.
    ///
    /// The frame is six bytes: `0x40 | cmd`, the big-endian argument and
    /// the CRC7 byte. The response is polled for at most ten bytes; a
    /// card that never clears the busy bit is `NoResponse`, and a card
    /// that never reports ready beforehand is `Timeout`.
    fn send_frame_and_poll(&mut self, cmd: u8, arg: u32) -> (r: Result<u8, SdCardError>)
        ensures
            final(self).spec_pool_unchanged(old(self)),
            final(self).last_op_mode == old(self).last_op_mode,
            final(self).last_sector == old(self).last_sector,
            (r matches Ok(b) ==> b & 0x80 == 0),
            (r matches Err(e) ==> e == SdCardError::NoResponse || e == SdCardError::Timeout),
    {
        // Wait for the card to report ready. CMD0 is sent regardless,
        // and CMD12 interrupts an active read stream, which holds the
        // bus busy on purpose.
        if cmd != 0 && cmd != 12 {
            let mut waited: u32 = 0;
            loop
                invariant
                    self.spec_pool_unchanged(old(self)),
                    self.last_op_mode == old(self).last_op_mode,
                    self.last_sector == old(self).last_sector,
                decreases SD_WAIT_BYTE_CAP - waited,
            {
                if self.transfer(0xff) == 0xff {
                    break ;
                }
                if waited >= SD_WAIT_BYTE_CAP {
                    return Err(SdCardError::Timeout);
                }
                waited += 1;
            }
        }

        let frame = command_frame(cmd, arg);
        let mut i: usize = 0;
        while i < 6
            invariant
                self.spec_pool_unchanged(old(self)),
                self.last_op_mode == old(self).last_op_mode,
                self.last_sector == old(self).last_sector,
            decreases 6 - i,
        {
            self.transfer(frame[i]);
            i += 1;
        }

        // The card needs at least eight clocks before it answers.
        self.transfer(0xff);

        // Poll for a response: the card holds the top bit until ready.
        let mut polls: u8 = 0;
        while polls < 10
            invariant
                self.spec_pool_unchanged(old(self)),
                self.last_op_mode == old(self).last_op_mode,
                self.last_sector == old(self).last_sector,
            decreases 10 - polls,
        {
            let response = self.transfer(0xff);
            if response & 0x80 == 0 {
                proof {
                    let b = response;
                    assert(b & 0x80 == 0 ==> b & 0x80 == 0) by (bit_vector);
                }
                return Ok(response);
            }
            polls += 1;
        }
        Err(SdCardError::NoResponse)
    }

    /// Ends an open multi-sector stream with CMD12 and clears the
    /// sequential-read memo.
    fn stop_stream(&mut self) -> (r: Result<(), SdCardError>)
        ensures
            final(self).spec_pool_unchanged(old(self)),
            final(self).last_op_mode == DataMode::Idle,
            (r matches Err(e) ==> e == SdCardError::NoResponse || e == SdCardError::Timeout),
    {
        let res = self.send_frame_and_poll(SdCommand::StopTransmission.code(), 0);
        self.last_op_mode = DataMode::Idle;
        match res {
            Ok(_) => Ok(()),
            Err(e) => Err(e),
        }
    }

    /// Sends one command, first ending any open read stream: issuing any
    /// other command invalidates the sequential-read memo.
    fn send_card_command_helper(&mut self, cmd: u8, arg: u32) -> (r: Result<u8, SdCardError>)
        ensures
            final(self).spec_pool_unchanged(old(self)),
            final(self).last_op_mode == DataMode::Idle,
            (r matches Ok(b) ==> b & 0x80 == 0),
            (r matches Err(e) ==> e == SdCardError::NoResponse || e == SdCardError::Timeout),
    {
        if self.last_op_mode == DataMode::Read {
            match self.stop_stream() {
                Ok(()) => (),
                Err(e) => {
                    return Err(e);
                },
            }
        } else {
            self.last_op_mode = DataMode::Idle;
        }
        self.send_frame_and_poll(cmd, arg)
    }

    /// Sends an R1 command that expects the card to be idle and decodes
    /// the status byte.
    fn send_card_command(&mut self, cmd: SdCommand, arg: u32) -> (r: Result<(), SdCardError>)
        ensures
            final(self).spec_pool_unchanged(old(self)),
            (r matches Err(e) ==> e == SdCardError::NoResponse || e == SdCardError::Timeout || e
                == SdCardError::EraseReset || e == SdCardError::IllegalCommand || e
                == SdCardError::CRCError || e == SdCardError::AddressError || e
                == SdCardError::ParameterError || e == SdCardError::Unknown),
    {
        match self.send_card_command_helper(cmd.code(), arg) {
            Ok(b) => decode_r1(b),
            Err(e) => Err(e),
        }
    }

    /// Sends an application-specific command: CMD55 first, then the
    /// command; returns the raw status byte.
    fn send_card_app_command(&mut self, cmd: SdAppCommand, arg: u32) -> (r: Result<
        u8,
        SdCardError,
    >)
        ensures
            final(self).spec_pool_unchanged(old(self)),
            (r matches Err(e) ==> e == SdCardError::NoResponse || e == SdCardError::Timeout),
    {
        match self.send_card_command_helper(SdCommand::AppCommand.code(), 0) {
            Ok(_) => (),
            Err(e) => {
                return Err(e);
            },
        }
        self.send_card_command_helper(cmd.code(), arg)
    }

    /// Sends a command with a 40-bit response: the R1 byte followed by
    /// four payload bytes.
    fn send_card_command_wide(&mut self, cmd: SdCommandWide, arg: u32) -> (r: Result<
        [u8; 4],
        SdCardError,
    >)
        ensures
            final(self).spec_pool_unchanged(old(self)),
            (r matches Err(e) ==> e == SdCardError::NoResponse || e == SdCardError::Timeout || e
                == SdCardError::EraseReset || e == SdCardError::IllegalCommand || e
                == SdCardError::CRCError || e == SdCardError::AddressError || e
                == SdCardError::ParameterError || e == SdCardError::Unknown),
    {
        match self.send_card_command_helper(cmd.code(), arg) {
            Ok(b) => {
                if b != 0x01 && b != 0x00 {
                    match decode_r1(b) {
                        Ok(()) => (),
                        Err(e) => {
                            return Err(e);
                        },
                    }
                }
            },
            Err(e) => {
                return Err(e);
            },
        }
        let mut response: [u8; 4] = [0u8; 4];
        let mut i: usize = 0;
        while i < 4
            invariant
                self.spec_pool_unchanged(old(self)),
            decreases 4 - i,
        {
            let b = self.transfer(0xff);
            response[i] = b;
            i += 1;
        }
        Ok(response)
    }

    /// Waits for the data-start token, then streams `n` payload bytes
    /// into the front of `out` followed by the 16-bit CRC. The wait is
    /// bounded by `SD_READ_TIMEOUT_MS` on the clock and by a byte cap.
    fn read_data(&mut self, out: &mut [u8; BLOCK_SIZE], n: usize) -> (r: Result<
        (),
        SdCardError,
    >)
        requires
            n <= BLOCK_SIZE,
        ensures
            final(self).spec_pool_unchanged(old(self)),
            forall|i: int| n <= i < BLOCK_SIZE ==> final(out)@[i] == old(out)@[i],
            (r matches Err(e) ==> e == SdCardError::Timeout || e == SdCardError::ReadError),
    {
        let start_time_ms = self.link.millis();
        let mut waited: u32 = 0;
        let mut token: u8;
        loop
            invariant
                self.spec_pool_unchanged(old(self)),
            decreases SD_WAIT_BYTE_CAP - waited,
        {
            token = self.transfer(0xff);
            if token != 0xff {
                break ;
            }
            let now = self.link.millis();
            if now >= start_time_ms.saturating_add(SD_READ_TIMEOUT_MS) {
                return Err(SdCardError::Timeout);
            }
            if waited >= SD_WAIT_BYTE_CAP {
                return Err(SdCardError::Timeout);
            }
            waited += 1;
        }
        if token != DATA_START_TOKEN {
            return Err(SdCardError::ReadError);
        }
        let mut i: usize = 0;
        while i < n
            invariant
                n <= BLOCK_SIZE,
                out@.len() == BLOCK_SIZE,
                self.spec_pool_unchanged(old(self)),
                forall|k: int| n <= k < BLOCK_SIZE ==> out@[k] == old(out)@[k],
            decreases n - i,
        {
            let b = self.transfer(0xff);
            out[i] = b;
            i += 1;
        }
        // The trailing CRC16 is clocked out and discarded.
        self.transfer(0xff);
        self.transfer(0xff);
        Ok(())
    }

    /// Reads the sector at `sector` into buffer-pool slot `buffer_index`,
    /// or reuses the slot when it already caches that sector.
    ///
    /// A locked slot is refused with `DataBufferLocked`. On a buffer hit
    /// — the slot holds a read of the same sector — the card sees no
    /// traffic: the whole device state, link included, is unchanged. On
    /// success the slot is tagged as holding `sector` and the other slot
    /// is untouched.
    pub fn read_sector_as(&mut self, buffer_index: usize, sector: u32) -> (r: Result<
        (),
        SdCardError,
    >)
        requires
            buffer_index < 2,
        ensures
            final(self).version == old(self).version,
            r == Err::<(), SdCardError>(SdCardError::DataBufferLocked) <==> old(self).modes[buffer_index as int] == DataMode::Locked,
            (r == Err::<(), SdCardError>(SdCardError::DataBufferLocked) ==> *final(self) == *old(self)),
            // A buffer hit issues no command: nothing changes at all.
            (old(self).modes[buffer_index as int] == DataMode::Read && old(self).sectors_in_buffer[buffer_index as int] == sector ==> r is Ok && *final(self) == *old(self)),
            (r is Ok ==> final(self).modes[buffer_index as int] == DataMode::Read && final(self).sectors_in_buffer[buffer_index as int] == sector),
            final(self).modes[1 - buffer_index as int] == old(self).modes[1 - buffer_index as int],
            final(self).sectors_in_buffer[1 - buffer_index as int] == old(self).sectors_in_buffer[1 - buffer_index as int],
            final(self).buffers[1 - buffer_index as int] == old(self).buffers[1 - buffer_index
                as int],
            final(self).saved_modes == old(self).saved_modes,
            (r matches Err(e) ==> e == SdCardError::DataBufferLocked || e
                == SdCardError::NoResponse || e == SdCardError::Timeout || e
                == SdCardError::EraseReset || e == SdCardError::IllegalCommand || e
                == SdCardError::CRCError || e == SdCardError::AddressError || e
                == SdCardError::ParameterError || e == SdCardError::Unknown || e
                == SdCardError::ReadError),
    {
        if self.modes[buffer_index] == DataMode::Locked {
            return Err(SdCardError::DataBufferLocked);
        }
        if self.modes[buffer_index] == DataMode::Read && self.sectors_in_buffer[buffer_index]
            == sector {
            return Ok(());
        }
        self.select();
        match self.send_card_command(SdCommand::ReadBlock, sector) {
            Ok(()) => (),
            Err(e) => {
                self.unselect();
                return Err(e);
            },
        }
        let mut data: [u8; BLOCK_SIZE] = [0u8; BLOCK_SIZE];
        match self.read_data(&mut data, BLOCK_SIZE) {
            Ok(()) => (),
            Err(e) => {
                self.unselect();
                return Err(e);
            },
        }
        self.buffers[buffer_index] = data;
        self.modes[buffer_index] = DataMode::Read;
        self.sectors_in_buffer[buffer_index] = sector;
        self.unselect();
        Ok(())
    }

    /// Borrows a buffer-pool slot's bytes.
    pub fn buffer(&self, buffer_index: usize) -> (r: &[u8; BLOCK_SIZE])
        requires
            buffer_index < 2,
        ensures
            *r == self.buffers@[buffer_index as int],
    {
        &self.buffers[buffer_index]
    }

    /// Pins a slot: until it is unlocked, `read_sector_as` refuses to
    /// overwrite it. Pinning an already pinned slot is refused.
    pub fn lock_buffer(&mut self, buffer_index: usize) -> (r: Result<(), SdCardError>)
        requires
            buffer_index < 2,
        ensures
            final(self).version == old(self).version,
            final(self).link == old(self).link,
            final(self).buffers == old(self).buffers,
            final(self).sectors_in_buffer == old(self).sectors_in_buffer,
            r == Err::<(), SdCardError>(SdCardError::DataBufferLocked) <==> old(self).modes[buffer_index as int] == DataMode::Locked,
            (r == Err::<(), SdCardError>(SdCardError::DataBufferLocked) ==> *final(self) == *old(self)),
            (r is Ok ==> final(self).modes[buffer_index as int] == DataMode::Locked && final(self).saved_modes[buffer_index as int] == old(self).modes[buffer_index as int]),
            (r is Err ==> *final(self) == *old(self)),
            final(self).modes[1 - buffer_index as int] == old(self).modes[1 - buffer_index as int],
    {
        if self.modes[buffer_index] == DataMode::Locked {
            return Err(SdCardError::DataBufferLocked);
        }
        self.saved_modes[buffer_index] = self.modes[buffer_index];
        self.modes[buffer_index] = DataMode::Locked;
        Ok(())
    }

    /// Releases a pinned slot, restoring the mode it had when locked.
    pub fn unlock_buffer(&mut self, buffer_index: usize)
        requires
            buffer_index < 2,
        ensures
            final(self).version == old(self).version,
            final(self).link == old(self).link,
            final(self).buffers == old(self).buffers,
            final(self).sectors_in_buffer == old(self).sectors_in_buffer,
            final(self).modes[buffer_index as int] == old(self).saved_modes[buffer_index as int],
            final(self).modes[1 - buffer_index as int] == old(self).modes[1 - buffer_index as int],
    {
        self.modes[buffer_index] = self.saved_modes[buffer_index];
    }

    /// Streams whole sectors starting at `start_sector` into `buf`,
    /// whose length selects the sector count. A run that continues
    /// exactly where the previous one ended keeps the CMD18 stream open
    /// and skips the command; any other start first stops an open stream
    /// and issues a fresh CMD18. The memo records the last sector served.
    #[verifier::loop_isolation(false)]
    pub fn read_sectors(&mut self, start_sector: u32, buf: &mut Vec<u8>) -> (r: Result<
        (),
        SdCardError,
    >)
        requires
            old(buf)@.len() % 512 == 0,
        ensures
            final(self).version == old(self).version,
            final(self).buffers == old(self).buffers,
            final(self).modes == old(self).modes,
            final(self).sectors_in_buffer == old(self).sectors_in_buffer,
            final(self).saved_modes == old(self).saved_modes,
            final(buf)@.len() == old(buf)@.len(),
            (r is Ok && old(buf)@.len() > 0 ==> final(self).last_op_mode == DataMode::Read && final(self).last_sector == start_sector + old(buf)@.len() / 512 - 1),
    {
        proof {
            vstd::arithmetic::div_mod::lemma_fundamental_div_mod(old(buf)@.len() as int, 512);
        }
        let n_sectors = buf.len() / 512;
        if n_sectors == 0 {
            return Ok(());
        }
        if (start_sector as u64) + (n_sectors as u64) - 1 > 0xffff_ffffu64 {
            return Err(SdCardError::AddressError);
        }
        let mut k: usize = 0;
        while k < n_sectors
            invariant
                k <= n_sectors,
                n_sectors == buf@.len() / 512,
                buf@.len() == old(buf)@.len(),
                n_sectors * 512 == buf@.len(),
                start_sector + n_sectors - 1 <= u32::MAX,
                self.version == old(self).version,
                self.buffers == old(self).buffers,
                self.modes == old(self).modes,
                self.sectors_in_buffer == old(self).sectors_in_buffer,
                self.saved_modes == old(self).saved_modes,
                k > 0 ==> self.last_op_mode == DataMode::Read && self.last_sector == start_sector
                    + k - 1,
            decreases n_sectors - k,
        {
            let sector = start_sector + (k as u32);
            let continues = self.last_op_mode == DataMode::Read && sector != 0 && self.last_sector
                == sector - 1;
            if !continues {
                if self.last_op_mode == DataMode::Read {
                    match self.stop_stream() {
                        Ok(()) => (),
                        Err(e) => {
                            return Err(e);
                        },
                    }
                }
                self.select();
                let b = match self.send_frame_and_poll(
                    SdCommand::ReadMultipleBlocks.code(),
                    sector,
                ) {
                    Ok(b) => b,
                    Err(e) => {
                        self.unselect();
                        self.last_op_mode = DataMode::Idle;
                        return Err(e);
                    },
                };
                match decode_r1_read(b) {
                    Ok(()) => (),
                    Err(e) => {
                        self.unselect();
                        self.last_op_mode = DataMode::Idle;
                        return Err(e);
                    },
                }
            }
            let mut block: [u8; BLOCK_SIZE] = [0u8; BLOCK_SIZE];
            match self.read_data(&mut block, BLOCK_SIZE) {
                Ok(()) => (),
                Err(e) => {
                    self.unselect();
                    self.last_op_mode = DataMode::Idle;
                    return Err(e);
                },
            }
            proof {
                assert((k + 1) * 512 <= n_sectors * 512) by (nonlinear_arith)
                    requires
                        k + 1 <= n_sectors,
                ;
            }
            let base = k * 512;
            let mut j: usize = 0;
            while j < 512
                invariant
                    j <= 512,
                    base == k * 512,
                    base + 512 <= buf@.len(),
                    buf@.len() == old(buf)@.len(),
                    self.version == old(self).version,
                    self.buffers == old(self).buffers,
                    self.modes == old(self).modes,
                    self.sectors_in_buffer == old(self).sectors_in_buffer,
                    self.saved_modes == old(self).saved_modes,
                decreases 512 - j,
            {
                buf[base + j] = block[j];
                j += 1;
            }
            self.last_op_mode = DataMode::Read;
            self.last_sector = sector;
            k += 1;
        }
        // The stream stays open for a follow-on sequential read; the
        // next non-read command closes it.
        Ok(())
    }

    /// Reads a 16-byte register (CID or CSD): the command must answer
    /// with a zero status, then the payload follows a data-start token
    /// and a trailing CRC.
    pub fn read_register(&mut self, reg: SdRegister) -> (r: Result<[u8; 16], SdCardError>)
        ensures
            final(self).spec_pool_unchanged(old(self)),
            (r matches Err(e) ==> e == SdCardError::RegisterError || e == SdCardError::NoResponse
                || e == SdCardError::Timeout || e == SdCardError::ReadError),
    {
        self.select();
        match self.send_card_command_helper(reg.code(), 0) {
            Ok(b) => {
                if b != 0 {
                    self.unselect();
                    return Err(SdCardError::RegisterError);
                }
            },
            Err(e) => {
                self.unselect();
                return Err(e);
            },
        }
        let mut tmp: [u8; BLOCK_SIZE] = [0u8; BLOCK_SIZE];
        match self.read_data(&mut tmp, 16) {
            Ok(()) => (),
            Err(e) => {
                self.unselect();
                return Err(e);
            },
        }
        self.unselect();
        Ok(
            [
                tmp[0],
                tmp[1],
                tmp[2],
                tmp[3],
                tmp[4],
                tmp[5],
                tmp[6],
                tmp[7],
                tmp[8],
                tmp[9],
                tmp[10],
                tmp[11],
                tmp[12],
                tmp[13],
                tmp[14],
                tmp[15],
            ],
        )
    }

    /// Retries CMD0 until the card enters the idle state, at most
    /// `SD_CMD0_RETRY_COUNT` times.
    fn init_spi(&mut self) -> (r: Result<(), SdCardError>)
        ensures
            final(self).spec_pool_unchanged(old(self)),
    {
        let mut i: u8 = 0;
        while i < SD_CMD0_RETRY_COUNT
            invariant
                self.spec_pool_unchanged(old(self)),
            decreases SD_CMD0_RETRY_COUNT - i,
        {
            match self.send_card_command(SdCommand::GoIdleState, 0x0) {
                Ok(()) => {
                    return Ok(());
                },
                Err(_) => (),
            }
            i += 1;
        }
        Err(SdCardError::Unknown)
    }

    /// CMD8 with the 3.3 V check pattern: a card that rejects the command
    /// is v1 and unsupported; a card that echoes the wrong pattern is
    /// broken; otherwise the card is v2.
    fn check_sd_version(&mut self) -> (r: Result<(), SdCardError>)
        ensures
            final(self).buffers == old(self).buffers,
            final(self).modes == old(self).modes,
            final(self).sectors_in_buffer == old(self).sectors_in_buffer,
            final(self).saved_modes == old(self).saved_modes,
            (r is Ok ==> final(self).version == old(self).version),
            (r == Err::<(), SdCardError>(SdCardError::SDVersionOneUnsupported) ==> final(self).version == SdVersion::One),
            (old(self).version != SdVersion::One && final(self).version == SdVersion::One ==> r
                == Err::<(), SdCardError>(SdCardError::SDVersionOneUnsupported)),
            (r == Err::<(), SdCardError>(SdCardError::CardCheckPatternMismatch) ==> final(self).version == old(self).version),
    {
        match self.send_card_command_wide(SdCommandWide::SendIfCond, 0x1AA) {
            Ok(data) => {
                // The last byte of the 40-bit response echoes the check
                // pattern.
                match check_if_cond_echo(&data) {
                    Ok(()) => (),
                    Err(e) => {
                        return Err(e);
                    },
                }
            },
            Err(SdCardError::IllegalCommand) => {
                self.version = SdVersion::One;
                return Err(SdCardError::SDVersionOneUnsupported);
            },
            Err(e) => {
                return Err(e);
            },
        }
        Ok(())
    }

    /// CMD59: turn CRC checking on for every subsequent command.
    fn enable_crc(&mut self) -> (r: Result<(), SdCardError>)
        ensures
            final(self).spec_pool_unchanged(old(self)),
    {
        self.send_card_command(SdCommand::SetCRC, 1)
    }

    /// Polls ACMD41 with host-supports-SDHC until the card leaves idle,
    /// bounded by `SD_INIT_TIMEOUT_MS`, then reads the OCR with CMD58 and
    /// upgrades the detected version when the card capacity bit is set.
    fn check_and_enable_sdhc(&mut self) -> (r: Result<(), SdCardError>)
        ensures
            final(self).buffers == old(self).buffers,
            final(self).modes == old(self).modes,
            final(self).sectors_in_buffer == old(self).sectors_in_buffer,
            final(self).saved_modes == old(self).saved_modes,
            (r is Ok ==> final(self).version == old(self).version || final(self).version == (
            SdVersion::Two { sdhc: true })),
    {
        let acmd41_arg: u32 = match self.version {
            SdVersion::Two { sdhc: _ } => 0x4000_0000,
            SdVersion::One => 0,
        };

        let start_time_ms = self.link.millis();
        let mut init_done = false;
        let mut waited: u32 = 0;
        while !init_done
            invariant
                self.version == old(self).version,
                self.buffers == old(self).buffers,
                self.modes == old(self).modes,
                self.sectors_in_buffer == old(self).sectors_in_buffer,
                self.saved_modes == old(self).saved_modes,
            decreases SD_WAIT_BYTE_CAP - waited,
        {
            let now = self.link.millis();
            if now > start_time_ms.saturating_add(SD_INIT_TIMEOUT_MS) {
                return Err(SdCardError::Timeout);
            }
            if waited >= SD_WAIT_BYTE_CAP {
                return Err(SdCardError::Timeout);
            }
            waited += 1;
            match self.send_card_app_command(SdAppCommand::SendOpCondition, acmd41_arg) {
                Ok(b) => {
                    if acmd41_ready(b) {
                        init_done = true;
                    }
                },
                Err(e) => {
                    return Err(e);
                },
            }
        }

        match self.send_card_command_wide(SdCommandWide::ReadOCR, 0) {
            Ok(data) => {
                if ocr_high_capacity(&data) {
                    self.version = SdVersion::Two { sdhc: true };
                }
            },
            Err(e) => {
                return Err(e);
            },
        }
        Ok(())
    }

    /// Powers the card up: ≥74 warm-up clocks with chip select high,
    /// CMD0 into SPI mode, CMD8 version check, CMD59 CRC enable, ACMD41
    /// with host-supports-SDHC, CMD58 capacity check, then full bus
    /// speed. Only a v2 card negotiated to SDHC completes; everything
    /// else is rejected, because sector addressing assumes SDHC.
    pub fn new(link: S) -> (r: Result<SdCard<S>, SdCardError>)
        ensures
            (r matches Ok(card) ==> card.version == (SdVersion::Two { sdhc: true })
                && card.modes[0] == DataMode::Idle && card.modes[1] == DataMode::Idle),
    {
        let mut card = SdCard {
            version: SdVersion::Two { sdhc: false },
            link,
            buffers: [[0u8; BLOCK_SIZE]; 2],
            modes: [DataMode::Idle, DataMode::Idle],
            sectors_in_buffer: [0u32, 0u32],
            saved_modes: [DataMode::Idle, DataMode::Idle],
            last_op_mode: DataMode::Idle,
            last_sector: 0,
        };

        // Hold CS and MOSI high for at least 74 clock cycles; ten byte
        // transfers give 80.
        card.unselect();
        let mut i: u8 = 0;
        while i < 10
            invariant
                card.modes[0] == DataMode::Idle && card.modes[1] == DataMode::Idle,
                card.version == (SdVersion::Two { sdhc: false }),
            decreases 10 - i,
        {
            card.transfer(0xff);
            i += 1;
        }

        card.select();
        match card.init_spi() {
            Ok(()) => (),
            Err(e) => {
                card.unselect();
                return Err(e);
            },
        }
        match card.check_sd_version() {
            Ok(()) => (),
            Err(e) => {
                card.unselect();
                return Err(e);
            },
        }
        match card.enable_crc() {
            Ok(()) => (),
            Err(e) => {
                card.unselect();
                return Err(e);
            },
        }
        match card.check_and_enable_sdhc() {
            Ok(()) => (),
            Err(e) => {
                card.unselect();
                return Err(e);
            },
        }
        card.unselect();

        // Initialization done: the card takes the full bus speed now.
        card.link.set_max_speed();

        // Sector addressing relies on high capacity; reject anything the
        // handshake did not negotiate to v2 SDHC.
        match card.version {
            SdVersion::Two { sdhc: true } => Ok(card),
            _ => Err(SdCardError::Unknown),
        }
    }
}

} // verus!
