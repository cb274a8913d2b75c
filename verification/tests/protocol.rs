//! Tests for the SD protocol layer: CRC7, command frames, R1 decoding,
//! register parsing, and the card state machine driven by a simulated
//! card on the SPI link.

use std::collections::HashMap;
use std::collections::VecDeque;

use sdfat32::cardinfo::{CardId, CardSpecificData};
use sdfat32::crc::crc7;
use sdfat32::errors::{FatError, SdCardError};
use sdfat32::bytes::hexfmt_u8;
use sdfat32::sdcard::{DataMode, SdCard, SdVersion};
use sdfat32::sdcmd::{acmd41_ready, check_if_cond_echo, command_frame, decode_r1, ocr_high_capacity};
use sdfat32::spi::SpiLink;

/// A scripted SD card on the other end of the SPI link. It parses the
/// six-byte command frames the driver sends and answers like a v2 card.
struct SimCard {
    /// Sector payloads served for CMD17/CMD18.
    sectors: HashMap<u32, Vec<u8>>,
    /// First OCR byte answered to CMD58.
    ocr0: u8,
    /// Whether CMD8 is rejected as illegal (a v1 card).
    cmd8_illegal: bool,
    /// Byte echoed as the CMD8 check pattern.
    cmd8_echo: u8,
    /// How many ACMD41 polls stay busy before ready.
    acmd41_busy: u32,
    /// Whether ACMD41 ever becomes ready.
    acmd41_sticks: bool,
    frame: Vec<u8>,
    replies: VecDeque<u8>,
    streaming: Option<u32>,
    clock: u32,
    transfers: u64,
    commands: Vec<u8>,
}

impl SimCard {
    fn new() -> SimCard {
        SimCard {
            sectors: HashMap::new(),
            ocr0: 0xc0,
            cmd8_illegal: false,
            cmd8_echo: 0xaa,
            acmd41_busy: 2,
            acmd41_sticks: false,
            frame: Vec::new(),
            replies: VecDeque::new(),
            streaming: None,
            clock: 0,
            transfers: 0,
            commands: Vec::new(),
        }
    }

    fn sector_bytes(&self, lba: u32) -> Vec<u8> {
        match self.sectors.get(&lba) {
            Some(v) => v.clone(),
            None => {
                let mut v = vec![0u8; 512];
                for (i, b) in v.iter_mut().enumerate() {
                    *b = ((lba as usize + i) % 251) as u8;
                }
                v
            },
        }
    }

    fn queue_block(&mut self, lba: u32) {
        self.replies.push_back(0xfe);
        for b in self.sector_bytes(lba) {
            self.replies.push_back(b);
        }
        self.replies.push_back(0);
        self.replies.push_back(0);
    }

    fn handle_frame(&mut self) {
        let cmd = self.frame[0] & 0x3f;
        let arg = u32::from_be_bytes([self.frame[1], self.frame[2], self.frame[3], self.frame[4]]);
        self.commands.push(cmd);
        self.replies.clear();
        // One gap byte before the response appears.
        self.replies.push_back(0xff);
        match cmd {
            0 => {
                self.streaming = None;
                self.replies.push_back(0x01);
            },
            8 => {
                if self.cmd8_illegal {
                    self.replies.push_back(0x05);
                } else {
                    self.replies.push_back(0x01);
                    self.replies.push_back(0x00);
                    self.replies.push_back(0x00);
                    self.replies.push_back(0x01);
                    self.replies.push_back(self.cmd8_echo);
                }
            },
            59 | 55 => {
                self.replies.push_back(0x01);
            },
            41 => {
                if self.acmd41_sticks {
                    self.replies.push_back(0x01);
                } else if self.acmd41_busy > 0 {
                    self.acmd41_busy -= 1;
                    self.replies.push_back(0x01);
                } else {
                    self.replies.push_back(0x00);
                }
            },
            58 => {
                self.replies.push_back(0x00);
                self.replies.push_back(self.ocr0);
                self.replies.push_back(0xff);
                self.replies.push_back(0x80);
                self.replies.push_back(0x00);
            },
            17 => {
                self.streaming = None;
                self.replies.push_back(0x01);
                self.queue_block(arg);
            },
            18 => {
                self.replies.push_back(0x01);
                self.queue_block(arg);
                self.streaming = Some(arg + 1);
            },
            12 => {
                self.streaming = None;
                self.replies.push_back(0x01);
            },
            9 | 10 => {
                self.streaming = None;
                self.replies.push_back(0x00);
                self.replies.push_back(0xfe);
                let reg: [u8; 16] = if cmd == 10 {
                    [
                        0x03, 0x53, 0x44, 0x41, 0x42, 0x43, 0x44, 0x45, 0x21, 0x12, 0x34, 0x56,
                        0x78, 0x01, 0x4a, 0x00,
                    ]
                } else {
                    [
                        0x40, 0x0e, 0x00, 0x32, 0x5b, 0x59, 0x00, 0x00, 0x1d, 0x7f, 0x7f, 0x6d,
                        0xb7, 0x7f, 0x80, 0x0a,
                    ]
                };
                for b in reg {
                    self.replies.push_back(b);
                }
                self.replies.push_back(0);
                self.replies.push_back(0);
            },
            _ => {
                self.replies.push_back(0x04);
            },
        }
    }
}

impl SpiLink for SimCard {
    fn transfer(&mut self, byte: u8) -> u8 {
        self.transfers += 1;
        if !self.frame.is_empty() {
            self.frame.push(byte);
            if self.frame.len() == 6 {
                self.handle_frame();
                self.frame.clear();
            }
            return 0xff;
        }
        if byte & 0xc0 == 0x40 {
            self.frame.push(byte);
            return 0xff;
        }
        match self.replies.pop_front() {
            Some(b) => b,
            None => {
                if let Some(next) = self.streaming {
                    self.queue_block(next);
                    self.streaming = Some(next + 1);
                    self.replies.pop_front().unwrap_or(0xff)
                } else {
                    0xff
                }
            },
        }
    }

    fn cs_low(&mut self) {}

    fn cs_high(&mut self) {}

    fn millis(&mut self) -> u32 {
        self.clock += 1;
        self.clock
    }

    fn set_max_speed(&mut self) {}
}

#[test]
fn cmd0_frame_has_the_expected_crc() {
    let frame = command_frame(0, 0);
    assert_eq!(frame, [0x40, 0x00, 0x00, 0x00, 0x00, 0x95]);
}

#[test]
fn cmd8_frame_has_the_expected_crc() {
    let frame = command_frame(8, 0x1aa);
    assert_eq!(frame, [0x48, 0x00, 0x00, 0x01, 0xaa, 0x87]);
}

#[test]
fn crc7_of_cmd17_prefix_has_stop_bit() {
    let r = crc7(&[0x51, 0x00, 0x00, 0x00, 0x07]);
    assert_eq!(r & 1, 1);
}

#[test]
fn r1_decoding_maps_every_error_bit() {
    assert!(decode_r1(0x01).is_ok());
    assert_eq!(decode_r1(0x02), Err(SdCardError::EraseReset));
    assert_eq!(decode_r1(0x04), Err(SdCardError::IllegalCommand));
    assert_eq!(decode_r1(0x08), Err(SdCardError::CRCError));
    assert_eq!(decode_r1(0x10), Err(SdCardError::AddressError));
    assert_eq!(decode_r1(0x20), Err(SdCardError::ParameterError));
    assert_eq!(decode_r1(0x00), Err(SdCardError::Unknown));
    // Lower-ranked bits win when several are set together.
    assert_eq!(decode_r1(0x0c), Err(SdCardError::IllegalCommand));
}

#[test]
fn hex_digits_cover_both_ranges() {
    assert_eq!(hexfmt_u8(0x0), b'0');
    assert_eq!(hexfmt_u8(0x9), b'9');
    assert_eq!(hexfmt_u8(0xa), b'a');
    assert_eq!(hexfmt_u8(0x3f), b'f');
}

#[test]
fn power_up_negotiates_sdhc() {
    let card = SdCard::new(SimCard::new()).expect("power-up should succeed");
    assert_eq!(card.version, SdVersion::Two { sdhc: true });
}

#[test]
fn power_up_rejects_v1_cards() {
    let mut sim = SimCard::new();
    sim.cmd8_illegal = true;
    match SdCard::new(sim) {
        Err(SdCardError::SDVersionOneUnsupported) => {},
        other => panic!("expected v1 rejection, got {:?}", other.is_ok()),
    }
}

#[test]
fn power_up_rejects_non_sdhc_v2_cards() {
    let mut sim = SimCard::new();
    sim.ocr0 = 0x80;
    assert!(SdCard::new(sim).is_err());
}

#[test]
fn power_up_rejects_wrong_check_pattern() {
    let mut sim = SimCard::new();
    sim.cmd8_echo = 0x55;
    match SdCard::new(sim) {
        Err(SdCardError::CardCheckPatternMismatch) => {},
        other => panic!("expected check pattern mismatch, got {:?}", other.is_ok()),
    }
}

#[test]
fn power_up_times_out_when_acmd41_stays_busy() {
    let mut sim = SimCard::new();
    sim.acmd41_sticks = true;
    match SdCard::new(sim) {
        Err(SdCardError::Timeout) => {},
        other => panic!("expected timeout, got {:?}", other.is_ok()),
    }
}

#[test]
fn repeated_sector_read_is_a_buffer_hit() {
    let mut card = SdCard::new(SimCard::new()).unwrap();
    card.read_sector_as(0, 42).unwrap();
    let first = card.buffer(0).to_vec();
    let transfers_before = card.link.transfers;
    // Same slot, same sector: served from the pool, no SPI traffic.
    card.read_sector_as(0, 42).unwrap();
    assert_eq!(card.link.transfers, transfers_before);
    assert_eq!(card.buffer(0).to_vec(), first);
    // A different sector goes back to the card.
    card.read_sector_as(0, 43).unwrap();
    assert!(card.link.transfers > transfers_before);
}

#[test]
fn the_two_buffer_slots_are_independent() {
    let mut card = SdCard::new(SimCard::new()).unwrap();
    card.read_sector_as(0, 7).unwrap();
    let fs = card.buffer(0).to_vec();
    card.read_sector_as(1, 9).unwrap();
    assert_eq!(card.buffer(0).to_vec(), fs);
    assert_ne!(card.buffer(1).to_vec(), fs);
}

#[test]
fn locked_buffers_refuse_reads() {
    let mut card = SdCard::new(SimCard::new()).unwrap();
    card.read_sector_as(1, 5).unwrap();
    card.lock_buffer(1).unwrap();
    assert_eq!(card.read_sector_as(1, 6), Err(SdCardError::DataBufferLocked));
    assert_eq!(card.lock_buffer(1), Err(SdCardError::DataBufferLocked));
    card.unlock_buffer(1);
    // The mode is restored, so the cached sector is served again.
    let transfers_before = card.link.transfers;
    card.read_sector_as(1, 5).unwrap();
    assert_eq!(card.link.transfers, transfers_before);
}

#[test]
fn sector_reads_deliver_the_card_payload() {
    let mut sim = SimCard::new();
    let mut payload = vec![0u8; 512];
    for (i, b) in payload.iter_mut().enumerate() {
        *b = (i % 7) as u8;
    }
    sim.sectors.insert(77, payload.clone());
    let mut card = SdCard::new(sim).unwrap();
    card.read_sector_as(0, 77).unwrap();
    assert_eq!(card.buffer(0).as_slice(), payload.as_slice());
}

#[test]
fn sequential_streams_skip_the_read_command() {
    let mut card = SdCard::new(SimCard::new()).unwrap();
    let mut buf = vec![0u8; 1024];
    card.read_sectors(10, &mut buf).unwrap();
    let cmd18s = card.link.commands.iter().filter(|&&c| c == 18).count();
    assert_eq!(cmd18s, 1);
    assert_eq!(&buf[0..8], &card.link.sector_bytes(10)[0..8]);
    assert_eq!(&buf[512..520], &card.link.sector_bytes(11)[0..8]);
    // The next run continues exactly where the last one ended: no new
    // CMD18 is issued.
    let mut buf2 = vec![0u8; 512];
    card.read_sectors(12, &mut buf2).unwrap();
    let cmd18s_after = card.link.commands.iter().filter(|&&c| c == 18).count();
    assert_eq!(cmd18s_after, 1);
    assert_eq!(&buf2[0..8], &card.link.sector_bytes(12)[0..8]);
    // A non-sequential run stops the stream and starts a new one.
    let mut buf3 = vec![0u8; 512];
    card.read_sectors(100, &mut buf3).unwrap();
    let cmd18s_final = card.link.commands.iter().filter(|&&c| c == 18).count();
    assert_eq!(cmd18s_final, 2);
    assert!(card.link.commands.contains(&12));
}

#[test]
fn card_id_parses_field_by_field() {
    let raw: [u8; 16] = [
        0x03, 0x53, 0x44, 0x41, 0x42, 0x43, 0x44, 0x45, 0x21, 0x12, 0x34, 0x56, 0x78, 0x01, 0x4a,
        0x00,
    ];
    let cid = CardId::parse(&raw);
    assert_eq!(cid.manufacturer_id(), 0x03);
    assert_eq!(cid.oem_id(), (0x53, 0x44));
    assert_eq!(cid.product_name(), [0x41, 0x42, 0x43, 0x44, 0x45]);
    assert_eq!(cid.product_revision(), (0x20, 0x01));
    assert_eq!(cid.product_serial_num(), 0x12345678);
    // Year packs the low nibble of byte 13 with the high nibble of 14.
    assert_eq!(cid.manufacturing_date(), (2000 + 0x14, 0x0a));
}

#[test]
fn csd_parses_capacity_and_classes() {
    let raw: [u8; 16] = [
        0x40, 0x0e, 0x00, 0x32, 0x5b, 0x59, 0x00, 0x00, 0x1d, 0x7f, 0x7f, 0x6d, 0xb7, 0x7f, 0x80,
        0x0a,
    ];
    let csd = CardSpecificData::parse(&raw).unwrap();
    assert_eq!(csd.version(), 2);
    assert_eq!(csd.tran_speed_mhz(), 25);
    assert_eq!(csd.supported_command_classes(), 0x5b5);
    assert_eq!(csd.max_read_block_len_bytes(), 512);
    // C_SIZE = 0x1d7f; capacity = (C_SIZE + 1) * 512000 >> 20.
    let expected = ((0x1d7fu64 + 1) * 512000) >> 20;
    assert_eq!(csd.capacity_mib() as u64, expected);
}

#[test]
fn csd_version_one_is_rejected() {
    let raw: [u8; 16] = [0x00; 16];
    match CardSpecificData::parse(&raw) {
        Err(SdCardError::SDVersionOneUnsupported) => {},
        _ => panic!("a version-one CSD must be rejected"),
    }
}

#[test]
fn register_reads_reach_the_parsers() {
    let mut card = SdCard::new(SimCard::new()).unwrap();
    let cid = card.read_card_id().unwrap();
    assert_eq!(cid.manufacturer_id(), 0x03);
    let csd = card.read_card_specific_data().unwrap();
    assert_eq!(csd.version(), 2);
    assert_eq!(csd.tran_speed_mhz(), 25);
}

#[test]
fn buffer_modes_start_idle() {
    let card = SdCard::new(SimCard::new()).unwrap();
    assert_eq!(card.modes[0], DataMode::Idle);
    assert_eq!(card.modes[1], DataMode::Idle);
}

#[test]
fn every_card_error_collapses_at_the_filesystem_boundary() {
    assert_eq!(
        FatError::from_sd(SdCardError::Timeout),
        FatError::BlockDeviceFailed
    );
    assert_eq!(
        FatError::from_sd(SdCardError::CRCError),
        FatError::BlockDeviceFailed
    );
}

#[test]
fn cmd8_echo_interpretation_is_exact() {
    assert!(check_if_cond_echo(&[0x00, 0x00, 0x01, 0xaa]).is_ok());
    match check_if_cond_echo(&[0x00, 0x00, 0x01, 0x55]) {
        Err(SdCardError::CardCheckPatternMismatch) => {},
        _ => panic!("expected CardCheckPatternMismatch"),
    }
}

#[test]
fn ocr_interpretation_needs_both_capacity_bits() {
    assert!(ocr_high_capacity(&[0xc0, 0, 0, 0]));
    assert!(!ocr_high_capacity(&[0x80, 0, 0, 0]));
    assert!(!ocr_high_capacity(&[0x40, 0, 0, 0]));
}

#[test]
fn acmd41_is_ready_only_on_a_clear_status() {
    assert!(acmd41_ready(0x00));
    assert!(!acmd41_ready(0x01));
    assert!(!acmd41_ready(0x04));
}

