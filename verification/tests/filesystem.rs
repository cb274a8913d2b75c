//! End-to-end tests of the FAT32 layer over an in-memory disk: geometry
//! validation, FAT traversal, directory iteration with long filenames,
//! path resolution, seek and read.

use sdfat32::device::{MemDisk, SectorRead, FS_BUFFER};
use sdfat32::dir_entry::DirEntry;
use sdfat32::dir_iter::DirectoryIterator;
use sdfat32::errors::FatError;
use sdfat32::file::{File, O_RDONLY};
use sdfat32::lfn::parse_path_name;
use sdfat32::mbr::Mbr;
use sdfat32::partition::Partition;
use sdfat32::volume::Volume;

// Test image geometry: one sector per cluster, partition at LBA 2048,
// 32 reserved sectors, two FATs of 520 sectors each.
const PART_START: u32 = 2048;
const RESERVED: u16 = 32;
const SPF: u32 = 520;
const FAT_START: u32 = PART_START + RESERVED as u32;
const DATA_START: u32 = PART_START + RESERVED as u32 + 2 * SPF;
const TOTAL: u32 = RESERVED as u32 + 2 * SPF + 65536;

const CKS_REALLY: u8 = 0xa0;

fn put16(img: &mut Vec<u8>, off: usize, v: u16) {
    img[off] = (v & 0xff) as u8;
    img[off + 1] = (v >> 8) as u8;
}

fn put32(img: &mut Vec<u8>, off: usize, v: u32) {
    img[off] = (v & 0xff) as u8;
    img[off + 1] = ((v >> 8) & 0xff) as u8;
    img[off + 2] = ((v >> 16) & 0xff) as u8;
    img[off + 3] = ((v >> 24) & 0xff) as u8;
}

fn sfn_entry(name: &[u8; 11], attr: u8, cluster: u32, size: u32) -> [u8; 32] {
    let mut e = [0u8; 32];
    e[0..11].copy_from_slice(name);
    e[11] = attr;
    e[20] = ((cluster >> 16) & 0xff) as u8;
    e[21] = ((cluster >> 24) & 0xff) as u8;
    e[26] = (cluster & 0xff) as u8;
    e[27] = ((cluster >> 8) & 0xff) as u8;
    e[28] = (size & 0xff) as u8;
    e[29] = ((size >> 8) & 0xff) as u8;
    e[30] = ((size >> 16) & 0xff) as u8;
    e[31] = ((size >> 24) & 0xff) as u8;
    e
}

/// Builds one 32-byte long-name fragment carrying up to 13 characters.
fn lfn_entry(seq_byte: u8, chars: &[u8], checksum: u8) -> [u8; 32] {
    let mut units = [0xffffu16; 13];
    for (i, &c) in chars.iter().enumerate() {
        units[i] = c as u16;
    }
    if chars.len() < 13 {
        units[chars.len()] = 0;
    }
    let mut e = [0u8; 32];
    e[0] = seq_byte;
    e[11] = 0x0f;
    e[13] = checksum;
    for i in 0..5 {
        e[1 + 2 * i] = (units[i] & 0xff) as u8;
        e[2 + 2 * i] = (units[i] >> 8) as u8;
    }
    for i in 0..6 {
        e[14 + 2 * i] = (units[5 + i] & 0xff) as u8;
        e[15 + 2 * i] = (units[5 + i] >> 8) as u8;
    }
    for i in 0..2 {
        e[28 + 2 * i] = (units[11 + i] & 0xff) as u8;
        e[29 + 2 * i] = (units[11 + i] >> 8) as u8;
    }
    e
}

fn cluster_off(c: u32) -> usize {
    (DATA_START as usize + (c as usize - 2)) * 512
}

fn fat_set(img: &mut Vec<u8>, cluster: u32, value: u32) {
    let off = (FAT_START as usize + (cluster as usize >> 7)) * 512 + 4 * (cluster as usize & 0x7f);
    put32(img, off, value);
}

fn foo_byte(i: usize) -> u8 {
    ((i * 7 + 3) % 251) as u8
}

fn inner_byte(i: usize) -> u8 {
    ((i * 11 + 5) % 241) as u8
}

/// A small filesystem: `FOO.TXT` (700 bytes over clusters 3 and 4),
/// `really_long_filename.txt` (11 bytes in cluster 7), a subdirectory
/// `SUB` holding `INNER.TXT` (100 bytes in cluster 6), a hidden file and
/// a deleted record.
fn build_image() -> Vec<u8> {
    let sectors = DATA_START as usize + 8;
    let mut img = vec![0u8; sectors * 512];

    // MBR: one partition record and the signature.
    img[446] = 0x00;
    img[446 + 4] = 0x0c;
    put32(&mut img, 446 + 8, PART_START);
    put32(&mut img, 446 + 12, TOTAL);
    img[510] = 0x55;
    img[511] = 0xaa;

    // Boot sector of the partition.
    let bs = PART_START as usize * 512;
    put16(&mut img, bs + 11, 512);
    img[bs + 13] = 1;
    put16(&mut img, bs + 14, RESERVED);
    img[bs + 16] = 2;
    put32(&mut img, bs + 32, TOTAL);
    put32(&mut img, bs + 36, SPF);
    img[bs + 71..bs + 82].copy_from_slice(b"TESTVOLUME ");

    // FAT: root is one cluster; FOO.TXT chains 3 -> 4; the rest are
    // single clusters.
    fat_set(&mut img, 2, 0x0fff_ffff);
    fat_set(&mut img, 3, 4);
    fat_set(&mut img, 4, 0x0fff_ffff);
    fat_set(&mut img, 5, 0x0fff_ffff);
    fat_set(&mut img, 6, 0x0fff_ffff);
    fat_set(&mut img, 7, 0x0fff_ffff);

    // Root directory (cluster 2).
    let root = cluster_off(2);
    let entries: Vec<[u8; 32]> = vec![
        lfn_entry(0x42, &b"ilename.txt"[..], CKS_REALLY),
        lfn_entry(0x01, &b"really_long_f"[..], CKS_REALLY),
        sfn_entry(b"REALLY~1TXT", 0x20, 7, 11),
        sfn_entry(b"FOO     TXT", 0x20, 3, 700),
        sfn_entry(b"SUB        ", 0x10, 5, 0),
        sfn_entry(b"HID     TXT", 0x22, 0, 0),
        {
            let mut e = sfn_entry(b"GONE    TXT", 0x20, 0, 0);
            e[0] = 0xe5;
            e
        },
    ];
    for (i, e) in entries.iter().enumerate() {
        img[root + 32 * i..root + 32 * (i + 1)].copy_from_slice(e);
    }

    // SUB directory (cluster 5).
    let sub = cluster_off(5);
    let sub_entries: Vec<[u8; 32]> = vec![
        sfn_entry(b".          ", 0x10, 5, 0),
        sfn_entry(b"..         ", 0x10, 2, 0),
        sfn_entry(b"INNER   TXT", 0x20, 6, 100),
    ];
    for (i, e) in sub_entries.iter().enumerate() {
        img[sub + 32 * i..sub + 32 * (i + 1)].copy_from_slice(e);
    }

    // File payloads.
    for i in 0..700 {
        img[cluster_off(3) + i] = foo_byte(i);
    }
    for i in 0..100 {
        img[cluster_off(6) + i] = inner_byte(i);
    }
    img[cluster_off(7)..cluster_off(7) + 11].copy_from_slice(b"hello long\n");

    img
}

fn mount(disk: &mut MemDisk) -> Volume {
    let parts = Mbr::read_part_info(disk).unwrap();
    Volume::open_volume(disk, 0, &parts[0]).unwrap()
}

#[test]
fn mbr_parses_the_partition_record() {
    let mut disk = MemDisk::new(build_image());
    let parts = Mbr::read_part_info(&mut disk).unwrap();
    assert_eq!(parts[0].ptype, 0x0c);
    assert_eq!(parts[0].start_sector, PART_START);
    assert_eq!(parts[0].total_sectors, TOTAL);
    assert_eq!(parts[1].start_sector, 0);
}

#[test]
fn a_bad_signature_is_a_corrupt_mbr() {
    let mut img = build_image();
    img[511] = 0;
    let mut disk = MemDisk::new(img);
    match Mbr::read_part_info(&mut disk) {
        Err(FatError::CorruptMBR) => {},
        _ => panic!("expected CorruptMBR"),
    }
}

#[test]
fn mount_derives_the_geometry() {
    let mut disk = MemDisk::new(build_image());
    let vol = mount(&mut disk);
    let p = vol.partition;
    assert_eq!(p.sectors_per_cluster, 1);
    assert_eq!(p.log2_sectors_per_cluster, 0);
    assert_eq!(p.cluster_sector_mask, 0);
    assert_eq!(p.fat_start_sector, FAT_START);
    assert_eq!(p.data_start_sector, DATA_START);
    assert_eq!(p.data_cluster_count, 65536);
    assert_eq!(p.sectors_per_fat, SPF);
    assert_eq!(&p.volume_label, b"TESTVOLUME ");
}

/// A geometry near the FAT32 floor: 8 sectors per cluster, 32 reserved,
/// 1009 sectors per FAT. With 524288 total sectors the cluster count
/// falls below the FAT32 minimum; with 1048576 it mounts.
#[test]
fn small_volumes_are_rejected_and_large_ones_mount() {
    let mut img = vec![0u8; (PART_START as usize + 1) * 512];
    let bs = PART_START as usize * 512;
    put16(&mut img, bs + 11, 512);
    img[bs + 13] = 8;
    put16(&mut img, bs + 14, 32);
    img[bs + 16] = 2;
    put32(&mut img, bs + 32, 524288);
    put32(&mut img, bs + 36, 1009);

    let mut info = sdfat32::mbr::PartitionInfo::new();
    info.start_sector = PART_START;
    info.total_sectors = 524288;

    let mut disk = MemDisk::new(img.clone());
    match Partition::read(&mut disk, &info) {
        Err(FatError::UnsupportedVersion) => {},
        _ => panic!("expected UnsupportedVersion"),
    }

    put32(&mut img, bs + 32, 1048576);
    let mut disk = MemDisk::new(img);
    let p = Partition::read(&mut disk, &info).unwrap();
    assert_eq!(p.fat_start_sector, 2080);
    assert_eq!(p.data_start_sector, 4098);
    // (1048576 - (4098 - 2048)) >> 3
    assert_eq!(p.data_cluster_count, 130815);
}

#[test]
fn a_wrong_sector_size_is_a_corrupt_partition() {
    let mut img = build_image();
    let bs = PART_START as usize * 512;
    put16(&mut img, bs + 11, 1024);
    let mut disk = MemDisk::new(img);
    let parts = Mbr::read_part_info(&mut disk).unwrap();
    match Volume::open_volume(&mut disk, 0, &parts[0]) {
        Err(FatError::CorruptPartition) => {},
        _ => panic!("expected CorruptPartition"),
    }
}

#[test]
fn a_cluster_size_that_is_not_a_power_of_two_is_rejected() {
    let mut img = build_image();
    let bs = PART_START as usize * 512;
    img[bs + 13] = 3;
    let mut disk = MemDisk::new(img);
    let parts = Mbr::read_part_info(&mut disk).unwrap();
    match Volume::open_volume(&mut disk, 0, &parts[0]) {
        Err(FatError::CorruptPartition) => {},
        _ => panic!("expected CorruptPartition"),
    }
}

#[test]
fn fat_walk_reads_the_next_cluster() {
    let mut disk = MemDisk::new(build_image());
    let vol = mount(&mut disk);
    assert_eq!(vol.partition.fat_get_next_cluster(&mut disk, 3).unwrap(), 4);
    // End-of-chain markers come back masked to 28 bits; callers treat
    // anything outside the cluster range as terminal.
    assert_eq!(
        vol.partition.fat_get_next_cluster(&mut disk, 4).unwrap(),
        0x0fff_ffff
    );
    match vol.partition.fat_get_next_cluster(&mut disk, 1) {
        Err(FatError::InvalidCluster) => {},
        _ => panic!("expected InvalidCluster"),
    }
}

#[test]
fn root_listing_stitches_long_names() {
    let mut disk = MemDisk::new(build_image());
    let vol = mount(&mut disk);
    let mut dir = vol.open_root(O_RDONLY);
    let mut it = DirectoryIterator::new();
    let mut kinds: Vec<String> = Vec::new();
    loop {
        match vol.dir_next(&mut disk, &mut dir, &mut it).unwrap() {
            None => break,
            Some(DirEntry::Long(lfn, hint)) => {
                kinds.push(format!("L{}h{:02x}", lfn.sequence_num(), hint));
                assert_eq!(lfn.checksum(), CKS_REALLY);
            },
            Some(DirEntry::Short(sfn, had)) => {
                let tag = if sfn.name[0] == 0xe5 {
                    "DEL".to_string()
                } else {
                    sfn.name[0..3].iter().map(|&b| b as char).collect()
                };
                kinds.push(format!("S{}{}", tag, had));
            },
        }
    }
    // Fragments come out in ascending order, each carrying the anchor's
    // attributes, and exactly one Short with had_lfn follows.
    assert_eq!(
        kinds,
        vec![
            "L1h00".to_string(),
            "L2h00".to_string(),
            "SREAtrue".to_string(),
            "SFOOfalse".to_string(),
            "SSUBfalse".to_string(),
            "SHIDfalse".to_string(),
            "SDELfalse".to_string(),
        ]
    );
}

#[test]
fn tampered_long_name_runs_are_a_parse_error() {
    let mut img = build_image();
    // Corrupt the checksum byte of the physically-first fragment.
    let root = cluster_off(2);
    img[root + 13] ^= 0xff;
    let mut disk = MemDisk::new(img);
    let vol = mount(&mut disk);
    match vol.open_by_name(&mut disk, b"really_long_filename.txt", O_RDONLY) {
        Err(FatError::LfnParseError) => {},
        _ => panic!("expected LfnParseError"),
    }
}

#[test]
fn open_by_short_name_and_read_round_trip() {
    let mut disk = MemDisk::new(build_image());
    let vol = mount(&mut disk);
    let mut f = vol.open_by_name(&mut disk, b"FOO.TXT", O_RDONLY).unwrap();
    assert!(f.is_file());
    assert_eq!(f.size(), 700);
    let mut buf = vec![0u8; 700];
    let n = vol.read(&mut disk, &mut f, &mut buf).unwrap();
    assert_eq!(n, 700);
    for i in 0..700 {
        assert_eq!(buf[i], foo_byte(i), "byte {} differs", i);
    }
    assert_eq!(f.pos, 700);
}

#[test]
fn open_by_long_name_matches_case_insensitively() {
    let mut disk = MemDisk::new(build_image());
    let vol = mount(&mut disk);
    let mut f = vol
        .open_by_name(&mut disk, b"REALLY_Long_FILENAME.TXT", O_RDONLY)
        .unwrap();
    assert_eq!(f.size(), 11);
    let mut buf = vec![0u8; 64];
    let n = vol.read(&mut disk, &mut f, &mut buf).unwrap();
    assert_eq!(n, 11);
    assert_eq!(&buf[0..11], b"hello long\n");
}

#[test]
fn paths_resolve_through_subdirectories() {
    let mut disk = MemDisk::new(build_image());
    let vol = mount(&mut disk);
    let mut f = vol
        .open_by_name(&mut disk, b"/SUB/INNER.TXT", O_RDONLY)
        .unwrap();
    assert_eq!(f.size(), 100);
    let mut buf = vec![0u8; 100];
    let n = vol.read(&mut disk, &mut f, &mut buf).unwrap();
    assert_eq!(n, 100);
    for i in 0..100 {
        assert_eq!(buf[i], inner_byte(i));
    }
}

#[test]
fn an_empty_path_opens_the_root() {
    let mut disk = MemDisk::new(build_image());
    let vol = mount(&mut disk);
    let f = vol.open_by_name(&mut disk, b"///", O_RDONLY).unwrap();
    assert!(f.is_root());
    assert_eq!(f.start_cluster, 2);
    assert_eq!(f.size(), 0);
}

#[test]
fn missing_files_are_not_found() {
    let mut disk = MemDisk::new(build_image());
    let vol = mount(&mut disk);
    match vol.open_by_name(&mut disk, b"NOPE.TXT", O_RDONLY) {
        Err(FatError::FileNotFound) => {},
        _ => panic!("expected FileNotFound"),
    }
}

#[test]
fn files_are_not_directories() {
    let mut disk = MemDisk::new(build_image());
    let vol = mount(&mut disk);
    match vol.open_by_name(&mut disk, b"FOO.TXT/X", O_RDONLY) {
        Err(FatError::NotADirectory) => {},
        _ => panic!("expected NotADirectory"),
    }
}

#[test]
fn reads_stop_at_end_of_file() {
    let mut disk = MemDisk::new(build_image());
    let vol = mount(&mut disk);
    let mut f = vol
        .open_by_name(&mut disk, b"SUB/INNER.TXT", O_RDONLY)
        .unwrap();
    let mut buf = vec![0u8; 200];
    let n = vol.read(&mut disk, &mut f, &mut buf).unwrap();
    assert_eq!(n, 100);
    assert_eq!(f.pos, 100);
    let n2 = vol.read(&mut disk, &mut f, &mut buf).unwrap();
    assert_eq!(n2, 0);
    assert_eq!(f.pos, 100);
}

#[test]
fn rewinding_and_rereading_yields_identical_bytes() {
    let mut disk = MemDisk::new(build_image());
    let vol = mount(&mut disk);
    let mut f = vol.open_by_name(&mut disk, b"FOO.TXT", O_RDONLY).unwrap();
    let mut first = vec![0u8; 700];
    vol.read(&mut disk, &mut f, &mut first).unwrap();
    for _ in 0..3 {
        vol.seek(&mut disk, &mut f, 0).unwrap();
        assert_eq!(f.pos, 0);
        let mut again = vec![0u8; 700];
        let n = vol.read(&mut disk, &mut f, &mut again).unwrap();
        assert_eq!(n, 700);
        assert_eq!(again, first);
    }
}

#[test]
fn seek_crosses_clusters_and_rejects_out_of_range() {
    let mut disk = MemDisk::new(build_image());
    let vol = mount(&mut disk);
    let mut f = vol.open_by_name(&mut disk, b"FOO.TXT", O_RDONLY).unwrap();
    vol.seek(&mut disk, &mut f, 600).unwrap();
    assert_eq!(f.pos, 600);
    let mut buf = vec![0u8; 50];
    vol.read(&mut disk, &mut f, &mut buf).unwrap();
    for i in 0..50 {
        assert_eq!(buf[i], foo_byte(600 + i));
    }
    match vol.seek(&mut disk, &mut f, 701) {
        Err(FatError::SeekError) => {},
        _ => panic!("expected SeekError"),
    }
    // A failed seek leaves the handle as it was.
    assert_eq!(f.pos, 650);
}

#[test]
fn foreign_and_closed_handles_are_rejected() {
    let mut disk = MemDisk::new(build_image());
    let vol = mount(&mut disk);
    let mut foreign = File::empty();
    match vol.seek(&mut disk, &mut foreign, 0) {
        Err(FatError::VolumeIdMismatch) => {},
        _ => panic!("expected VolumeIdMismatch"),
    }
    let mut f = vol.open_by_name(&mut disk, b"FOO.TXT", O_RDONLY).unwrap();
    vol.close(&mut f).unwrap();
    assert!(!f.is_open());
    match vol.seek(&mut disk, &mut f, 1) {
        Err(FatError::FileClosed) => {},
        _ => panic!("expected FileClosed"),
    }
}

#[test]
fn ls_filters_hidden_and_deleted_entries() {
    let mut disk = MemDisk::new(build_image());
    let vol = mount(&mut disk);
    let mut root = vol.open_root(O_RDONLY);
    let mut out: Vec<(DirEntry, u16)> = Vec::new();
    vol.ls(&mut disk, &mut root, false, 0, 0, &mut out).unwrap();
    let shorts: Vec<String> = out
        .iter()
        .filter_map(|(e, _)| match e {
            DirEntry::Short(sfn, _) => {
                Some(std::str::from_utf8(&sfn.name).unwrap().to_string())
            },
            _ => None,
        })
        .collect();
    assert!(shorts.contains(&"REALLY~1TXT".to_string()));
    assert!(shorts.contains(&"FOO     TXT".to_string()));
    assert!(shorts.contains(&"SUB        ".to_string()));
    assert!(!shorts.iter().any(|s| s.starts_with("HID")));
    assert!(!shorts.iter().any(|s| s.starts_with("GON")));

    let mut out_hidden: Vec<(DirEntry, u16)> = Vec::new();
    vol.ls(&mut disk, &mut root, true, 0, 0, &mut out_hidden).unwrap();
    assert!(out_hidden.len() > out.len());
}

#[test]
fn ls_recurses_into_subdirectories_with_depth() {
    let mut disk = MemDisk::new(build_image());
    let vol = mount(&mut disk);
    let mut root = vol.open_root(O_RDONLY);
    let mut out: Vec<(DirEntry, u16)> = Vec::new();
    vol.ls(&mut disk, &mut root, false, 0, 2, &mut out).unwrap();
    let inner: Vec<u16> = out
        .iter()
        .filter_map(|(e, d)| match e {
            DirEntry::Short(sfn, _) if &sfn.name[0..5] == b"INNER" => Some(*d),
            _ => None,
        })
        .collect();
    assert_eq!(inner, vec![1]);
    // Self and parent entries are listed but not recursed into.
    match vol.ls(&mut disk, &mut root, false, 0, 100, &mut out) {
        Err(FatError::TooManySubdirs) => {},
        _ => panic!("expected TooManySubdirs"),
    }
}

#[test]
fn path_components_generate_short_names() {
    let (fname, consumed) = parse_path_name(b"really_long_filename.txt").unwrap();
    assert_eq!(consumed, 24);
    assert_eq!(&fname.sfn, b"REALLY~1TXT");
    assert_eq!(fname.flags & 0x01, 0x01);
    assert_eq!(fname.trunc_pos, 6);

    let (fname, _) = parse_path_name(b"FOO.TXT").unwrap();
    assert_eq!(&fname.sfn, b"FOO     TXT");
    assert_eq!(fname.flags & 0x01, 0);

    // A reserved character becomes an underscore, the name is marked
    // truncated, and the marker lands at the recorded position.
    let (fname, _) = parse_path_name(b"A+B.TXT").unwrap();
    assert_eq!(&fname.sfn, b"A_B~1   TXT");
    assert_eq!(fname.flags & 0x01, 0x01);
    assert_eq!(fname.trunc_pos, 3);

    // Differing case between base and extension is mixed case.
    let (fname, _) = parse_path_name(b"abc.TXT").unwrap();
    assert_eq!(&fname.sfn, b"ABC     TXT");
    assert_eq!(fname.flags, 0x02);

    // A name lowercase in both parts keeps the lowercase bits only when
    // the uppercase sightings agree part-for-part.
    let (fname, _) = parse_path_name(b"aA.bB").unwrap();
    assert_eq!(&fname.sfn, b"AA      BB ");
    assert_eq!(fname.flags, 0x18);

    // Trailing dots and spaces are trimmed from the component.
    let (fname, consumed) = parse_path_name(b"name.. /next").unwrap();
    assert_eq!(fname.path, b"name".to_vec());
    assert!(consumed >= 5);

    match parse_path_name(b"") {
        Err(FatError::ParsePathError) => {},
        _ => panic!("expected ParsePathError"),
    }
    match parse_path_name(b"bad\tname") {
        Err(FatError::ParsePathError) => {},
        _ => panic!("expected ParsePathError"),
    }
    match parse_path_name(b"...") {
        Err(FatError::ParsePathError) => {},
        _ => panic!("expected ParsePathError"),
    }
}

#[test]
fn fname_checksum_covers_the_component_bytes() {
    let (fname, _) = parse_path_name(b"really_long_filename.txt").unwrap();
    assert_eq!(fname.checksum(), 0x6a);
    assert_eq!(fname.lfn_entry_count(), 2);
}

#[test]
fn memdisk_serves_sector_contents() {
    let img = build_image();
    let expected = img[512 * FAT_START as usize..512 * (FAT_START as usize + 1)].to_vec();
    let mut disk = MemDisk::new(img);
    let s = disk.read_sector(FS_BUFFER, FAT_START).unwrap();
    assert_eq!(s.to_vec(), expected);
    assert!(disk.read_sector(FS_BUFFER, 10_000_000).is_err());
}

#[test]
fn invalid_start_clusters_surface_on_read() {
    let mut disk = MemDisk::new(build_image());
    let vol = mount(&mut disk);
    // The hidden file's record points at cluster 0 with size 0; crafting
    // a handle with a nonzero size forces a data access.
    let mut f = File::open_helper(vol.id, 0, 0x08, O_RDONLY, 10);
    let mut buf = vec![0u8; 10];
    match vol.read(&mut disk, &mut f, &mut buf) {
        Err(FatError::InvalidCluster) => {},
        _ => panic!("expected InvalidCluster"),
    }
}

#[test]
fn eight_dot_three_names_are_not_truncated() {
    let (fname, _) = parse_path_name(b"ABCDEFGH.TXT").unwrap();
    assert_eq!(&fname.sfn, b"ABCDEFGHTXT");
    assert_eq!(fname.flags & 0x01, 0);

    // A nine-character base overflows 8.3 and gains the marker.
    let (fname, _) = parse_path_name(b"ABCDEFGHI.TXT").unwrap();
    assert_eq!(&fname.sfn, b"ABCDEF~1TXT");
    assert_eq!(fname.flags & 0x01, 0x01);

    // A four-character extension does too.
    let (fname, _) = parse_path_name(b"NAME.ABCD").unwrap();
    assert_eq!(&fname.sfn[0..4], b"NAME");
    assert_eq!(fname.flags & 0x01, 0x01);

    // Leading dots are skipped and force the marker.
    let (fname, _) = parse_path_name(b".hidden").unwrap();
    assert_eq!(fname.flags & 0x01, 0x01);
}

#[test]
fn closed_handles_report_their_state() {
    let mut f = File::empty();
    assert!(!f.is_open());
    assert!(!f.is_file());
    assert!(!f.is_directory());
    assert!(!f.is_readable());
    assert_eq!(f.size(), 0);
    f.close();
    assert!(!f.is_open());
}

#[test]
fn directory_seeks_are_not_size_bounded() {
    let mut disk = MemDisk::new(build_image());
    let vol = mount(&mut disk);
    let mut root = vol.open_root(O_RDONLY);
    // A directory reports size zero but can still be positioned.
    vol.seek(&mut disk, &mut root, 96).unwrap();
    assert_eq!(root.pos, 96);
    vol.seek(&mut disk, &mut root, 0).unwrap();
    assert_eq!(root.pos, 0);
}

#[test]
fn misaligned_directory_positions_are_rejected() {
    let mut disk = MemDisk::new(build_image());
    let vol = mount(&mut disk);
    let mut root = vol.open_root(O_RDONLY);
    vol.seek(&mut disk, &mut root, 17).unwrap();
    let mut it = DirectoryIterator::new();
    match vol.dir_next(&mut disk, &mut root, &mut it) {
        Err(FatError::InvalidPosition) => {},
        _ => panic!("expected InvalidPosition"),
    }
}

#[test]
fn reading_an_unreadable_handle_is_a_read_error() {
    let mut disk = MemDisk::new(build_image());
    let vol = mount(&mut disk);
    // O_WRONLY opens without the read flag in this read-only revision.
    let mut f = vol.open_by_name(&mut disk, b"FOO.TXT", 0x1).unwrap();
    assert!(!f.is_readable());
    let mut buf = vec![0u8; 8];
    match vol.read(&mut disk, &mut f, &mut buf) {
        Err(FatError::ReadError) => {},
        _ => panic!("expected ReadError"),
    }
}

#[test]
fn seeking_past_the_chain_end_reports_the_cluster() {
    let mut img = build_image();
    // Break FOO.TXT's chain: its first cluster claims to end at once,
    // so positioning into the second cluster has nowhere to go.
    fat_set(&mut img, 3, 0x0fff_ffff);
    let mut disk = MemDisk::new(img);
    let vol = mount(&mut disk);
    let mut f = vol.open_by_name(&mut disk, b"FOO.TXT", O_RDONLY).unwrap();
    let mut buf = vec![0u8; 700];
    match vol.read(&mut disk, &mut f, &mut buf) {
        Err(FatError::InvalidCluster) => {},
        _ => panic!("expected InvalidCluster"),
    }
    // The first cluster was still delivered before the chain broke.
    assert_eq!(f.pos, 512);
}

#[test]
fn a_no_op_seek_changes_nothing() {
    let mut disk = MemDisk::new(build_image());
    let vol = mount(&mut disk);
    let mut f = vol.open_by_name(&mut disk, b"FOO.TXT", O_RDONLY).unwrap();
    vol.seek(&mut disk, &mut f, 600).unwrap();
    let before = (f.cluster, f.pos, f.start_cluster);
    vol.seek(&mut disk, &mut f, 600).unwrap();
    assert_eq!((f.cluster, f.pos, f.start_cluster), before);
}

#[test]
fn parsing_resumes_after_separator_runs() {
    let (fname, next) = parse_path_name(b"a//b").unwrap();
    assert_eq!(fname.path, b"a".to_vec());
    assert_eq!(next, 3);
    let (fname2, next2) = parse_path_name(&b"a//b"[next..]).unwrap();
    assert_eq!(fname2.path, b"b".to_vec());
    assert_eq!(next2, 1);
}

