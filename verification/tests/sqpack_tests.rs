use physis::crc::crc32;
use physis::index::{IndexFile, IndexHashTableEntry, SqPackHeader, SqPackIndexHeader};
use physis::common::Platform;
use physis::sqpack::{calculate_hash, calculate_hash_bytes};

#[test]
fn crc_check_value() {
    assert_eq!(crc32(b"123456789", 0, 9), 0xCBF4_3926);
    assert_eq!(crc32(b"123456789", 0, 0), 0);
    assert_eq!(crc32(b"xx123456789yy", 2, 11), 0xCBF4_3926);
}

#[test]
fn hash_of_known_paths() {
    assert_eq!(calculate_hash("exd/root.exl"), 0x1c64_8666_ae4a_8143);
    assert_eq!(
        calculate_hash("chara/equipment/e0000/model/c0101e0000_top.mdl"),
        0x7320_42e4_4ed1_bc9a
    );
}

#[test]
fn hash_ignores_case() {
    assert_eq!(calculate_hash("EXD/Root.EXL"), calculate_hash("exd/root.exl"));
    assert_eq!(calculate_hash_bytes(b"Bg/FFXIV/Thing.LGB"), calculate_hash_bytes(b"bg/ffxiv/thing.lgb"));
}

#[test]
fn hash_of_edge_paths() {
    assert_eq!(calculate_hash(""), 0);
    assert_eq!(calculate_hash("exd/"), 0x1c64_8666_0000_0000);
    assert_eq!(calculate_hash("root.exl"), 0xae4a_8143);
}

fn index_bytes(entries: &[(u64, u32)], header_size: u32, data_offset: u32) -> Vec<u8> {
    let mut bytes: Vec<u8> = Vec::new();
    bytes.extend_from_slice(b"SqPack");
    bytes.extend_from_slice(&[0, 0, 0, 0, 0, 0]);
    bytes.extend_from_slice(&header_size.to_le_bytes());
    bytes.extend_from_slice(&1u32.to_le_bytes());
    bytes.extend_from_slice(&2u32.to_le_bytes());
    bytes.resize(header_size as usize, 0);
    bytes.extend_from_slice(&1024u32.to_le_bytes());
    bytes.extend_from_slice(&1u32.to_le_bytes());
    bytes.extend_from_slice(&data_offset.to_le_bytes());
    bytes.extend_from_slice(&((entries.len() * 16) as u32).to_le_bytes());
    bytes.resize(data_offset as usize, 0);
    for (hash, bitfield) in entries {
        bytes.extend_from_slice(&hash.to_le_bytes());
        bytes.extend_from_slice(&bitfield.to_le_bytes());
        bytes.extend_from_slice(&[0, 0, 0, 0]);
    }
    bytes
}

#[test]
fn index_is_read() {
    let bytes = index_bytes(&[(0x1122_3344_5566_7788, 0x0000_0012), (7, 0x0000_1230 | 0b0110)], 1024, 2048);
    let index = IndexFile::from_existing(&bytes).unwrap();
    assert_eq!(index.sqpack_header.platform_id, Platform::Win32);
    assert_eq!(index.sqpack_header.size, 1024);
    assert_eq!(index.sqpack_header.version, 1);
    assert_eq!(index.index_header.index_data_offset, 2048);
    assert_eq!(index.entries.len(), 2);
    assert_eq!(index.entries[0].hash, 0x1122_3344_5566_7788);
    assert_eq!(index.entries[0].data_file_id(), 1);
    assert_eq!(index.entries[0].offset(), 0x10 * 8);
    assert_eq!(index.entries[1].data_file_id(), 3);
    assert_eq!(index.entries[1].offset(), 0x1230 * 8);
    assert_eq!(index.find_entry(7), Some(index.entries[1]));
    assert_eq!(index.find_entry(8), None);
    assert!(index.contains_hash(0x1122_3344_5566_7788));
    assert!(!index.contains_hash(1));
}

#[test]
fn index_with_bad_magic_or_cut_short_is_refused() {
    let good = index_bytes(&[(1, 0x20)], 1024, 2048);
    let mut bad = good.clone();
    bad[0] = b'X';
    assert!(IndexFile::from_existing(&bad).is_none());
    let mut platform = good.clone();
    platform[8] = 9;
    assert!(IndexFile::from_existing(&platform).is_none());
    assert!(IndexFile::from_existing(&good[..good.len() - 1]).is_none());
    assert!(IndexFile::from_existing(&good[..20]).is_none());
    assert!(IndexFile::from_existing(&[]).is_none());
}

#[test]
fn index_round_trip() {
    let index = IndexFile {
        sqpack_header: SqPackHeader { platform_id: Platform::PS4, size: 1024, version: 1, file_type: 2 },
        index_header: SqPackIndexHeader {
            size: 1024,
            file_type: 1,
            index_data_offset: 2048,
            index_data_size: 48,
        },
        entries: vec![
            IndexHashTableEntry::new(0xdead_beef_0000_0001, 0, 128).unwrap(),
            IndexHashTableEntry::new(0x0000_0000_0000_0002, 7, 128 * 1000).unwrap(),
            IndexHashTableEntry { hash: 3, bitfield: 0xFFFF_FFFF },
        ],
    };
    let bytes = index.write_to_buffer().unwrap();
    assert_eq!(bytes.len(), 2048 + 48);
    let read = IndexFile::from_existing(&bytes).unwrap();
    assert_eq!(read.sqpack_header, index.sqpack_header);
    assert_eq!(read.index_header, index.index_header);
    assert_eq!(read.entries, index.entries);
    assert_eq!(read.entries[1].data_file_id(), 7);
    assert_eq!(read.entries[1].offset(), 128000);
}

#[test]
fn index_that_cannot_be_stored() {
    let index = IndexFile {
        sqpack_header: SqPackHeader { platform_id: Platform::Win32, size: 8, version: 1, file_type: 2 },
        index_header: SqPackIndexHeader { size: 0, file_type: 0, index_data_offset: 2048, index_data_size: 0 },
        entries: vec![],
    };
    assert!(index.write_to_buffer().is_none());
    assert!(IndexHashTableEntry::new(1, 8, 128).is_none());
    assert!(IndexHashTableEntry::new(1, 1, 100).is_none());
}
