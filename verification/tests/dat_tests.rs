use physis::dat::{read_data_block, read_from_offset, DatFile};

fn block(data: &[u8], compress: bool) -> Vec<u8> {
    let mut bytes: Vec<u8> = Vec::new();
    bytes.extend_from_slice(&16u32.to_le_bytes());
    bytes.extend_from_slice(&0u32.to_le_bytes());
    if compress {
        let packed = miniz_oxide::deflate::compress_to_vec(data, 6);
        bytes.extend_from_slice(&(packed.len() as u32).to_le_bytes());
        bytes.extend_from_slice(&(data.len() as u32).to_le_bytes());
        bytes.extend_from_slice(&packed);
    } else {
        bytes.extend_from_slice(&32000u32.to_le_bytes());
        bytes.extend_from_slice(&(data.len() as u32).to_le_bytes());
        bytes.extend_from_slice(data);
    }
    bytes
}

fn standard_file(blocks: &[Vec<u8>], file_size: u32, lead: usize) -> Vec<u8> {
    let header_size = 24 + 8 * blocks.len() as u32;
    let mut bytes: Vec<u8> = vec![0xEE; lead];
    bytes.extend_from_slice(&header_size.to_le_bytes());
    bytes.extend_from_slice(&2u32.to_le_bytes());
    bytes.extend_from_slice(&file_size.to_le_bytes());
    bytes.extend_from_slice(&[0u8; 8]);
    bytes.extend_from_slice(&(blocks.len() as u32).to_le_bytes());
    let mut offset: u32 = 0;
    for block in blocks {
        bytes.extend_from_slice(&offset.to_le_bytes());
        bytes.extend_from_slice(&(block.len() as u16).to_le_bytes());
        bytes.extend_from_slice(&0u16.to_le_bytes());
        offset += block.len() as u32;
    }
    for block in blocks {
        bytes.extend_from_slice(block);
    }
    bytes
}

#[test]
fn raw_and_compressed_blocks() {
    let raw = block(b"plain bytes", false);
    assert_eq!(read_data_block(&raw, 0).unwrap(), b"plain bytes");
    let text = b"hello hello hello hello hello hello";
    let packed = block(text, true);
    assert!(packed.len() < 16 + text.len());
    assert_eq!(read_data_block(&packed, 0).unwrap(), text);
    // Known raw DEFLATE data.
    let mut known: Vec<u8> = Vec::new();
    known.extend_from_slice(&16u32.to_le_bytes());
    known.extend_from_slice(&0u32.to_le_bytes());
    known.extend_from_slice(&10u32.to_le_bytes());
    known.extend_from_slice(&23u32.to_le_bytes());
    known.extend_from_slice(&[203, 72, 205, 201, 201, 87, 200, 64, 39, 1]);
    assert_eq!(read_data_block(&known, 0).unwrap(), b"hello hello hello hello");
}

#[test]
fn blocks_that_cannot_be_read() {
    let text = b"hello hello hello hello hello hello";
    let mut wrong_size = block(text, true);
    wrong_size[12] = wrong_size[12].wrapping_add(1);
    assert!(read_data_block(&wrong_size, 0).is_none());
    let mut short = block(text, true);
    short[12] = 3;
    assert!(read_data_block(&short, 0).is_none());
    let mut broken = block(text, true);
    for byte in broken[16..].iter_mut() {
        *byte = 0xFF;
    }
    assert!(read_data_block(&broken, 0).is_none());
    let raw = block(b"plain bytes", false);
    assert!(read_data_block(&raw[..raw.len() - 1], 0).is_none());
    assert!(read_data_block(&raw, 1000).is_none());
    assert!(read_data_block(&raw[..15], 0).is_none());
}

#[test]
fn standard_file_is_assembled() {
    let first = b"first block, stored as it is. ".to_vec();
    let second: Vec<u8> = std::iter::repeat(b"second ".iter().copied()).take(40).flatten().collect();
    let blocks = vec![block(&first, false), block(&second, true)];
    let size = (first.len() + second.len()) as u32;
    let bytes = standard_file(&blocks, size, 256);
    let mut expected = first.clone();
    expected.extend_from_slice(&second);
    assert_eq!(read_from_offset(&bytes, 256).unwrap(), expected);
    let file = DatFile::from_existing(bytes.clone());
    assert_eq!(file.read_from_offset(256).unwrap(), expected);
    // The declared size must be met.
    let wrong = standard_file(&blocks, size + 1, 256);
    assert!(read_from_offset(&wrong, 256).is_none());
    // Nothing lies at other offsets or beyond the end.
    assert!(read_from_offset(&bytes, 0).is_none());
    assert!(read_from_offset(&bytes, bytes.len() as u64).is_none());
    assert!(read_from_offset(&bytes, u64::MAX).is_none());
}

#[test]
fn empty_and_unknown_kinds() {
    let mut empty: Vec<u8> = Vec::new();
    empty.extend_from_slice(&24u32.to_le_bytes());
    empty.extend_from_slice(&1u32.to_le_bytes());
    empty.extend_from_slice(&0u32.to_le_bytes());
    empty.extend_from_slice(&[0u8; 12]);
    assert!(read_from_offset(&empty, 0).is_none());
    empty[4] = 9;
    assert!(read_from_offset(&empty, 0).is_none());
}

fn model_file(groups: &[Vec<Vec<u8>>; 8], file_size: u32) -> Vec<u8> {
    // groups: stack, runtime, then vertex and index data of three levels
    let mut table: Vec<u16> = Vec::new();
    let mut data: Vec<u8> = Vec::new();
    let mut offsets = [0u32; 8];
    let mut counts = [0u16; 8];
    for (g, group) in groups.iter().enumerate() {
        offsets[g] = data.len() as u32;
        counts[g] = group.len() as u16;
        for piece in group {
            let stored = block(piece, true);
            table.push(stored.len() as u16);
            data.extend_from_slice(&stored);
        }
    }
    let header_size = 208 + 2 * table.len() as u32;
    let mut bytes: Vec<u8> = Vec::new();
    bytes.extend_from_slice(&header_size.to_le_bytes());
    bytes.extend_from_slice(&3u32.to_le_bytes());
    bytes.extend_from_slice(&file_size.to_le_bytes());
    bytes.extend_from_slice(&(table.len() as u32).to_le_bytes());
    bytes.extend_from_slice(&(table.len() as u32).to_le_bytes());
    bytes.extend_from_slice(&5u32.to_le_bytes());
    // sizes without and with compression: not read
    bytes.extend_from_slice(&[0u8; 88]);
    // offsets: stack, runtime, vertex x3, edge x3, index x3
    let order = |values: &[u32; 8]| -> Vec<u32> {
        vec![values[0], values[1], values[2], values[4], values[6], 0, 0, 0, values[3], values[5], values[7]]
    };
    for value in order(&offsets) {
        bytes.extend_from_slice(&value.to_le_bytes());
    }
    // first block indices: not read
    bytes.extend_from_slice(&[0u8; 22]);
    let wide: [u32; 8] = [
        counts[0] as u32, counts[1] as u32, counts[2] as u32, counts[3] as u32,
        counts[4] as u32, counts[5] as u32, counts[6] as u32, counts[7] as u32,
    ];
    for value in order(&wide) {
        bytes.extend_from_slice(&(value as u16).to_le_bytes());
    }
    bytes.extend_from_slice(&0u16.to_le_bytes());
    bytes.extend_from_slice(&3u16.to_le_bytes());
    bytes.extend_from_slice(&[1, 1, 0, 0]);
    assert_eq!(bytes.len(), 208);
    for size in &table {
        bytes.extend_from_slice(&size.to_le_bytes());
    }
    bytes.extend_from_slice(&data);
    bytes
}

#[test]
fn model_file_is_assembled() {
    let groups: [Vec<Vec<u8>>; 8] = [
        vec![vec![1u8; 10]],
        vec![vec![2u8; 20], vec![3u8; 5]],
        vec![vec![4u8; 32]],
        vec![vec![5u8; 16]],
        vec![],
        vec![],
        vec![vec![6u8; 8]],
        vec![],
    ];
    let total: u32 = 68 + 10 + 25 + 32 + 16 + 8;
    let bytes = model_file(&groups, total);
    let file = read_from_offset(&bytes, 0).unwrap();
    assert_eq!(file.len(), total as usize);
    let header = physis::model::ModelFileHeader::read(&file).unwrap();
    assert_eq!(header.version, 5);
    assert_eq!(header.stack_size, 10);
    assert_eq!(header.runtime_size, 25);
    assert_eq!(header.vertex_declaration_count, 0);
    assert_eq!(header.material_count, 3);
    assert_eq!(header.vertex_offsets, [68 + 35, 0, 68 + 35 + 48]);
    assert_eq!(header.index_offsets, [68 + 35 + 32, 0, 0]);
    assert_eq!(header.vertex_buffer_size, [32, 0, 8]);
    assert_eq!(header.index_buffer_size, [16, 0, 0]);
    assert_eq!(header.lod_count, 1);
    assert!(header.index_buffer_streaming_enabled);
    assert!(!header.has_edge_geometry);
    assert_eq!(&file[68..78], &[1u8; 10]);
    assert_eq!(&file[78..98], &[2u8; 20]);
    assert_eq!(&file[98..103], &[3u8; 5]);
    assert_eq!(&file[103..135], &[4u8; 32]);
    assert_eq!(&file[135..151], &[5u8; 16]);
    assert_eq!(&file[151..159], &[6u8; 8]);
    // The declared size must be met.
    assert!(read_from_offset(&model_file(&groups, total - 1), 0).is_none());
}

fn texture_file(header: &[u8], levels: &[Vec<Vec<u8>>], file_size: u32) -> Vec<u8> {
    let mut table: Vec<u16> = Vec::new();
    let mut data: Vec<u8> = header.to_vec();
    let mut records: Vec<[u32; 5]> = Vec::new();
    for level in levels {
        let offset = data.len() as u32;
        let mut packed_size: u32 = 0;
        let mut size: u32 = 0;
        for piece in level {
            let stored = block(piece, true);
            table.push(stored.len() as u16);
            packed_size += stored.len() as u32;
            size += piece.len() as u32;
            data.extend_from_slice(&stored);
        }
        records.push([offset, packed_size, size, 0, level.len() as u32]);
    }
    let header_size = 24 + 20 * records.len() as u32 + 2 * table.len() as u32;
    let mut bytes: Vec<u8> = Vec::new();
    bytes.extend_from_slice(&header_size.to_le_bytes());
    bytes.extend_from_slice(&4u32.to_le_bytes());
    bytes.extend_from_slice(&file_size.to_le_bytes());
    bytes.extend_from_slice(&[0u8; 8]);
    bytes.extend_from_slice(&(records.len() as u32).to_le_bytes());
    for record in &records {
        for value in record {
            bytes.extend_from_slice(&value.to_le_bytes());
        }
    }
    for size in &table {
        bytes.extend_from_slice(&size.to_le_bytes());
    }
    bytes.extend_from_slice(&data);
    bytes
}

#[test]
fn texture_file_is_assembled() {
    let header: Vec<u8> = (0..80u8).collect();
    let levels = vec![vec![vec![9u8; 64], vec![8u8; 64]], vec![vec![7u8; 32]]];
    let bytes = texture_file(&header, &levels, 80 + 160);
    let file = read_from_offset(&bytes, 0).unwrap();
    assert_eq!(&file[..80], &header[..]);
    assert_eq!(&file[80..144], &[9u8; 64]);
    assert_eq!(&file[144..208], &[8u8; 64]);
    assert_eq!(&file[208..240], &[7u8; 32]);
    assert_eq!(file.len(), 240);
    assert!(read_from_offset(&texture_file(&header, &levels, 241), 0).is_none());
    assert!(read_from_offset(&texture_file(&header, &[], 80), 0).is_none());
}
