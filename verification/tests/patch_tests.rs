use physis::patch::{apply_patch, PatchError, PatchErrorKind, PatchOperation};

const MAGIC: [u8; 12] = [0x91, 0x5A, 0x49, 0x50, 0x41, 0x54, 0x43, 0x48, 0x0D, 0x0A, 0x1A, 0x0A];

fn chunk(tag: &[u8; 4], payload: &[u8]) -> Vec<u8> {
    let mut bytes: Vec<u8> = Vec::new();
    bytes.extend_from_slice(&(payload.len() as u32).to_be_bytes());
    bytes.extend_from_slice(tag);
    bytes.extend_from_slice(payload);
    bytes.extend_from_slice(&[0xAA; 4]);
    bytes
}

fn named(name: &[u8]) -> Vec<u8> {
    let mut payload: Vec<u8> = Vec::new();
    payload.extend_from_slice(&(name.len() as u32).to_be_bytes());
    payload.extend_from_slice(name);
    payload
}

fn sqpk(letter: u8, rest: &[u8]) -> Vec<u8> {
    let mut payload: Vec<u8> = Vec::new();
    payload.extend_from_slice(&((rest.len() + 5) as u32).to_be_bytes());
    payload.push(letter);
    payload.extend_from_slice(rest);
    chunk(b"SQPK", &payload)
}

fn target(main_id: u16, sub_id: u16, file_id: u32) -> Vec<u8> {
    let mut bytes: Vec<u8> = Vec::new();
    bytes.extend_from_slice(&main_id.to_be_bytes());
    bytes.extend_from_slice(&sub_id.to_be_bytes());
    bytes.extend_from_slice(&file_id.to_be_bytes());
    bytes
}

fn file_operation(operation: u8, offset: u64, size: u64, expansion: u16, path: &[u8], blocks: &[u8]) -> Vec<u8> {
    let mut rest: Vec<u8> = vec![operation, 0, 0];
    rest.extend_from_slice(&offset.to_be_bytes());
    rest.extend_from_slice(&size.to_be_bytes());
    rest.extend_from_slice(&(path.len() as u32).to_be_bytes());
    rest.extend_from_slice(&expansion.to_be_bytes());
    rest.extend_from_slice(&[0, 0]);
    rest.extend_from_slice(path);
    rest.extend_from_slice(blocks);
    sqpk(b'F', &rest)
}

fn raw_block(data: &[u8]) -> Vec<u8> {
    let mut bytes: Vec<u8> = Vec::new();
    bytes.extend_from_slice(&16u32.to_le_bytes());
    bytes.extend_from_slice(&0u32.to_le_bytes());
    bytes.extend_from_slice(&32000u32.to_le_bytes());
    bytes.extend_from_slice(&(data.len() as u32).to_le_bytes());
    bytes.extend_from_slice(data);
    bytes.resize((data.len() + 143) / 128 * 128, 0);
    bytes
}

fn packed_block(data: &[u8]) -> Vec<u8> {
    let packed = miniz_oxide::deflate::compress_to_vec(data, 6);
    let mut bytes: Vec<u8> = Vec::new();
    bytes.extend_from_slice(&16u32.to_le_bytes());
    bytes.extend_from_slice(&0u32.to_le_bytes());
    bytes.extend_from_slice(&(packed.len() as u32).to_le_bytes());
    bytes.extend_from_slice(&(data.len() as u32).to_le_bytes());
    bytes.extend_from_slice(&packed);
    bytes.resize((packed.len() + 143) / 128 * 128, 0);
    bytes
}

fn patch(chunks: &[Vec<u8>]) -> Vec<u8> {
    let mut bytes = MAGIC.to_vec();
    for chunk in chunks {
        bytes.extend_from_slice(chunk);
    }
    bytes
}

fn end() -> Vec<u8> {
    chunk(b"EOF_", &[])
}

#[test]
fn directories_and_unknown_chunks() {
    let bytes = patch(&[
        chunk(b"FHDR", &[3u8; 40]),
        chunk(b"APLY", &[0u8; 12]),
        chunk(b"ADIR", &named(b"movie/ffxiv")),
        chunk(b"XXXX", b"whatever this is"),
        chunk(b"DELD", &named(b"old\0junk")),
        end(),
    ]);
    assert_eq!(
        apply_patch("/game", &bytes),
        Ok(vec![
            PatchOperation::CreateDirectory { path: "/game/movie/ffxiv".to_string() },
            PatchOperation::DeleteDirectory { path: "/game/old".to_string() },
        ])
    );
}

#[test]
fn files_are_written_from_their_blocks() {
    let text: Vec<u8> = b"0123456789".iter().cycle().take(300).copied().collect();
    let mut blocks = raw_block(&text[..100]);
    blocks.extend_from_slice(&packed_block(&text[100..]));
    let bytes = patch(&[
        file_operation(b'A', 0, 300, 0, b"sqpack/ffxiv/ffxivgame.ver\0", &blocks),
        file_operation(b'A', 4096, 100, 0, b"b.bin", &raw_block(&text[..100])),
        file_operation(b'D', 0, 0, 0, b"gone.txt\0", &[]),
        file_operation(b'M', 0, 0, 0, b"some/dir", &[]),
        file_operation(b'R', 0, 0, 2, b"", &[]),
        file_operation(b'R', 0, 0, 0, b"", &[]),
        end(),
    ]);
    assert_eq!(
        apply_patch("/game", &bytes),
        Ok(vec![
            PatchOperation::WriteFile {
                path: "/game/sqpack/ffxiv/ffxivgame.ver".to_string(),
                offset: 0,
                truncate: true,
                data: text.clone(),
            },
            PatchOperation::WriteFile {
                path: "/game/b.bin".to_string(),
                offset: 4096,
                truncate: false,
                data: text[..100].to_vec(),
            },
            PatchOperation::DeleteFile { path: "/game/gone.txt".to_string() },
            PatchOperation::CreateDirectory { path: "/game/some/dir".to_string() },
            PatchOperation::DeleteDirectory { path: "/game/sqpack/ex2".to_string() },
            PatchOperation::DeleteDirectory { path: "/game/sqpack/ffxiv".to_string() },
        ])
    );
}

#[test]
fn pack_files_are_written() {
    let mut add = vec![0u8; 3];
    add.extend_from_slice(&target(0x0a, 0x0000, 0));
    add.extend_from_slice(&2u32.to_be_bytes());
    add.extend_from_slice(&1u32.to_be_bytes());
    add.extend_from_slice(&1u32.to_be_bytes());
    add.extend_from_slice(&[7u8; 128]);

    let mut expand = vec![0u8; 3];
    expand.extend_from_slice(&target(0x02, 0x0301, 4));
    expand.extend_from_slice(&10u32.to_be_bytes());
    expand.extend_from_slice(&2u32.to_be_bytes());
    expand.extend_from_slice(&[0u8; 4]);

    let mut platform = vec![0u8; 3];
    platform.extend_from_slice(&2u16.to_be_bytes());

    let mut header = vec![b'I', b'I', 0];
    header.extend_from_slice(&target(0x13, 0x0100, 0));
    header.extend_from_slice(&[9u8; 1024]);

    let mut version = vec![b'D', b'V', 0];
    version.extend_from_slice(&target(0x13, 0x0100, 1));
    version.extend_from_slice(&[8u8; 1024]);

    let bytes = patch(&[
        sqpk(b'A', &add),
        sqpk(b'E', &expand),
        sqpk(b'X', &[1, 2, 3]),
        sqpk(b'I', &[0u8; 20]),
        sqpk(b'T', &platform),
        sqpk(b'H', &header),
        sqpk(b'H', &version),
        end(),
    ]);
    let mut added = vec![7u8; 128];
    added.extend_from_slice(&[0u8; 128]);
    let mut emptied = vec![0u8; 256];
    emptied[0] = 128;
    emptied[12] = 1;
    assert_eq!(
        apply_patch("/game", &bytes),
        Ok(vec![
            PatchOperation::WriteFile {
                path: "/game/sqpack/ffxiv/0a0000.win32.dat0".to_string(),
                offset: 256,
                truncate: false,
                data: added,
            },
            PatchOperation::WriteFile {
                path: "/game/sqpack/ex3/020301.win32.dat4".to_string(),
                offset: 1280,
                truncate: false,
                data: emptied,
            },
            PatchOperation::WriteFile {
                path: "/game/sqpack/ex1/130100.ps4.index".to_string(),
                offset: 1024,
                truncate: false,
                data: vec![9u8; 1024],
            },
            PatchOperation::WriteFile {
                path: "/game/sqpack/ex1/130100.ps4.dat1".to_string(),
                offset: 0,
                truncate: false,
                data: vec![8u8; 1024],
            },
        ])
    );
}

#[test]
fn patches_that_cannot_be_read() {
    let bad = PatchError { kind: PatchErrorKind::BadMagic, chunk_offset: 0 };
    assert_eq!(apply_patch("/game", b""), Err(bad));
    assert_eq!(apply_patch("/game", b"ZIPATCH and more"), Err(bad));

    // no chunk that ends the patch
    let open = patch(&[chunk(b"ADIR", &named(b"a"))]);
    assert_eq!(
        apply_patch("/game", &open),
        Err(PatchError { kind: PatchErrorKind::Truncated, chunk_offset: open.len() as u64 })
    );
    assert_eq!(
        apply_patch("/game", &MAGIC),
        Err(PatchError { kind: PatchErrorKind::Truncated, chunk_offset: 12 })
    );
    // a chunk that is cut short
    let cut = patch(&[chunk(b"ADIR", &named(b"a")), chunk(b"DELD", &named(b"bcd")), end()]);
    assert_eq!(
        apply_patch("/game", &cut[..40]),
        Err(PatchError { kind: PatchErrorKind::Truncated, chunk_offset: 29 })
    );
    // a name that is longer than its chunk
    let mut long = named(b"abc");
    long[3] = 200;
    assert_eq!(
        apply_patch("/game", &patch(&[chunk(b"ADIR", &long), end()])),
        Err(PatchError { kind: PatchErrorKind::Truncated, chunk_offset: 12 })
    );
    // an operation on pack files that is not known
    let unknown = patch(&[chunk(b"ADIR", &named(b"a")), sqpk(b'Q', &[0u8; 64]), end()]);
    assert_eq!(
        apply_patch("/game", &unknown),
        Err(PatchError { kind: PatchErrorKind::UnknownChunk, chunk_offset: 29 })
    );
    let file = patch(&[file_operation(b'Z', 0, 0, 0, b"a", &[]), end()]);
    assert_eq!(
        apply_patch("/game", &file),
        Err(PatchError { kind: PatchErrorKind::UnknownChunk, chunk_offset: 12 })
    );
    // a file whose blocks hold less than it declares
    let short = patch(&[file_operation(b'A', 0, 11, 0, b"a", &raw_block(b"0123456789")), end()]);
    assert_eq!(
        apply_patch("/game", &short),
        Err(PatchError { kind: PatchErrorKind::Truncated, chunk_offset: 12 })
    );
}

#[test]
fn operations_name_the_chunks_that_ask_for_them() {
    let bytes = patch(&[
        chunk(b"FHDR", &[3u8; 40]),
        chunk(b"ADIR", &named(b"movie/ffxiv")),
        chunk(b"XXXX", b"whatever this is"),
        chunk(b"DELD", &named(b"old\0junk")),
        end(),
    ]);
    let first = 12 + 12 + 40;
    let second = first + 12 + named(b"movie/ffxiv").len() + 12 + 16;
    assert_eq!(
        physis::patch::operation_chunks("/game", &bytes),
        Some(vec![first as u64, second as u64])
    );
    assert_eq!(physis::patch::operation_chunks("/game", &patch(&[end()])), Some(vec![]));
    // without the chunk that ends the patch, and without the letters at its start
    assert_eq!(physis::patch::operation_chunks("/game", &bytes[..bytes.len() - 12]), None);
    assert_eq!(
        apply_patch("/game", &bytes[..bytes.len() - 12]),
        Err(PatchError { kind: PatchErrorKind::Truncated, chunk_offset: bytes.len() as u64 - 12 })
    );
    assert_eq!(physis::patch::operation_chunks("/game", &bytes[1..]), None);
}
