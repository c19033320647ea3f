//! Patch files: a stream of chunks that say which directories and files of a
//! game directory are to be made, removed or written.
//!
//! A patch is read into the list of the operations that it asks for; to
//! perform them is left to the caller.

use vstd::prelude::*;
use crate::binary::{
    find, push_bytes, push_u32_le, push_zeros, read_text, read_u16_be,
    read_u32_be, read_u64_be, spec_chars, spec_find, spec_u16_be, spec_u32_be, spec_u32_le,
    spec_u32_le_bytes, spec_u64_be, spec_zeros, copy_range, read_u32_le,
};
use crate::common::{get_platform_string, spec_platform_string, Platform};
use crate::dat::{read_data_block, spec_data_block, RAW_BLOCK};
use crate::text::{
    push_decimal, push_padded_hex, push_text, spec_decimal, spec_padded_hex,
};

verus! {

/// The number of bytes of the letters at the start of a patch file.
pub const PATCH_MAGIC_SIZE: usize = 12;

/// Why a patch cannot be applied.
#[derive(PartialEq, Eq, Structural, Clone, Copy, Debug)]
pub enum PatchErrorKind {
    /// The file does not start with the letters of a patch file.
    BadMagic,
    /// The file ends inside a chunk, or before the chunk that ends the patch.
    Truncated,
    /// A chunk for pack files asks for an operation that is not known.
    UnknownChunk,
    /// An operation could not be performed.
    WriteFailed,
}

/// Why a patch cannot be applied, and the offset of the chunk at which it failed.
#[derive(PartialEq, Eq, Structural, Clone, Copy, Debug)]
pub struct PatchError {
    pub kind: PatchErrorKind,
    pub chunk_offset: u64,
}

/// One operation on the game directory that a patch asks for.
#[derive(PartialEq, Eq, Clone, Debug)]
pub enum PatchOperation {
    /// Make the directory, and those above it.
    CreateDirectory { path: String },
    /// Remove the directory with all that it holds.
    DeleteDirectory { path: String },
    /// Remove the file.
    DeleteFile { path: String },
    /// Write the data into the file at the offset, making the file and the
    /// directories above it where they are missing, and emptying the file
    /// first where `truncate` is set.
    WriteFile { path: String, offset: u64, truncate: bool, data: Vec<u8> },
}

/// What an operation holds.
pub enum PatchOperationView {
    CreateDirectory { path: Seq<char> },
    DeleteDirectory { path: Seq<char> },
    DeleteFile { path: Seq<char> },
    WriteFile { path: Seq<char>, offset: u64, truncate: bool, data: Seq<u8> },
}

impl View for PatchOperation {
    type V = PatchOperationView;

    open spec fn view(&self) -> PatchOperationView {
        match self {
            PatchOperation::CreateDirectory { path } => PatchOperationView::CreateDirectory {
                path: path@,
            },
            PatchOperation::DeleteDirectory { path } => PatchOperationView::DeleteDirectory {
                path: path@,
            },
            PatchOperation::DeleteFile { path } => PatchOperationView::DeleteFile { path: path@ },
            PatchOperation::WriteFile { path, offset, truncate, data } => PatchOperationView::WriteFile {
                path: path@,
                offset: *offset,
                truncate: *truncate,
                data: data@,
            },
        }
    }
}

/// The views of the operations.
pub open spec fn spec_operation_views(operations: Seq<PatchOperation>) -> Seq<PatchOperationView> {
    Seq::new(operations.len(), |i: int| operations[i]@)
}

/// The file starts with the twelve bytes of a patch file: the byte 0x91, the
/// letters `ZIPATCH`, and the bytes 0x0D, 0x0A, 0x1A, 0x0A.
pub open spec fn spec_has_magic(s: Seq<u8>) -> bool {
    s.len() >= 12 && s[0] == 0x91 && s[1] == 0x5A && s[2] == 0x49 && s[3] == 0x50 && s[4] == 0x41
        && s[5] == 0x54 && s[6] == 0x43 && s[7] == 0x48 && s[8] == 0x0D && s[9] == 0x0A && s[10]
        == 0x1A && s[11] == 0x0A
}

/// The four bytes at `at` are the given letters.
pub open spec fn spec_tag_is(s: Seq<u8>, at: int, a: u8, b: u8, c: u8, d: u8) -> bool {
    s[at] == a && s[at + 1] == b && s[at + 2] == c && s[at + 3] == d
}

/// The name of the directory of an expansion: `ffxiv` for number zero, else
/// `ex` and the number.
pub open spec fn spec_expansion_folder(expansion: int) -> Seq<char> {
    if expansion == 0 {
        "ffxiv"@
    } else {
        "ex"@ + spec_decimal(expansion as nat)
    }
}

/// The stem of the path of a pack file: the directory of the expansion, which
/// is the upper byte of `sub_id`, and in it the file named by `main_id` in at
/// least two and `sub_id` in at least four hexadecimal digits, and the
/// platform.
pub open spec fn spec_pack_path(
    directory: Seq<char>,
    platform: Platform,
    main_id: u16,
    sub_id: u16,
) -> Seq<char> {
    directory + "/sqpack/"@ + spec_expansion_folder(sub_id as int / 256) + "/"@ + spec_padded_hex(
        main_id as nat,
        2,
    ) + spec_padded_hex(sub_id as nat, 4) + "."@ + spec_platform_string(platform)
}

/// The path of data file `file_id` of a pack.
pub open spec fn spec_dat_path(
    directory: Seq<char>,
    platform: Platform,
    main_id: u16,
    sub_id: u16,
    file_id: u32,
) -> Seq<char> {
    spec_pack_path(directory, platform, main_id, sub_id) + ".dat"@ + spec_decimal(file_id as nat)
}

/// The path of index file `file_id` of a pack; the number is left out where
/// it is zero.
pub open spec fn spec_index_path(
    directory: Seq<char>,
    platform: Platform,
    main_id: u16,
    sub_id: u16,
    file_id: u32,
) -> Seq<char> {
    if file_id == 0 {
        spec_pack_path(directory, platform, main_id, sub_id) + ".index"@
    } else {
        spec_pack_path(directory, platform, main_id, sub_id) + ".index"@ + spec_decimal(
            file_id as nat,
        )
    }
}

/// The path of what stands in the game directory under the name stored in the
/// `length` bytes at `at`, of which those before the first zero byte count.
pub open spec fn spec_named_path(directory: Seq<char>, s: Seq<u8>, at: int, length: int) -> Seq<
    char,
> {
    directory + "/"@ + spec_chars(s, at, spec_find(s, 0, at, at + length))
}

/// The bytes of an empty block of `blocks` units of 128 bytes: a header of
/// five little-endian 32-bit integers, 128, 0, 0, the number of units less
/// one, and 0, and zeros up to the end.
pub open spec fn spec_empty_block(blocks: u32) -> Seq<u8> {
    if blocks == 0 {
        Seq::empty()
    } else {
        spec_u32_le_bytes(128) + spec_u32_le_bytes(0) + spec_u32_le_bytes(0) + spec_u32_le_bytes(
            (blocks - 1) as u32,
        ) + spec_u32_le_bytes(0) + spec_zeros(128 * blocks - 20)
    }
}

/// The distance from the block at `at` to the one after it: the sixteen bytes
/// of its header and its data, rounded up to units of 128 bytes after 127
/// more have been added.
pub open spec fn spec_block_stride(s: Seq<u8>, at: int) -> int {
    let first = spec_u32_le(s, at + 8);
    let second = spec_u32_le(s, at + 12);
    if first == RAW_BLOCK {
        (second + 143) / 128 * 128
    } else {
        (first + 143) / 128 * 128
    }
}

/// What the blocks from `at` on hold, one after the other, taken until there
/// are at least `file_size` bytes. There is nothing where a block cannot be
/// read, or the blocks reach `end` without holding that many.
pub open spec fn spec_file_blocks(
    s: Seq<u8>,
    at: int,
    end: int,
    file_size: int,
    data: Seq<u8>,
) -> Option<Seq<u8>>
    decreases end - at,
{
    if data.len() >= file_size {
        Some(data)
    } else if at < 0 || at + 16 > end {
        None
    } else {
        let stride = spec_block_stride(s, at);
        match spec_data_block(s, at) {
            None => None,
            Some(block) => if 0 < stride && at + stride <= end {
                spec_file_blocks(s, at + stride, end, file_size, data + block)
            } else if (data + block).len() >= file_size {
                Some(data + block)
            } else {
                None
            },
        }
    }
}

/// What one chunk asks for: the operations, and the platform of the pack
/// files from then on.
pub struct ChunkEffect {
    pub platform: Platform,
    pub operations: Seq<PatchOperationView>,
}

/// What was read of a chunk is what the chunk asks for.
pub open spec fn spec_effect_is(
    read: Result<(Platform, Vec<PatchOperation>), PatchErrorKind>,
    effect: Result<ChunkEffect, PatchErrorKind>,
) -> bool {
    match read {
        Ok((platform, operations)) => effect == Ok::<ChunkEffect, PatchErrorKind>(
            ChunkEffect { platform, operations: spec_operation_views(operations@) },
        ),
        Err(kind) => effect == Err::<ChunkEffect, PatchErrorKind>(kind),
    }
}

/// A chunk that asks for nothing.
pub open spec fn spec_no_effect(platform: Platform) -> Result<ChunkEffect, PatchErrorKind> {
    Ok(ChunkEffect { platform, operations: Seq::empty() })
}

/// A chunk that asks for one operation.
pub open spec fn spec_one_effect(platform: Platform, operation: PatchOperationView) -> Result<
    ChunkEffect,
    PatchErrorKind,
> {
    Ok(ChunkEffect { platform, operations: seq![operation] })
}

/// The path of the data file that a chunk for pack files names: the two ids
/// of the pack stand after eight bytes of its payload, the number of the file
/// after twelve.
pub open spec fn spec_chunk_dat_path(
    directory: Seq<char>,
    s: Seq<u8>,
    at: int,
    platform: Platform,
) -> Seq<char> {
    spec_dat_path(
        directory,
        platform,
        spec_u16_be(s, at + 8) as u16,
        spec_u16_be(s, at + 10) as u16,
        spec_u32_be(s, at + 12) as u32,
    )
}

/// The path of the index file that a chunk for pack files names.
pub open spec fn spec_chunk_index_path(
    directory: Seq<char>,
    s: Seq<u8>,
    at: int,
    platform: Platform,
) -> Seq<char> {
    spec_index_path(
        directory,
        platform,
        spec_u16_be(s, at + 8) as u16,
        spec_u16_be(s, at + 10) as u16,
        spec_u32_be(s, at + 12) as u32,
    )
}

/// What a chunk that adds data to a data file asks for. After the ids stand
/// the offset, the length of the data and the length that is cleared after
/// it, each in units of 128 bytes, and then the data. The data and as many
/// zeros as are cleared are written at the offset.
pub open spec fn spec_sqpk_add_data(
    directory: Seq<char>,
    s: Seq<u8>,
    at: int,
    size: int,
    platform: Platform,
) -> Result<ChunkEffect, PatchErrorKind> {
    let length = 128 * spec_u32_be(s, at + 20);
    let cleared = 128 * spec_u32_be(s, at + 24);
    if size < 28 || size < 28 + length || cleared > usize::MAX {
        Err(PatchErrorKind::Truncated)
    } else {
        spec_one_effect(
            platform,
            PatchOperationView::WriteFile {
                path: spec_chunk_dat_path(directory, s, at, platform),
                offset: (128 * spec_u32_be(s, at + 16)) as u64,
                truncate: false,
                data: s.subrange(at + 28, at + 28 + length) + spec_zeros(cleared),
            },
        )
    }
}

/// What a chunk that removes or expands data of a data file asks for. After
/// the ids stand the offset in units of 128 bytes and the number of units. An
/// empty block of that many units is written at the offset.
pub open spec fn spec_sqpk_empty_block(
    directory: Seq<char>,
    s: Seq<u8>,
    at: int,
    size: int,
    platform: Platform,
) -> Result<ChunkEffect, PatchErrorKind> {
    if size < 24 || 128 * spec_u32_be(s, at + 20) > usize::MAX {
        Err(PatchErrorKind::Truncated)
    } else {
        spec_one_effect(
            platform,
            PatchOperationView::WriteFile {
                path: spec_chunk_dat_path(directory, s, at, platform),
                offset: (128 * spec_u32_be(s, at + 16)) as u64,
                truncate: false,
                data: spec_empty_block(spec_u32_be(s, at + 20) as u32),
            },
        )
    }
}

/// What a chunk that updates a header asks for. The letter after the
/// operation says whether the file is an index (`I`) or a data file, the next
/// whether the header is the version header (`V`), which lies at the start of
/// the file, or one of those after it, which lie after 1024 bytes. The 1024
/// bytes of the header follow the ids.
pub open spec fn spec_sqpk_header(
    directory: Seq<char>,
    s: Seq<u8>,
    at: int,
    size: int,
    platform: Platform,
) -> Result<ChunkEffect, PatchErrorKind> {
    if size < 16 + 1024 {
        Err(PatchErrorKind::Truncated)
    } else {
        spec_one_effect(
            platform,
            PatchOperationView::WriteFile {
                path: if s[at + 5] == 0x49 {
                    spec_chunk_index_path(directory, s, at, platform)
                } else {
                    spec_chunk_dat_path(directory, s, at, platform)
                },
                offset: if s[at + 6] == 0x56 {
                    0
                } else {
                    1024
                },
                truncate: false,
                data: s.subrange(at + 16, at + 16 + 1024),
            },
        )
    }
}

/// What a chunk that works on a file or a directory asks for. The letter
/// after the operation says what is done; then stand, after two bytes of
/// padding, the offset and the size of the file, the length of the name, the
/// number of the expansion, two bytes of padding, and the name. `A` writes
/// what the blocks after the name hold at the offset, into a file that is
/// emptied first where the offset is zero; `D` removes the file; `M` makes
/// the directory; `R` removes the directory of the expansion's pack files.
pub open spec fn spec_sqpk_file(
    directory: Seq<char>,
    s: Seq<u8>,
    at: int,
    size: int,
    platform: Platform,
) -> Result<ChunkEffect, PatchErrorKind> {
    let length = spec_u32_be(s, at + 24);
    if size < 32 || size < 32 + length {
        Err(PatchErrorKind::Truncated)
    } else {
        let path = spec_named_path(directory, s, at + 32, length);
        let operation = s[at + 5];
        if operation == 0x41 {
            match spec_file_blocks(
                s,
                at + 32 + length,
                at + size,
                spec_u64_be(s, at + 16),
                Seq::empty(),
            ) {
                None => Err(PatchErrorKind::Truncated),
                Some(data) => spec_one_effect(
                    platform,
                    PatchOperationView::WriteFile {
                        path,
                        offset: spec_u64_be(s, at + 8) as u64,
                        truncate: spec_u64_be(s, at + 8) == 0,
                        data,
                    },
                ),
            }
        } else if operation == 0x44 {
            spec_one_effect(platform, PatchOperationView::DeleteFile { path })
        } else if operation == 0x4D {
            spec_one_effect(platform, PatchOperationView::CreateDirectory { path })
        } else if operation == 0x52 {
            spec_one_effect(
                platform,
                PatchOperationView::DeleteDirectory {
                    path: directory + "/sqpack/"@ + spec_expansion_folder(spec_u16_be(s, at + 28)),
                },
            )
        } else {
            Err(PatchErrorKind::UnknownChunk)
        }
    }
}

/// What a chunk that names the platform asks for: the platform stands after
/// eight bytes, 1 for PS3, 2 for PS4, anything else for Win32.
pub open spec fn spec_sqpk_target(s: Seq<u8>, at: int, size: int) -> Result<
    ChunkEffect,
    PatchErrorKind,
> {
    if size < 10 {
        Err(PatchErrorKind::Truncated)
    } else {
        let code = spec_u16_be(s, at + 8);
        spec_no_effect(
            if code == 1 {
                Platform::PS3
            } else if code == 2 {
                Platform::PS4
            } else {
                Platform::Win32
            },
        )
    }
}

/// What a chunk for pack files asks for. Its payload starts at `at` and has
/// `size` bytes: its own size, the letter of the operation, and what the
/// operation needs. All numbers are big-endian. `A` adds data to a data file,
/// `D` and `E` put an empty block into one, `H` writes a header, `F` works on
/// a file or a directory, `T` names the platform, `I` and `X` ask for
/// nothing. Any other letter is not known.
pub open spec fn spec_sqpk(
    directory: Seq<char>,
    s: Seq<u8>,
    at: int,
    size: int,
    platform: Platform,
) -> Result<ChunkEffect, PatchErrorKind> {
    if size < 5 {
        Err(PatchErrorKind::Truncated)
    } else {
        let letter = s[at + 4];
        if letter == 0x41 {
            spec_sqpk_add_data(directory, s, at, size, platform)
        } else if letter == 0x44 || letter == 0x45 {
            spec_sqpk_empty_block(directory, s, at, size, platform)
        } else if letter == 0x48 {
            spec_sqpk_header(directory, s, at, size, platform)
        } else if letter == 0x46 {
            spec_sqpk_file(directory, s, at, size, platform)
        } else if letter == 0x54 {
            spec_sqpk_target(s, at, size)
        } else if letter == 0x49 || letter == 0x58 {
            spec_no_effect(platform)
        } else {
            Err(PatchErrorKind::UnknownChunk)
        }
    }
}

/// What a chunk with the letters at `tag_at` and a payload of `size` bytes
/// after them asks for. `ADIR` makes and `DELD` removes the directory whose
/// name stands in the payload after its length; `SQPK` is a chunk for pack
/// files; every other chunk asks for nothing.
pub open spec fn spec_chunk(
    directory: Seq<char>,
    s: Seq<u8>,
    tag_at: int,
    size: int,
    platform: Platform,
) -> Result<ChunkEffect, PatchErrorKind> {
    let at = tag_at + 4;
    if spec_tag_is(s, tag_at, 0x41, 0x44, 0x49, 0x52) || spec_tag_is(
        s,
        tag_at,
        0x44,
        0x45,
        0x4C,
        0x44,
    ) {
        if size < 4 || size < 4 + spec_u32_be(s, at) {
            Err(PatchErrorKind::Truncated)
        } else {
            let path = spec_named_path(directory, s, at + 4, spec_u32_be(s, at));
            if s[tag_at] == 0x41 {
                spec_one_effect(platform, PatchOperationView::CreateDirectory { path })
            } else {
                spec_one_effect(platform, PatchOperationView::DeleteDirectory { path })
            }
        }
    } else if spec_tag_is(s, tag_at, 0x53, 0x51, 0x50, 0x4B) {
        spec_sqpk(directory, s, at, size, platform)
    } else {
        spec_no_effect(platform)
    }
}

/// The operations that the chunks from `at` on ask for, after those that came
/// before. A chunk is the size of its payload, four letters, the payload and
/// a checksum of four bytes; the chunk `EOF_` ends the patch.
pub open spec fn spec_chunks(
    directory: Seq<char>,
    s: Seq<u8>,
    at: int,
    platform: Platform,
    operations: Seq<PatchOperationView>,
) -> Result<Seq<PatchOperationView>, PatchError>
    decreases s.len() - at,
{
    if at < 0 || at + 8 > s.len() {
        Err(PatchError { kind: PatchErrorKind::Truncated, chunk_offset: at as u64 })
    } else if spec_tag_is(s, at + 4, 0x45, 0x4F, 0x46, 0x5F) {
        Ok(operations)
    } else {
        let size = spec_u32_be(s, at);
        if at + 12 + size > s.len() {
            Err(PatchError { kind: PatchErrorKind::Truncated, chunk_offset: at as u64 })
        } else {
            match spec_chunk(directory, s, at + 4, size, platform) {
                Err(kind) => Err(PatchError { kind, chunk_offset: at as u64 }),
                Ok(effect) => spec_chunks(
                    directory,
                    s,
                    at + 12 + size,
                    effect.platform,
                    operations + effect.operations,
                ),
            }
        }
    }
}

/// The operations that a patch asks for, in the order of its chunks.
pub open spec fn spec_apply_patch(directory: Seq<char>, s: Seq<u8>) -> Result<
    Seq<PatchOperationView>,
    PatchError,
> {
    if spec_has_magic(s) {
        spec_chunks(directory, s, 12, Platform::Win32, Seq::empty())
    } else {
        Err(PatchError { kind: PatchErrorKind::BadMagic, chunk_offset: 0 })
    }
}

/// As many times the offset as there are operations.
pub open spec fn spec_repeated(offset: u64, count: int) -> Seq<u64> {
    Seq::new(
        if count < 0 {
            0
        } else {
            count as nat
        },
        |i: int| offset,
    )
}

/// For each operation that the chunks from `at` on ask for, the offset of the
/// chunk that asks for it, after the offsets that came before. There are none
/// where the operations cannot be read.
pub open spec fn spec_chunk_offsets(
    directory: Seq<char>,
    s: Seq<u8>,
    at: int,
    platform: Platform,
    offsets: Seq<u64>,
) -> Option<Seq<u64>>
    decreases s.len() - at,
{
    if at < 0 || at + 8 > s.len() {
        None
    } else if spec_tag_is(s, at + 4, 0x45, 0x4F, 0x46, 0x5F) {
        Some(offsets)
    } else {
        let size = spec_u32_be(s, at);
        if at + 12 + size > s.len() {
            None
        } else {
            match spec_chunk(directory, s, at + 4, size, platform) {
                Err(kind) => None,
                Ok(effect) => spec_chunk_offsets(
                    directory,
                    s,
                    at + 12 + size,
                    effect.platform,
                    offsets + spec_repeated(at as u64, effect.operations.len() as int),
                ),
            }
        }
    }
}

/// For each operation that a patch asks for, the offset of the chunk that
/// asks for it.
pub open spec fn spec_operation_chunks(directory: Seq<char>, s: Seq<u8>) -> Option<Seq<u64>> {
    if spec_has_magic(s) {
        spec_chunk_offsets(directory, s, 12, Platform::Win32, Seq::empty())
    } else {
        None
    }
}

proof fn lemma_chunk_offsets(
    directory: Seq<char>,
    s: Seq<u8>,
    at: int,
    platform: Platform,
    operations: Seq<PatchOperationView>,
    offsets: Seq<u64>,
)
    requires
        operations.len() == offsets.len(),
    ensures
        match spec_chunks(directory, s, at, platform, operations) {
            Ok(all) => spec_chunk_offsets(directory, s, at, platform, offsets).is_some()
                && spec_chunk_offsets(directory, s, at, platform, offsets).unwrap().len()
                == all.len(),
            Err(error) => spec_chunk_offsets(directory, s, at, platform, offsets).is_none(),
        },
    decreases s.len() - at,
{
    if !(at < 0 || at + 8 > s.len()) && !spec_tag_is(s, at + 4, 0x45, 0x4F, 0x46, 0x5F) {
        let size = spec_u32_be(s, at);
        if at + 12 + size <= s.len() {
            match spec_chunk(directory, s, at + 4, size, platform) {
                Err(kind) => {},
                Ok(effect) => {
                    lemma_chunk_offsets(
                        directory,
                        s,
                        at + 12 + size,
                        effect.platform,
                        operations + effect.operations,
                        offsets + spec_repeated(at as u64, effect.operations.len() as int),
                    );
                },
            }
        }
    }
}

/// A patch that can be read has the offset of a chunk for each of its
/// operations, and a patch that cannot be read has none.
pub proof fn lemma_operation_chunks(directory: Seq<char>, s: Seq<u8>)
    ensures
        match spec_apply_patch(directory, s) {
            Ok(operations) => spec_operation_chunks(directory, s).is_some()
                && spec_operation_chunks(directory, s).unwrap().len() == operations.len(),
            Err(error) => spec_operation_chunks(directory, s).is_none(),
        },
{
    if spec_has_magic(s) {
        lemma_chunk_offsets(directory, s, 12, Platform::Win32, Seq::empty(), Seq::empty());
    }
}

fn expansion_folder(path: &mut String, expansion: u16)
    ensures
        final(path)@ == old(path)@ + spec_expansion_folder(expansion as int),
{
    if expansion == 0 {
        push_text(path, "ffxiv");
    } else {
        push_text(path, "ex");
        push_decimal(path, expansion as u64);
        assert(path@ =~= old(path)@ + spec_expansion_folder(expansion as int));
    }
}

fn pack_path(directory: &str, platform: Platform, main_id: u16, sub_id: u16) -> (path: String)
    ensures
        path@ == spec_pack_path(directory@, platform, main_id, sub_id),
{
    let mut path = String::new();
    push_text(&mut path, directory);
    push_text(&mut path, "/sqpack/");
    expansion_folder(&mut path, sub_id / 256);
    push_text(&mut path, "/");
    push_padded_hex(&mut path, main_id as u64, 2);
    push_padded_hex(&mut path, sub_id as u64, 4);
    push_text(&mut path, ".");
    push_text(&mut path, get_platform_string(platform));
    assert(path@ =~= spec_pack_path(directory@, platform, main_id, sub_id));
    path
}

/// The path of data file `file_id` of a pack.
pub fn dat_path(directory: &str, platform: Platform, main_id: u16, sub_id: u16, file_id: u32) -> (path:
    String)
    ensures
        path@ == spec_dat_path(directory@, platform, main_id, sub_id, file_id),
{
    let mut path = pack_path(directory, platform, main_id, sub_id);
    push_text(&mut path, ".dat");
    push_decimal(&mut path, file_id as u64);
    assert(path@ =~= spec_dat_path(directory@, platform, main_id, sub_id, file_id));
    path
}

/// The path of index file `file_id` of a pack.
pub fn index_path(directory: &str, platform: Platform, main_id: u16, sub_id: u16, file_id: u32) -> (path:
    String)
    ensures
        path@ == spec_index_path(directory@, platform, main_id, sub_id, file_id),
{
    let mut path = pack_path(directory, platform, main_id, sub_id);
    push_text(&mut path, ".index");
    if file_id != 0 {
        push_decimal(&mut path, file_id as u64);
    }
    assert(path@ =~= spec_index_path(directory@, platform, main_id, sub_id, file_id));
    path
}

fn named_path(directory: &str, data: &[u8], at: usize, length: usize) -> (path: String)
    requires
        at + length <= data@.len(),
    ensures
        path@ == spec_named_path(directory@, data@, at as int, length as int),
{
    let len: usize = data.len();
    let end: usize = find(data, 0, at, at + length);
    let name = read_text(data, at, end);
    let mut path = String::new();
    push_text(&mut path, directory);
    push_text(&mut path, "/");
    push_text(&mut path, name.as_str());
    assert(path@ =~= spec_named_path(directory@, data@, at as int, length as int));
    path
}

fn empty_block(blocks: u32) -> (data: Vec<u8>)
    requires
        128 * blocks <= usize::MAX,
    ensures
        data@ == spec_empty_block(blocks),
{
    let mut data: Vec<u8> = Vec::new();
    if blocks == 0 {
        return data;
    }
    push_u32_le(&mut data, 128);
    push_u32_le(&mut data, 0);
    push_u32_le(&mut data, 0);
    push_u32_le(&mut data, blocks - 1);
    push_u32_le(&mut data, 0);
    push_zeros(&mut data, 128 * blocks as usize - 20);
    assert(data@ =~= spec_empty_block(blocks));
    data
}

fn file_blocks(data: &[u8], at: usize, end: usize, file_size: u64) -> (blocks: Option<Vec<u8>>)
    requires
        at <= end <= data@.len(),
    ensures
        match blocks {
            Some(blocks) => spec_file_blocks(
                data@,
                at as int,
                end as int,
                file_size as int,
                Seq::empty(),
            ) == Some(blocks@),
            None => spec_file_blocks(
                data@,
                at as int,
                end as int,
                file_size as int,
                Seq::empty(),
            ).is_none(),
        },
{
    let len: usize = data.len();
    let mut blocks: Vec<u8> = Vec::new();
    let mut position: usize = at;
    assert(blocks@ =~= Seq::<u8>::empty());
    while (blocks.len() as u64) < file_size
        invariant
            len == data@.len(),
            end <= len,
            at <= position <= end,
            spec_file_blocks(data@, at as int, end as int, file_size as int, Seq::empty())
                == spec_file_blocks(data@, position as int, end as int, file_size as int, blocks@),
        decreases end - position,
    {
        if 16 > end - position {
            return None;
        }
        let block = match read_data_block(data, position as u128) {
            Some(block) => block,
            None => { return None; },
        };
        let first: u32 = read_u32_le(data, position + 8);
        let second: u32 = read_u32_le(data, position + 12);
        let stride: u64 = if first == RAW_BLOCK {
            (second as u64 + 143) / 128 * 128
        } else {
            (first as u64 + 143) / 128 * 128
        };
        push_bytes(&mut blocks, block.as_slice());
        if stride > (end - position) as u64 {
            proof {
                assert(spec_block_stride(data@, position as int) == stride);
            }
            if (blocks.len() as u64) < file_size {
                return None;
            } else {
                return Some(blocks);
            }
        }
        position = position + stride as usize;
    }
    Some(blocks)
}

fn one(operation: PatchOperation) -> (operations: Vec<PatchOperation>)
    ensures
        spec_operation_views(operations@) == seq![operation@],
{
    let mut operations: Vec<PatchOperation> = Vec::new();
    operations.push(operation);
    assert(spec_operation_views(operations@) =~= seq![operation@]);
    operations
}

fn chunk_dat_path(directory: &str, data: &[u8], at: usize, platform: Platform) -> (path: String)
    requires
        at + 16 <= data@.len(),
    ensures
        path@ == spec_chunk_dat_path(directory@, data@, at as int, platform),
{
    let len: usize = data.len();
    dat_path(
        directory,
        platform,
        read_u16_be(data, at + 8),
        read_u16_be(data, at + 10),
        read_u32_be(data, at + 12),
    )
}

fn chunk_index_path(directory: &str, data: &[u8], at: usize, platform: Platform) -> (path: String)
    requires
        at + 16 <= data@.len(),
    ensures
        path@ == spec_chunk_index_path(directory@, data@, at as int, platform),
{
    let len: usize = data.len();
    index_path(
        directory,
        platform,
        read_u16_be(data, at + 8),
        read_u16_be(data, at + 10),
        read_u32_be(data, at + 12),
    )
}

fn read_sqpk_add_data(directory: &str, data: &[u8], at: usize, size: usize, platform: Platform) -> (effect:
    Result<(Platform, Vec<PatchOperation>), PatchErrorKind>)
    requires
        at + size <= data@.len(),
    ensures
        spec_effect_is(effect, spec_sqpk_add_data(directory@, data@, at as int, size as int, platform)),
{
    let len: usize = data.len();
    if size < 28 {
        return Err(PatchErrorKind::Truncated);
    }
    let length: u64 = 128 * read_u32_be(data, at + 20) as u64;
    let cleared: u64 = 128 * read_u32_be(data, at + 24) as u64;
    if ((size - 28) as u64) < length || cleared > usize::MAX as u64 {
        return Err(PatchErrorKind::Truncated);
    }
    let path = chunk_dat_path(directory, data, at, platform);
    let mut bytes = copy_range(data, at + 28, at + 28 + length as usize);
    push_zeros(&mut bytes, cleared as usize);
    Ok(
        (
            platform,
            one(
                PatchOperation::WriteFile {
                    path,
                    offset: 128 * read_u32_be(data, at + 16) as u64,
                    truncate: false,
                    data: bytes,
                },
            ),
        ),
    )
}

fn read_sqpk_empty_block(directory: &str, data: &[u8], at: usize, size: usize, platform: Platform) -> (effect:
    Result<(Platform, Vec<PatchOperation>), PatchErrorKind>)
    requires
        at + size <= data@.len(),
    ensures
        spec_effect_is(
            effect,
            spec_sqpk_empty_block(directory@, data@, at as int, size as int, platform),
        ),
{
    let len: usize = data.len();
    if size < 24 {
        return Err(PatchErrorKind::Truncated);
    }
    let blocks: u32 = read_u32_be(data, at + 20);
    if 128 * blocks as u64 > usize::MAX as u64 {
        return Err(PatchErrorKind::Truncated);
    }
    let path = chunk_dat_path(directory, data, at, platform);
    Ok(
        (
            platform,
            one(
                PatchOperation::WriteFile {
                    path,
                    offset: 128 * read_u32_be(data, at + 16) as u64,
                    truncate: false,
                    data: empty_block(blocks),
                },
            ),
        ),
    )
}

fn read_sqpk_header(directory: &str, data: &[u8], at: usize, size: usize, platform: Platform) -> (effect:
    Result<(Platform, Vec<PatchOperation>), PatchErrorKind>)
    requires
        at + size <= data@.len(),
    ensures
        spec_effect_is(effect, spec_sqpk_header(directory@, data@, at as int, size as int, platform)),
{
    let len: usize = data.len();
    if size < 16 + 1024 {
        return Err(PatchErrorKind::Truncated);
    }
    let path = if data[at + 5] == 0x49 {
        chunk_index_path(directory, data, at, platform)
    } else {
        chunk_dat_path(directory, data, at, platform)
    };
    let offset: u64 = if data[at + 6] == 0x56 {
        0
    } else {
        1024
    };
    Ok(
        (
            platform,
            one(
                PatchOperation::WriteFile {
                    path,
                    offset,
                    truncate: false,
                    data: copy_range(data, at + 16, at + 16 + 1024),
                },
            ),
        ),
    )
}

fn read_sqpk_file(directory: &str, data: &[u8], at: usize, size: usize, platform: Platform) -> (effect:
    Result<(Platform, Vec<PatchOperation>), PatchErrorKind>)
    requires
        at + size <= data@.len(),
    ensures
        spec_effect_is(effect, spec_sqpk_file(directory@, data@, at as int, size as int, platform)),
{
    let len: usize = data.len();
    if size < 32 {
        return Err(PatchErrorKind::Truncated);
    }
    let length: u32 = read_u32_be(data, at + 24);
    if ((size - 32) as u64) < length as u64 {
        return Err(PatchErrorKind::Truncated);
    }
    let path = named_path(directory, data, at + 32, length as usize);
    let operation: u8 = data[at + 5];
    if operation == 0x41 {
        let offset: u64 = read_u64_be(data, at + 8);
        let bytes = match file_blocks(
            data,
            at + 32 + length as usize,
            at + size,
            read_u64_be(data, at + 16),
        ) {
            Some(bytes) => bytes,
            None => { return Err(PatchErrorKind::Truncated); },
        };
        Ok(
            (
                platform,
                one(PatchOperation::WriteFile { path, offset, truncate: offset == 0, data: bytes }),
            ),
        )
    } else if operation == 0x44 {
        Ok((platform, one(PatchOperation::DeleteFile { path })))
    } else if operation == 0x4D {
        Ok((platform, one(PatchOperation::CreateDirectory { path })))
    } else if operation == 0x52 {
        let mut folder = String::new();
        push_text(&mut folder, directory);
        push_text(&mut folder, "/sqpack/");
        expansion_folder(&mut folder, read_u16_be(data, at + 28));
        assert(folder@ =~= directory@ + "/sqpack/"@ + spec_expansion_folder(
            spec_u16_be(data@, at + 28),
        ));
        Ok((platform, one(PatchOperation::DeleteDirectory { path: folder })))
    } else {
        Err(PatchErrorKind::UnknownChunk)
    }
}

fn none(platform: Platform) -> (effect: Result<(Platform, Vec<PatchOperation>), PatchErrorKind>)
    ensures
        spec_effect_is(effect, spec_no_effect(platform)),
{
    let operations: Vec<PatchOperation> = Vec::new();
    assert(spec_operation_views(operations@) =~= Seq::empty());
    Ok((platform, operations))
}

fn read_sqpk_target(data: &[u8], at: usize, size: usize) -> (effect: Result<
    (Platform, Vec<PatchOperation>),
    PatchErrorKind,
>)
    requires
        at + size <= data@.len(),
    ensures
        spec_effect_is(effect, spec_sqpk_target(data@, at as int, size as int)),
{
    let len: usize = data.len();
    if size < 10 {
        return Err(PatchErrorKind::Truncated);
    }
    let code: u16 = read_u16_be(data, at + 8);
    none(
        if code == 1 {
            Platform::PS3
        } else if code == 2 {
            Platform::PS4
        } else {
            Platform::Win32
        },
    )
}

/// What a chunk for pack files asks for.
fn read_sqpk(directory: &str, data: &[u8], at: usize, size: usize, platform: Platform) -> (effect:
    Result<(Platform, Vec<PatchOperation>), PatchErrorKind>)
    requires
        at + size <= data@.len(),
    ensures
        spec_effect_is(effect, spec_sqpk(directory@, data@, at as int, size as int, platform)),
{
    let len: usize = data.len();
    if size < 5 {
        return Err(PatchErrorKind::Truncated);
    }
    let letter: u8 = data[at + 4];
    if letter == 0x41 {
        read_sqpk_add_data(directory, data, at, size, platform)
    } else if letter == 0x44 || letter == 0x45 {
        read_sqpk_empty_block(directory, data, at, size, platform)
    } else if letter == 0x48 {
        read_sqpk_header(directory, data, at, size, platform)
    } else if letter == 0x46 {
        read_sqpk_file(directory, data, at, size, platform)
    } else if letter == 0x54 {
        read_sqpk_target(data, at, size)
    } else if letter == 0x49 || letter == 0x58 {
        none(platform)
    } else {
        Err(PatchErrorKind::UnknownChunk)
    }
}

fn tag_is(data: &[u8], at: usize, a: u8, b: u8, c: u8, d: u8) -> (is: bool)
    requires
        at + 4 <= data@.len(),
    ensures
        is == spec_tag_is(data@, at as int, a, b, c, d),
{
    let len: usize = data.len();
    data[at] == a && data[at + 1] == b && data[at + 2] == c && data[at + 3] == d
}

/// What a chunk asks for.
fn read_chunk(directory: &str, data: &[u8], tag_at: usize, size: usize, platform: Platform) -> (effect:
    Result<(Platform, Vec<PatchOperation>), PatchErrorKind>)
    requires
        tag_at + 4 + size <= data@.len(),
    ensures
        spec_effect_is(
            effect,
            spec_chunk(directory@, data@, tag_at as int, size as int, platform),
        ),
{
    let len: usize = data.len();
    let at: usize = tag_at + 4;
    if tag_is(data, tag_at, 0x41, 0x44, 0x49, 0x52) || tag_is(data, tag_at, 0x44, 0x45, 0x4C, 0x44) {
        if size < 4 {
            return Err(PatchErrorKind::Truncated);
        }
        let length: u32 = read_u32_be(data, at);
        if ((size - 4) as u64) < length as u64 {
            return Err(PatchErrorKind::Truncated);
        }
        let path = named_path(directory, data, at + 4, length as usize);
        if data[tag_at] == 0x41 {
            Ok((platform, one(PatchOperation::CreateDirectory { path })))
        } else {
            Ok((platform, one(PatchOperation::DeleteDirectory { path })))
        }
    } else if tag_is(data, tag_at, 0x53, 0x51, 0x50, 0x4B) {
        read_sqpk(directory, data, at, size, platform)
    } else {
        none(platform)
    }
}

/// Reads a patch into the operations that it asks for on the game directory.
///
/// Returns the operations in the order of the chunks. The error names the
/// chunk at which reading stopped: the patch does not start with the letters
/// of a patch file, it ends inside a chunk or before the chunk that ends it,
/// or a chunk for pack files asks for an operation that is not known.
pub fn apply_patch(data_dir: &str, patch: &[u8]) -> (result: Result<Vec<PatchOperation>, PatchError>)
    ensures
        match result {
            Ok(operations) => spec_apply_patch(data_dir@, patch@) == Ok::<
                Seq<PatchOperationView>,
                PatchError,
            >(spec_operation_views(operations@)),
            Err(error) => spec_apply_patch(data_dir@, patch@) == Err::<
                Seq<PatchOperationView>,
                PatchError,
            >(error),
        },
{
    let len: usize = patch.len();
    if len < 12 || patch[0] != 0x91 || patch[1] != 0x5A || patch[2] != 0x49 || patch[3] != 0x50
        || patch[4] != 0x41 || patch[5] != 0x54 || patch[6] != 0x43 || patch[7] != 0x48 || patch[8]
        != 0x0D || patch[9] != 0x0A || patch[10] != 0x1A || patch[11] != 0x0A {
        return Err(PatchError { kind: PatchErrorKind::BadMagic, chunk_offset: 0 });
    }
    let mut operations: Vec<PatchOperation> = Vec::new();
    let mut platform: Platform = Platform::Win32;
    let mut at: usize = 12;
    assert(spec_operation_views(operations@) =~= Seq::empty());
    loop
        invariant
            12 <= at <= len,
            len == patch@.len(),
            spec_has_magic(patch@),
            spec_apply_patch(data_dir@, patch@) == spec_chunks(
                data_dir@,
                patch@,
                at as int,
                platform,
                spec_operation_views(operations@),
            ),
        decreases len - at,
    {
        if 8 > len - at {
            return Err(PatchError { kind: PatchErrorKind::Truncated, chunk_offset: at as u64 });
        }
        if tag_is(patch, at + 4, 0x45, 0x4F, 0x46, 0x5F) {
            return Ok(operations);
        }
        let size: u32 = read_u32_be(patch, at);
        if 12 + size as u64 > (len - at) as u64 {
            return Err(PatchError { kind: PatchErrorKind::Truncated, chunk_offset: at as u64 });
        }
        let (next_platform, mut added) = match read_chunk(
            data_dir,
            patch,
            at + 4,
            size as usize,
            platform,
        ) {
            Ok(effect) => effect,
            Err(kind) => { return Err(PatchError { kind, chunk_offset: at as u64 }); },
        };
        let ghost before = spec_operation_views(operations@);
        let ghost added_views = spec_operation_views(added@);
        let ghost operations_before = operations@;
        let ghost added_before = added@;
        operations.append(&mut added);
        proof {
            assert forall|i: int| 0 <= i < operations@.len() implies spec_operation_views(
                operations@,
            )[i] == (before + added_views)[i] by {
                if i < operations_before.len() {
                    assert(before[i] == operations_before[i]@);
                } else {
                    assert(added_views[i - operations_before.len()] == added_before[i
                        - operations_before.len()]@);
                }
            }
            assert(spec_operation_views(operations@) =~= before + added_views);
        }
        platform = next_platform;
        at = at + 12 + size as usize;
    }
}

/// For each operation that a patch asks for, the offset of the chunk that
/// asks for it, in the order of the operations: the place that an error names
/// when an operation cannot be performed. There is nothing where the patch
/// cannot be read.
pub fn operation_chunks(data_dir: &str, patch: &[u8]) -> (chunks: Option<Vec<u64>>)
    ensures
        match chunks {
            Some(chunks) => spec_operation_chunks(data_dir@, patch@) == Some(chunks@),
            None => spec_operation_chunks(data_dir@, patch@).is_none(),
        },
{
    let len: usize = patch.len();
    if len < 12 || patch[0] != 0x91 || patch[1] != 0x5A || patch[2] != 0x49 || patch[3] != 0x50
        || patch[4] != 0x41 || patch[5] != 0x54 || patch[6] != 0x43 || patch[7] != 0x48 || patch[8]
        != 0x0D || patch[9] != 0x0A || patch[10] != 0x1A || patch[11] != 0x0A {
        return None;
    }
    let mut offsets: Vec<u64> = Vec::new();
    let mut platform: Platform = Platform::Win32;
    let mut at: usize = 12;
    loop
        invariant
            12 <= at <= len,
            len == patch@.len(),
            spec_has_magic(patch@),
            spec_operation_chunks(data_dir@, patch@) == spec_chunk_offsets(
                data_dir@,
                patch@,
                at as int,
                platform,
                offsets@,
            ),
        decreases len - at,
    {
        if 8 > len - at {
            return None;
        }
        if tag_is(patch, at + 4, 0x45, 0x4F, 0x46, 0x5F) {
            return Some(offsets);
        }
        let size: u32 = read_u32_be(patch, at);
        if 12 + size as u64 > (len - at) as u64 {
            return None;
        }
        let (next_platform, added) = match read_chunk(
            data_dir,
            patch,
            at + 4,
            size as usize,
            platform,
        ) {
            Ok(effect) => effect,
            Err(kind) => { return None; },
        };
        let ghost before = offsets@;
        let count: usize = added.len();
        let mut i: usize = 0;
        while i < count
            invariant
                i <= count,
                offsets@ == before + spec_repeated(at as u64, i as int),
            decreases count - i,
        {
            offsets.push(at as u64);
            i = i + 1;
            assert(offsets@ =~= before + spec_repeated(at as u64, i as int));
        }
        assert(added@.len() == spec_operation_views(added@).len());
        platform = next_platform;
        at = at + 12 + size as usize;
    }
}

} // verus!
