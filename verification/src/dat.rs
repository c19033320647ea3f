//! Data files: at a given offset, a header that says how an asset is stored,
//! and the blocks that hold it, compressed or raw.

use vstd::prelude::*;
use crate::binary::{
    copy_range, lemma_append_twice, push_bytes, read_u16_le, read_u32_le, spec_u16_le,
    spec_u32_le,
};
use crate::compression::{block_payload, inflate, inflated, spec_block_payload};
use crate::dat_records::{ModelFileBlock, TextureLodBlock};
use crate::model::{spec_file_header_bytes, ModelFileHeader, ModelFileHeaderView};
use crate::records::{read_records, spec_records};

verus! {

/// The length that marks a block as stored raw.
pub const RAW_BLOCK: u32 = 32000;

/// How an asset is stored in a data file.
#[derive(PartialEq, Eq, Structural, Clone, Copy, Debug)]
pub enum FileType {
    Empty,
    Standard,
    Model,
    Texture,
}

/// The kind of storage that a type code stands for.
pub open spec fn spec_file_type(code: u32) -> Option<FileType> {
    if code == 1 {
        Some(FileType::Empty)
    } else if code == 2 {
        Some(FileType::Standard)
    } else if code == 3 {
        Some(FileType::Model)
    } else if code == 4 {
        Some(FileType::Texture)
    } else {
        None
    }
}

/// The start of the header of an asset in a data file.
#[derive(PartialEq, Eq, Structural, Clone, Copy, Debug)]
pub struct FileInfo {
    /// The number of bytes of the header: the blocks are addressed from its end.
    pub size: u32,
    pub file_type: FileType,
    /// The number of bytes of the asset.
    pub file_size: u32,
}

/// The start of the header stored at `at`: the size of the header, the type
/// code and the size of the asset. There is none where the buffer ends early
/// or the type code stands for nothing.
pub open spec fn spec_file_info(s: Seq<u8>, at: int) -> Option<FileInfo> {
    if at < 0 || at + 12 > s.len() {
        None
    } else {
        match spec_file_type(spec_u32_le(s, at + 4) as u32) {
            None => None,
            Some(file_type) => Some(
                FileInfo {
                    size: spec_u32_le(s, at) as u32,
                    file_type,
                    file_size: spec_u32_le(s, at + 8) as u32,
                },
            ),
        }
    }
}

/// What the block stored at `at` holds. After sixteen bytes of header, of
/// which the third and fourth 32-bit integers are two lengths, comes its data.
/// Where the first length is 32000, the data is raw and the second length is
/// its size. Otherwise the first length is the size of the compressed data,
/// which must inflate to exactly as many bytes as the second length says.
pub open spec fn spec_data_block(s: Seq<u8>, at: int) -> Option<Seq<u8>> {
    if at < 0 || at + 16 > s.len() {
        None
    } else {
        let first = spec_u32_le(s, at + 8);
        let second = spec_u32_le(s, at + 12);
        if first == RAW_BLOCK {
            if at + 16 + second <= s.len() {
                Some(s.subrange(at + 16, at + 16 + second))
            } else {
                None
            }
        } else if at + 16 + first <= s.len() {
            spec_block_payload(second, inflated(s.subrange(at + 16, at + 16 + first), second))
        } else {
            None
        }
    }
}

/// Where block `k` of a run of blocks lies: the run starts at `at`, and each
/// block follows the one before it at the distance that the table of sizes at
/// `sizes_at` gives for it, the run's first block having the index `first`.
pub open spec fn spec_run_position(s: Seq<u8>, at: int, sizes_at: int, first: int, k: int) -> int
    decreases k,
{
    if k <= 0 {
        at
    } else {
        spec_run_position(s, at, sizes_at, first, k - 1) + spec_u16_le(
            s,
            sizes_at + 2 * (first + k - 1),
        )
    }
}

/// What the first `n` blocks of a run hold, one after the other. There is
/// nothing where the table of sizes has no entry for a block, or a block
/// cannot be read.
pub open spec fn spec_block_run(
    s: Seq<u8>,
    at: int,
    sizes_at: int,
    sizes_count: int,
    first: int,
    n: int,
) -> Option<Seq<u8>>
    decreases n,
{
    if n <= 0 {
        Some(Seq::empty())
    } else {
        match spec_block_run(s, at, sizes_at, sizes_count, first, n - 1) {
            None => None,
            Some(before) => if first + n - 1 < sizes_count {
                match spec_data_block(s, spec_run_position(s, at, sizes_at, first, n - 1)) {
                    Some(block) => Some(before + block),
                    None => None,
                }
            } else {
                None
            },
        }
    }
}

/// What the first `n` blocks of a standard asset hold, one after the other:
/// entry `i` of the table at `table_at` starts with the offset of block `i`
/// from `base`.
pub open spec fn spec_standard_blocks(s: Seq<u8>, base: int, table_at: int, n: int) -> Option<
    Seq<u8>,
>
    decreases n,
{
    if n <= 0 {
        Some(Seq::empty())
    } else {
        match (
            spec_standard_blocks(s, base, table_at, n - 1),
            spec_data_block(s, base + spec_u32_le(s, table_at + 8 * (n - 1))),
        ) {
            (Some(before), Some(block)) => Some(before + block),
            _ => None,
        }
    }
}

/// The bytes, if there are exactly `size` of them.
pub open spec fn spec_of_size(bytes: Option<Seq<u8>>, size: int) -> Option<Seq<u8>> {
    match bytes {
        Some(bytes) => if bytes.len() == size {
            Some(bytes)
        } else {
            None
        },
        None => None,
    }
}

/// The standard asset whose header lies at `offset`: the number of blocks
/// stands after 20 bytes, the table of blocks after 24, and the blocks are
/// addressed from the end of the header. What they hold, one after the other,
/// must be exactly as many bytes as the header declares.
pub open spec fn spec_standard_file(s: Seq<u8>, offset: int, info: FileInfo) -> Option<Seq<u8>> {
    if offset + 24 > s.len() {
        None
    } else {
        let count = spec_u32_le(s, offset + 20);
        if offset + 24 + 8 * count > s.len() {
            None
        } else {
            spec_of_size(
                spec_standard_blocks(s, offset + info.size, offset + 24, count),
                info.file_size as int,
            )
        }
    }
}

/// The offset of group `group` of a model's blocks. The groups are, in order:
/// the stack, the runtime data, and then for each of the three levels of
/// detail its vertex data and its index data.
#[verifier::opaque]
pub open spec fn spec_group_offset(block: ModelFileBlock, group: int) -> int {
    if group == 0 {
        block.offset_stack_size as int
    } else if group == 1 {
        block.offset_runtime_size as int
    } else if group % 2 == 0 {
        block.offset_vertex_buffer_size[(group - 2) / 2] as int
    } else {
        block.offset_index_buffer_size[(group - 3) / 2] as int
    }
}

/// The number of blocks of group `group` of a model's blocks.
#[verifier::opaque]
pub open spec fn spec_group_count(block: ModelFileBlock, group: int) -> int {
    if group == 0 {
        block.num_stack_size as int
    } else if group == 1 {
        block.num_runtime_size as int
    } else if group % 2 == 0 {
        block.num_vertex_buffer_size[(group - 2) / 2] as int
    } else {
        block.num_index_buffer_size[(group - 3) / 2] as int
    }
}

/// The index of the first block of group `group` in the table of sizes: the
/// number of blocks of the groups before it.
pub open spec fn spec_group_first(block: ModelFileBlock, group: int) -> int
    decreases group,
{
    if group <= 0 {
        0
    } else {
        spec_group_first(block, group - 1) + spec_group_count(block, group - 1)
    }
}

/// The number of entries of a model's table of sizes: the number of all its
/// blocks, those of the edge geometry included.
#[verifier::opaque]
pub open spec fn spec_model_block_total(block: ModelFileBlock) -> int {
    block.num_stack_size + block.num_runtime_size + block.num_vertex_buffer_size[0]
        + block.num_vertex_buffer_size[1] + block.num_vertex_buffer_size[2]
        + block.num_edge_geometry_vertex_buffer_size[0]
        + block.num_edge_geometry_vertex_buffer_size[1]
        + block.num_edge_geometry_vertex_buffer_size[2] + block.num_index_buffer_size[0]
        + block.num_index_buffer_size[1] + block.num_index_buffer_size[2]
}

/// What the groups of a model's blocks hold, and where each of them starts.
pub struct ModelGroups {
    /// What the groups hold, one after the other.
    pub body: Seq<u8>,
    /// Where each group starts in the assembled file, counting the 68 bytes of
    /// the file header, and at the end where the last one ends.
    pub marks: Seq<int>,
}

/// What the first `groups` groups of a model's blocks hold, and where each of
/// them starts. There is nothing where a block of a group cannot be read.
pub open spec fn spec_model_groups(
    s: Seq<u8>,
    base: int,
    sizes_at: int,
    block: ModelFileBlock,
    groups: int,
) -> Option<ModelGroups>
    decreases groups,
{
    if groups <= 0 {
        Some(ModelGroups { body: Seq::empty(), marks: seq![68int] })
    } else {
        match (
            spec_model_groups(s, base, sizes_at, block, groups - 1),
            spec_block_run(
                s,
                base + spec_group_offset(block, groups - 1),
                sizes_at,
                spec_model_block_total(block),
                spec_group_first(block, groups - 1),
                spec_group_count(block, groups - 1),
            ),
        ) {
            (Some(before), Some(group)) => Some(
                ModelGroups {
                    body: before.body + group,
                    marks: before.marks.push(68 + before.body.len() as int + group.len() as int),
                },
            ),
            _ => None,
        }
    }
}

/// The offset that the file header gets for the data of a level of detail:
/// the place where the data starts, but zero where the level has no blocks,
/// and zero where the place is that of the level before it.
pub open spec fn spec_data_offset(previous: u32, first_level: bool, count: int, mark: int) -> u32 {
    if count != 0 && (first_level || mark != previous) {
        mark as u32
    } else {
        0
    }
}

/// The file header of an assembled model: the sizes and offsets follow from
/// where each group starts, the rest is taken from the header in the data
/// file. It has no vertex declarations of its own.
pub open spec fn spec_assembled_header(block: ModelFileBlock, marks: Seq<int>) -> ModelFileHeaderView {
    let v0 = spec_data_offset(0, true, block.num_vertex_buffer_size[0] as int, marks[2]);
    let v1 = spec_data_offset(v0, false, block.num_vertex_buffer_size[1] as int, marks[4]);
    let v2 = spec_data_offset(v1, false, block.num_vertex_buffer_size[2] as int, marks[6]);
    let i0 = spec_data_offset(0, true, block.num_index_buffer_size[0] as int, marks[3]);
    let i1 = spec_data_offset(i0, false, block.num_index_buffer_size[1] as int, marks[5]);
    let i2 = spec_data_offset(i1, false, block.num_index_buffer_size[2] as int, marks[7]);
    ModelFileHeaderView {
        version: block.version,
        stack_size: (marks[1] - marks[0]) as u32,
        runtime_size: (marks[2] - marks[1]) as u32,
        vertex_declaration_count: block.vertex_declaration_num,
        material_count: block.material_num,
        vertex_offsets: [v0, v1, v2],
        index_offsets: [i0, i1, i2],
        vertex_buffer_size: [
            (marks[3] - marks[2]) as u32,
            (marks[5] - marks[4]) as u32,
            (marks[7] - marks[6]) as u32,
        ],
        index_buffer_size: [
            (marks[4] - marks[3]) as u32,
            (marks[6] - marks[5]) as u32,
            (marks[8] - marks[7]) as u32,
        ],
        lod_count: block.num_lods,
        index_buffer_streaming_enabled: block.index_buffer_streaming_enabled != 0,
        has_edge_geometry: block.edge_geometry_enabled != 0,
        vertex_declarations: Seq::empty(),
    }
}

/// The model whose header lies at `offset`, assembled into the bytes of a
/// model file. The header of 196 bytes stands after 12 bytes, the table of
/// sizes with one entry for each block after it, and the groups of blocks are
/// addressed from the end of the header. The assembled file is a file header
/// with the sizes and offsets of the groups, and then what the groups hold.
/// It must fit in 32 bits and be exactly as long as the header declares.
pub open spec fn spec_model_file(s: Seq<u8>, offset: int, info: FileInfo) -> Option<Seq<u8>> {
    if offset + 208 > s.len() {
        None
    } else {
        let block = ModelFileBlock::spec_read(s, offset + 12);
        let sizes_at = offset + 208;
        if sizes_at + 2 * spec_model_block_total(block) > s.len() {
            None
        } else {
            match spec_model_groups(s, offset + info.size, sizes_at, block, 8) {
                None => None,
                Some(groups) => if 68 + groups.body.len() > u32::MAX || 68 + groups.body.len()
                    != info.file_size {
                    None
                } else {
                    Some(
                        spec_file_header_bytes(spec_assembled_header(block, groups.marks))
                            + groups.body,
                    )
                },
            }
        }
    }
}

/// The index of the first block of mip level `level` in the table of sizes:
/// the number of blocks of the levels before it.
pub open spec fn spec_level_first(levels: Seq<TextureLodBlock>, level: int) -> int
    decreases level,
{
    if level <= 0 {
        0
    } else {
        spec_level_first(levels, level - 1) + levels[level - 1].block_count
    }
}

/// What the blocks of the first `n` mip levels of a texture hold, one after
/// the other.
pub open spec fn spec_texture_body(
    s: Seq<u8>,
    base: int,
    sizes_at: int,
    sizes_count: int,
    levels: Seq<TextureLodBlock>,
    n: int,
) -> Option<Seq<u8>>
    decreases n,
{
    if n <= 0 {
        Some(Seq::empty())
    } else {
        match (
            spec_texture_body(s, base, sizes_at, sizes_count, levels, n - 1),
            spec_block_run(
                s,
                base + levels[n - 1].compressed_offset,
                sizes_at,
                sizes_count,
                spec_level_first(levels, n - 1),
                levels[n - 1].block_count as int,
            ),
        ) {
            (Some(before), Some(level)) => Some(before + level),
            _ => None,
        }
    }
}

/// The texture whose header lies at `offset`, assembled into the bytes of a
/// texture file. The number of mip levels stands after 20 bytes, the table of
/// levels after 24, and the table of sizes, as far as the buffer reaches,
/// after it. The texture's own header is stored raw right after the header,
/// up to the offset of the first level, unless that level is empty; the
/// blocks of the levels follow. All of it must be exactly as long as the
/// header declares.
pub open spec fn spec_texture_file(s: Seq<u8>, offset: int, info: FileInfo) -> Option<Seq<u8>> {
    if offset + 24 > s.len() {
        None
    } else {
        let count = spec_u32_le(s, offset + 20);
        let sizes_at = offset + 24 + 20 * count;
        if count == 0 || sizes_at > s.len() {
            None
        } else {
            let levels = spec_records::<TextureLodBlock>(s, offset + 24, count);
            let base = offset + info.size;
            let header_size = if levels[0].compressed_size != 0 {
                levels[0].compressed_offset as int
            } else {
                0
            };
            if base + header_size > s.len() {
                None
            } else {
                match spec_texture_body(
                    s,
                    base,
                    sizes_at,
                    (s.len() - sizes_at) / 2,
                    levels,
                    count,
                ) {
                    None => None,
                    Some(body) => spec_of_size(
                        Some(s.subrange(base, base + header_size) + body),
                        info.file_size as int,
                    ),
                }
            }
        }
    }
}

/// The asset whose header lies at `offset` of a data file. There is none
/// where the header is malformed, the asset is empty, or its blocks cannot be
/// read.
pub open spec fn spec_read_from_offset(s: Seq<u8>, offset: int) -> Option<Seq<u8>> {
    match spec_file_info(s, offset) {
        None => None,
        Some(info) => match info.file_type {
            FileType::Empty => None,
            FileType::Standard => spec_standard_file(s, offset, info),
            FileType::Model => spec_model_file(s, offset, info),
            FileType::Texture => spec_texture_file(s, offset, info),
        },
    }
}

/// Reads the start of the header at `at`.
pub fn read_file_info(data: &[u8], at: u64) -> (info: Option<FileInfo>)
    ensures
        info == spec_file_info(data@, at as int),
{
    let len: usize = data.len();
    if at as u128 + 12 > len as u128 {
        return None;
    }
    let at: usize = at as usize;
    let file_type = match read_u32_le(data, at + 4) {
        1 => FileType::Empty,
        2 => FileType::Standard,
        3 => FileType::Model,
        4 => FileType::Texture,
        _ => { return None; },
    };
    Some(FileInfo { size: read_u32_le(data, at), file_type, file_size: read_u32_le(data, at + 8) })
}

/// Reads what the block at `at` holds.
pub fn read_data_block(data: &[u8], at: u128) -> (block: Option<Vec<u8>>)
    ensures
        match block {
            Some(block) => spec_data_block(data@, at as int) == Some(block@),
            None => spec_data_block(data@, at as int).is_none(),
        },
{
    let len: usize = data.len();
    if at > len as u128 || 16 > len as u128 - at {
        return None;
    }
    let at: usize = at as usize;
    let first: u32 = read_u32_le(data, at + 8);
    let second: u32 = read_u32_le(data, at + 12);
    let start: usize = at + 16;
    if first == RAW_BLOCK {
        if second as u64 > (len - start) as u64 {
            return None;
        }
        Some(copy_range(data, start, start + second as usize))
    } else {
        if first as u64 > (len - start) as u64 {
            return None;
        }
        let compressed = vstd::slice::slice_subrange(data, start, start + first as usize);
        block_payload(second, inflate(compressed, second as usize))
    }
}

proof fn lemma_block_run_fails(
    s: Seq<u8>,
    at: int,
    sizes_at: int,
    sizes_count: int,
    first: int,
    n: int,
    count: int,
)
    requires
        0 <= n <= count,
        spec_block_run(s, at, sizes_at, sizes_count, first, n).is_none(),
    ensures
        spec_block_run(s, at, sizes_at, sizes_count, first, count).is_none(),
    decreases count - n,
{
    if n < count {
        lemma_block_run_fails(s, at, sizes_at, sizes_count, first, n, count - 1);
    }
}

/// Appends what a run of `count` blocks holds.
fn read_block_run(
    data: &[u8],
    at: u128,
    sizes_at: usize,
    sizes_count: usize,
    first: u128,
    count: u32,
    out: &mut Vec<u8>,
) -> (done: bool)
    requires
        at <= 0x1_0000_0000_0000_0000_0000,
        sizes_at + 2 * sizes_count <= data@.len(),
        first <= 0x1_0000_0000_0000_0000_0000,
    ensures
        match spec_block_run(
            data@,
            at as int,
            sizes_at as int,
            sizes_count as int,
            first as int,
            count as int,
        ) {
            Some(run) => done && final(out)@ == old(out)@ + run,
            None => !done,
        },
{
    let len: usize = data.len();
    let mut position: u128 = at;
    let mut k: u32 = 0;
    let ghost mut run = Seq::<u8>::empty();
    assert(out@ =~= old(out)@ + run);
    while k < count
        invariant
            k <= count,
            len == data@.len(),
            at <= 0x1_0000_0000_0000_0000_0000,
            first <= 0x1_0000_0000_0000_0000_0000,
            sizes_at + 2 * sizes_count <= data@.len(),
            position == spec_run_position(
                data@,
                at as int,
                sizes_at as int,
                first as int,
                k as int,
            ),
            position <= at + 0xFFFF * k,
            spec_block_run(
                data@,
                at as int,
                sizes_at as int,
                sizes_count as int,
                first as int,
                k as int,
            ) == Some(run),
            out@ == old(out)@ + run,
        decreases count - k,
    {
        let index: u128 = first + k as u128;
        if index >= sizes_count as u128 {
            proof {
                lemma_block_run_fails(
                    data@,
                    at as int,
                    sizes_at as int,
                    sizes_count as int,
                    first as int,
                    k + 1,
                    count as int,
                );
            }
            return false;
        }
        let block = match read_data_block(data, position) {
            Some(block) => block,
            None => {
                proof {
                    lemma_block_run_fails(
                        data@,
                        at as int,
                        sizes_at as int,
                        sizes_count as int,
                        first as int,
                        k + 1,
                        count as int,
                    );
                }
                return false;
            },
        };
        push_bytes(out, block.as_slice());
        proof {
            lemma_append_twice(old(out)@, run, block@);
            run = run + block@;
        }
        let size: u16 = read_u16_le(data, sizes_at + 2 * (index as usize));
        position = position + size as u128;
        k = k + 1;
    }
    true
}

proof fn lemma_standard_blocks_fails(s: Seq<u8>, base: int, table_at: int, n: int, count: int)
    requires
        0 <= n <= count,
        spec_standard_blocks(s, base, table_at, n).is_none(),
    ensures
        spec_standard_blocks(s, base, table_at, count).is_none(),
    decreases count - n,
{
    if n < count {
        lemma_standard_blocks_fails(s, base, table_at, n, count - 1);
    }
}

/// Reads the standard asset whose header lies at `offset`.
pub fn read_standard_file(data: &[u8], offset: u64, info: &FileInfo) -> (file: Option<Vec<u8>>)
    requires
        offset + 12 <= data@.len(),
    ensures
        match file {
            Some(file) => spec_standard_file(data@, offset as int, *info) == Some(file@),
            None => spec_standard_file(data@, offset as int, *info).is_none(),
        },
{
    let len: usize = data.len();
    let start: usize = offset as usize;
    if 24 > len - start {
        return None;
    }
    let count: u32 = read_u32_le(data, start + 20);
    if 8 * count as u64 > (len - start - 24) as u64 {
        return None;
    }
    let table_at: usize = start + 24;
    let base: u128 = start as u128 + info.size as u128;
    let mut file: Vec<u8> = Vec::new();
    let mut i: u32 = 0;
    while i < count
        invariant
            i <= count,
            len == data@.len(),
            start == offset,
            count == spec_u32_le(data@, start + 20),
            table_at == start + 24,
            table_at + 8 * count <= data@.len(),
            base == start + info.size,
            spec_standard_blocks(data@, base as int, table_at as int, i as int) == Some(file@),
        decreases count - i,
    {
        let block_offset: u32 = read_u32_le(data, table_at + 8 * (i as usize));
        let block = match read_data_block(data, base + block_offset as u128) {
            Some(block) => block,
            None => {
                proof {
                    lemma_standard_blocks_fails(
                        data@,
                        base as int,
                        table_at as int,
                        i + 1,
                        count as int,
                    );
                }
                return None;
            },
        };
        push_bytes(&mut file, block.as_slice());
        i = i + 1;
    }
    if file.len() as u64 != info.file_size as u64 {
        return None;
    }
    Some(file)
}

fn group_offset(block: &ModelFileBlock, group: usize) -> (offset: u32)
    requires
        group < 8,
    ensures
        offset == spec_group_offset(*block, group as int),
{
    reveal(spec_group_offset);
    if group == 0 {
        block.offset_stack_size
    } else if group == 1 {
        block.offset_runtime_size
    } else if group % 2 == 0 {
        block.offset_vertex_buffer_size[(group - 2) / 2]
    } else {
        block.offset_index_buffer_size[(group - 3) / 2]
    }
}

fn group_count(block: &ModelFileBlock, group: usize) -> (count: u16)
    requires
        group < 8,
    ensures
        count == spec_group_count(*block, group as int),
{
    reveal(spec_group_count);
    if group == 0 {
        block.num_stack_size
    } else if group == 1 {
        block.num_runtime_size
    } else if group % 2 == 0 {
        block.num_vertex_buffer_size[(group - 2) / 2]
    } else {
        block.num_index_buffer_size[(group - 3) / 2]
    }
}

fn data_offset(previous: u32, first_level: bool, count: u16, mark: u64) -> (offset: u32)
    requires
        mark <= u32::MAX,
    ensures
        offset == spec_data_offset(previous, first_level, count as int, mark as int),
{
    if count != 0 && (first_level || mark != previous as u64) {
        mark as u32
    } else {
        0
    }
}

proof fn lemma_model_groups_fails(
    s: Seq<u8>,
    base: int,
    sizes_at: int,
    block: ModelFileBlock,
    n: int,
    count: int,
)
    requires
        0 <= n <= count,
        spec_model_groups(s, base, sizes_at, block, n).is_none(),
    ensures
        spec_model_groups(s, base, sizes_at, block, count).is_none(),
    decreases count - n,
{
    if n < count {
        lemma_model_groups_fails(s, base, sizes_at, block, n, count - 1);
    }
}

/// What more groups of a model hold is not shorter.
proof fn lemma_model_groups_grow(
    s: Seq<u8>,
    base: int,
    sizes_at: int,
    block: ModelFileBlock,
    n: int,
    count: int,
)
    requires
        0 <= n <= count,
        spec_model_groups(s, base, sizes_at, block, n).is_some(),
        spec_model_groups(s, base, sizes_at, block, count).is_some(),
    ensures
        spec_model_groups(s, base, sizes_at, block, n).unwrap().body.len() <= spec_model_groups(
            s,
            base,
            sizes_at,
            block,
            count,
        ).unwrap().body.len(),
    decreases count - n,
{
    if n < count {
        lemma_model_groups_grow(s, base, sizes_at, block, n, count - 1);
    }
}

/// The file header of an assembled model, from where each group starts.
fn assembled_header(block: &ModelFileBlock, marks: &Vec<u64>) -> (header: ModelFileHeader)
    requires
        marks@.len() == 9,
        forall|a: int, b: int| 0 <= a <= b < 9 ==> #[trigger] marks@[a] <= #[trigger] marks@[b],
        marks@[8] <= u32::MAX,
    ensures
        header@ == spec_assembled_header(*block, marks@.map_values(|mark: u64| mark as int)),
{
    let ghost ints = marks@.map_values(|mark: u64| mark as int);
    let v0: u32 = data_offset(0, true, block.num_vertex_buffer_size[0], marks[2]);
    let v1: u32 = data_offset(v0, false, block.num_vertex_buffer_size[1], marks[4]);
    let v2: u32 = data_offset(v1, false, block.num_vertex_buffer_size[2], marks[6]);
    let i0: u32 = data_offset(0, true, block.num_index_buffer_size[0], marks[3]);
    let i1: u32 = data_offset(i0, false, block.num_index_buffer_size[1], marks[5]);
    let i2: u32 = data_offset(i1, false, block.num_index_buffer_size[2], marks[7]);
    let header = ModelFileHeader {
        version: block.version,
        stack_size: (marks[1] - marks[0]) as u32,
        runtime_size: (marks[2] - marks[1]) as u32,
        vertex_declaration_count: block.vertex_declaration_num,
        material_count: block.material_num,
        vertex_offsets: [v0, v1, v2],
        index_offsets: [i0, i1, i2],
        vertex_buffer_size: [
            (marks[3] - marks[2]) as u32,
            (marks[5] - marks[4]) as u32,
            (marks[7] - marks[6]) as u32,
        ],
        index_buffer_size: [
            (marks[4] - marks[3]) as u32,
            (marks[6] - marks[5]) as u32,
            (marks[8] - marks[7]) as u32,
        ],
        lod_count: block.num_lods,
        index_buffer_streaming_enabled: block.index_buffer_streaming_enabled != 0,
        has_edge_geometry: block.edge_geometry_enabled != 0,
        vertex_declarations: Vec::new(),
    };
    proof {
        let expected = spec_assembled_header(*block, ints);
        assert(header@.vertex_declarations =~= expected.vertex_declarations);
        assert(header@.vertex_offsets =~= expected.vertex_offsets);
        assert(header@.index_offsets =~= expected.index_offsets);
        assert(header@.vertex_buffer_size =~= expected.vertex_buffer_size);
        assert(header@.index_buffer_size =~= expected.index_buffer_size);
    }
    header
}

/// What one more group of a model's blocks adds to the groups before it.
pub open spec fn spec_add_group(before: ModelGroups, group: Seq<u8>) -> ModelGroups {
    ModelGroups {
        body: before.body + group,
        marks: before.marks.push(68 + before.body.len() as int + group.len() as int),
    }
}

/// Appends what group `group` of a model's blocks holds.
fn read_group(
    data: &[u8],
    base: u128,
    sizes_at: usize,
    total: usize,
    block: &ModelFileBlock,
    group: usize,
    first: u64,
    body: &mut Vec<u8>,
) -> (next: Option<u64>)
    requires
        group < 8,
        base <= 0x2_0000_0000_0000_0000,
        sizes_at + 2 * total <= data@.len(),
        first == spec_group_first(*block, group as int),
        first <= group * 0xFFFF,
    ensures
        match spec_block_run(
            data@,
            base + spec_group_offset(*block, group as int),
            sizes_at as int,
            total as int,
            spec_group_first(*block, group as int),
            spec_group_count(*block, group as int),
        ) {
            Some(run) => next.is_some() && final(body)@ == old(body)@ + run && next.unwrap()
                == spec_group_first(*block, group + 1) && next.unwrap() <= (group + 1) * 0xFFFF,
            None => next.is_none(),
        },
{
    let count: u16 = group_count(block, group);
    if read_block_run(
        data,
        base + group_offset(block, group) as u128,
        sizes_at,
        total,
        first as u128,
        count as u32,
        body,
    ) {
        Some(first + count as u64)
    } else {
        None
    }
}

/// Reads the model whose header lies at `offset`.
pub fn read_model_file(data: &[u8], offset: u64, info: &FileInfo) -> (file: Option<Vec<u8>>)
    requires
        offset + 12 <= data@.len(),
    ensures
        match file {
            Some(file) => spec_model_file(data@, offset as int, *info) == Some(file@),
            None => spec_model_file(data@, offset as int, *info).is_none(),
        },
{
    let len: usize = data.len();
    let start: usize = offset as usize;
    if 208 > len - start {
        return None;
    }
    let block = ModelFileBlock::read(data, start + 12);
    let total: u64 = block.num_stack_size as u64 + block.num_runtime_size as u64
        + block.num_vertex_buffer_size[0] as u64 + block.num_vertex_buffer_size[1] as u64
        + block.num_vertex_buffer_size[2] as u64
        + block.num_edge_geometry_vertex_buffer_size[0] as u64
        + block.num_edge_geometry_vertex_buffer_size[1] as u64
        + block.num_edge_geometry_vertex_buffer_size[2] as u64
        + block.num_index_buffer_size[0] as u64 + block.num_index_buffer_size[1] as u64
        + block.num_index_buffer_size[2] as u64;
    let sizes_at: usize = start + 208;
    proof {
        reveal(spec_model_block_total);
    }
    if 2 * total > (len - sizes_at) as u64 {
        return None;
    }
    let base: u128 = start as u128 + info.size as u128;
    let mut body: Vec<u8> = Vec::new();
    let mut marks: Vec<u64> = Vec::new();
    marks.push(68);
    let ghost mut ints = seq![68int];
    let mut first: u64 = 0;
    let mut group: usize = 0;
    let ghost full = spec_model_block_total(block);
    while group < 8
        invariant
            group <= 8,
            start == offset,
            start + 208 <= data@.len(),
            block == ModelFileBlock::spec_read(data@, start + 12),
            sizes_at == start + 208,
            base == start + info.size,
            sizes_at + 2 * total <= data@.len(),
            total <= 0xFF_FFFF,
            total == full,
            full == spec_model_block_total(block),
            first == spec_group_first(block, group as int),
            first <= group * 0xFFFF,
            spec_model_groups(data@, base as int, sizes_at as int, block, group as int) == Some(
                ModelGroups { body: body@, marks: ints },
            ),
            base <= 0x2_0000_0000_0000_0000,
            marks@.len() == group + 1,
            ints.len() == group + 1,
            body@.len() <= 0xFFFF_FFFF,
            marks@[group as int] == 68 + body@.len(),
            forall|h: int| 0 <= h <= group ==> #[trigger] marks@[h] as int == ints[h],
            forall|a: int, b: int|
                0 <= a <= b <= group ==> #[trigger] marks@[a] <= #[trigger] marks@[b],
        decreases 8 - group,
    {
        let ghost before = ModelGroups { body: body@, marks: ints };
        let ghost run = spec_block_run(
            data@,
            base + spec_group_offset(block, group as int),
            sizes_at as int,
            full,
            spec_group_first(block, group as int),
            spec_group_count(block, group as int),
        );
        assert(spec_model_groups(data@, base as int, sizes_at as int, block, group + 1) == match run {
            Some(run) => Some(spec_add_group(before, run)),
            None => None::<ModelGroups>,
        });
        first = match read_group(
            data,
            base,
            sizes_at,
            total as usize,
            &block,
            group,
            first,
            &mut body,
        ) {
            Some(next) => next,
            None => {
                proof {
                    lemma_model_groups_fails(
                        data@,
                        base as int,
                        sizes_at as int,
                        block,
                        group + 1,
                        8,
                    );
                }
                return None;
            },
        };
        if body.len() as u64 > 0xFFFF_FFFF {
            proof {
                if spec_model_groups(data@, base as int, sizes_at as int, block, 8).is_some() {
                    lemma_model_groups_grow(
                        data@,
                        base as int,
                        sizes_at as int,
                        block,
                        group + 1,
                        8,
                    );
                }
            }
            return None;
        }
        marks.push(68 + body.len() as u64);
        proof {
            ints = ints.push(68 + body@.len() as int);
        }
        group = group + 1;
    }
    if 68 + body.len() as u64 > 0xFFFF_FFFF || 68 + body.len() as u64 != info.file_size as u64 {
        return None;
    }
    let header = assembled_header(&block, &marks);
    let mut file: Vec<u8> = Vec::new();
    header.write(&mut file);
    push_bytes(&mut file, body.as_slice());
    proof {
        assert(marks@.map_values(|mark: u64| mark as int) =~= ints);
    }
    Some(file)
}

proof fn lemma_texture_body_fails(
    s: Seq<u8>,
    base: int,
    sizes_at: int,
    sizes_count: int,
    levels: Seq<TextureLodBlock>,
    n: int,
    count: int,
)
    requires
        0 <= n <= count,
        spec_texture_body(s, base, sizes_at, sizes_count, levels, n).is_none(),
    ensures
        spec_texture_body(s, base, sizes_at, sizes_count, levels, count).is_none(),
    decreases count - n,
{
    if n < count {
        lemma_texture_body_fails(s, base, sizes_at, sizes_count, levels, n, count - 1);
    }
}

/// Reads the texture whose header lies at `offset`.
pub fn read_texture_file(data: &[u8], offset: u64, info: &FileInfo) -> (file: Option<Vec<u8>>)
    requires
        offset + 12 <= data@.len(),
    ensures
        match file {
            Some(file) => spec_texture_file(data@, offset as int, *info) == Some(file@),
            None => spec_texture_file(data@, offset as int, *info).is_none(),
        },
{
    let len: usize = data.len();
    let start: usize = offset as usize;
    if 24 > len - start {
        return None;
    }
    let count: u32 = read_u32_le(data, start + 20);
    if count == 0 || 20 * count as u64 > (len - start - 24) as u64 {
        return None;
    }
    let sizes_at: usize = start + 24 + 20 * count as usize;
    let sizes_count: usize = (len - sizes_at) / 2;
    let levels: Vec<TextureLodBlock> = read_records(data, start + 24, count as usize);
    let base: u128 = start as u128 + info.size as u128;
    let header_size: u32 = if levels[0].compressed_size != 0 {
        levels[0].compressed_offset
    } else {
        0
    };
    if base + header_size as u128 > len as u128 {
        return None;
    }
    let mut file: Vec<u8> = copy_range(data, base as usize, base as usize + header_size as usize);
    let ghost header = file@;
    let mut first: u128 = 0;
    let mut level: usize = 0;
    let ghost mut body = Seq::<u8>::empty();
    assert(file@ =~= header + body);
    while level < count as usize
        invariant
            level <= count,
            len == data@.len(),
            start == offset,
            count == spec_u32_le(data@, start + 20),
            sizes_at == start + 24 + 20 * count,
            sizes_count == (len - sizes_at) / 2,
            levels@ == spec_records::<TextureLodBlock>(data@, start + 24, count as int),
            base == start + info.size,
            first == spec_level_first(levels@, level as int),
            first <= level * 0xFFFF_FFFF,
            spec_texture_body(
                data@,
                base as int,
                sizes_at as int,
                sizes_count as int,
                levels@,
                level as int,
            ) == Some(body),
            file@ == header + body,
        decreases count - level,
    {
        let ghost before = file@;
        if !read_block_run(
            data,
            base + levels[level].compressed_offset as u128,
            sizes_at,
            sizes_count,
            first,
            levels[level].block_count,
            &mut file,
        ) {
            proof {
                lemma_texture_body_fails(
                    data@,
                    base as int,
                    sizes_at as int,
                    sizes_count as int,
                    levels@,
                    level + 1,
                    count as int,
                );
            }
            return None;
        }
        proof {
            let run = spec_block_run(
                data@,
                base + levels@[level as int].compressed_offset,
                sizes_at as int,
                sizes_count as int,
                first as int,
                levels@[level as int].block_count as int,
            ).unwrap();
            lemma_append_twice(header, body, run);
            body = body + run;
        }
        first = first + levels[level].block_count as u128;
        level = level + 1;
    }
    if file.len() as u64 != info.file_size as u64 {
        return None;
    }
    Some(file)
}

/// A data file, with its bytes in memory.
#[derive(Debug)]
pub struct DatFile {
    pub data: Vec<u8>,
}

impl DatFile {
    /// A data file with the given bytes.
    pub fn from_existing(data: Vec<u8>) -> (file: DatFile)
        ensures
            file.data@ == data@,
    {
        DatFile { data }
    }

    /// Reads the asset whose header lies at `offset`.
    ///
    /// Returns the bytes of the asset, and nothing where the header is
    /// malformed, the asset is empty, a block cannot be read or does not
    /// inflate to the size that it declares, or the asset is not as long as
    /// its header declares.
    pub fn read_from_offset(&self, offset: u64) -> (file: Option<Vec<u8>>)
        ensures
            match file {
                Some(file) => spec_read_from_offset(self.data@, offset as int) == Some(file@),
                None => spec_read_from_offset(self.data@, offset as int).is_none(),
            },
    {
        read_from_offset(self.data.as_slice(), offset)
    }
}

/// Reads the asset whose header lies at `offset` of the bytes of a data file.
pub fn read_from_offset(data: &[u8], offset: u64) -> (file: Option<Vec<u8>>)
    ensures
        match file {
            Some(file) => spec_read_from_offset(data@, offset as int) == Some(file@),
            None => spec_read_from_offset(data@, offset as int).is_none(),
        },
{
    let info = match read_file_info(data, offset) {
        Some(info) => info,
        None => { return None; },
    };
    match info.file_type {
        FileType::Empty => None,
        FileType::Standard => read_standard_file(data, offset, &info),
        FileType::Model => read_model_file(data, offset, &info),
        FileType::Texture => read_texture_file(data, offset, &info),
    }
}

} // verus!
