//! The fixed-size records of data files.

use vstd::prelude::*;
use crate::binary::{
    lemma_u32_le_at, push_u32_le, read_u16_le, read_u32_le, spec_u16_le, spec_u32_le,
    spec_u32_le_bytes,
};
use crate::records::Record;

verus! {

/// The number of bytes of the header of a model in a data file.
pub const MODEL_FILE_BLOCK_SIZE: usize = 196;

/// The header of a model in a data file. For the stack, the runtime data and,
/// for each level of detail, the vertex, edge geometry and index data, it holds
/// the size without and with compression, the offset, the index of the first
/// block and the number of blocks.
#[derive(PartialEq, Eq, Clone, Copy, Debug)]
pub struct ModelFileBlock {
    pub num_blocks: u32,
    pub num_used_blocks: u32,
    pub version: u32,
    pub uncompressed_stack_size: u32,
    pub uncompressed_runtime_size: u32,
    pub uncompressed_vertex_buffer_size: [u32; 3],
    pub uncompressed_edge_geometry_vertex_buffer_size: [u32; 3],
    pub uncompressed_index_buffer_size: [u32; 3],
    pub compressed_stack_size: u32,
    pub compressed_runtime_size: u32,
    pub compressed_vertex_buffer_size: [u32; 3],
    pub compressed_edge_geometry_vertex_buffer_size: [u32; 3],
    pub compressed_index_buffer_size: [u32; 3],
    pub offset_stack_size: u32,
    pub offset_runtime_size: u32,
    pub offset_vertex_buffer_size: [u32; 3],
    pub offset_edge_geometry_vertex_buffer_size: [u32; 3],
    pub offset_index_buffer_size: [u32; 3],
    pub index_stack_size: u16,
    pub index_runtime_size: u16,
    pub index_vertex_buffer_size: [u16; 3],
    pub index_edge_geometry_vertex_buffer_size: [u16; 3],
    pub index_index_buffer_size: [u16; 3],
    pub num_stack_size: u16,
    pub num_runtime_size: u16,
    pub num_vertex_buffer_size: [u16; 3],
    pub num_edge_geometry_vertex_buffer_size: [u16; 3],
    pub num_index_buffer_size: [u16; 3],
    pub vertex_declaration_num: u16,
    pub material_num: u16,
    pub num_lods: u8,
    pub index_buffer_streaming_enabled: u8,
    pub edge_geometry_enabled: u8,
}

impl ModelFileBlock {
    /// The record stored at `at`.
    pub open spec fn spec_read(s: Seq<u8>, at: int) -> ModelFileBlock {
        ModelFileBlock {
            num_blocks: spec_u32_le(s, at) as u32,
            num_used_blocks: spec_u32_le(s, at + 4) as u32,
            version: spec_u32_le(s, at + 8) as u32,
            uncompressed_stack_size: spec_u32_le(s, at + 12) as u32,
            uncompressed_runtime_size: spec_u32_le(s, at + 16) as u32,
            uncompressed_vertex_buffer_size: [
                spec_u32_le(s, at + 20) as u32,
                spec_u32_le(s, at + 24) as u32,
                spec_u32_le(s, at + 28) as u32,
            ],
            uncompressed_edge_geometry_vertex_buffer_size: [
                spec_u32_le(s, at + 32) as u32,
                spec_u32_le(s, at + 36) as u32,
                spec_u32_le(s, at + 40) as u32,
            ],
            uncompressed_index_buffer_size: [
                spec_u32_le(s, at + 44) as u32,
                spec_u32_le(s, at + 48) as u32,
                spec_u32_le(s, at + 52) as u32,
            ],
            compressed_stack_size: spec_u32_le(s, at + 56) as u32,
            compressed_runtime_size: spec_u32_le(s, at + 60) as u32,
            compressed_vertex_buffer_size: [
                spec_u32_le(s, at + 64) as u32,
                spec_u32_le(s, at + 68) as u32,
                spec_u32_le(s, at + 72) as u32,
            ],
            compressed_edge_geometry_vertex_buffer_size: [
                spec_u32_le(s, at + 76) as u32,
                spec_u32_le(s, at + 80) as u32,
                spec_u32_le(s, at + 84) as u32,
            ],
            compressed_index_buffer_size: [
                spec_u32_le(s, at + 88) as u32,
                spec_u32_le(s, at + 92) as u32,
                spec_u32_le(s, at + 96) as u32,
            ],
            offset_stack_size: spec_u32_le(s, at + 100) as u32,
            offset_runtime_size: spec_u32_le(s, at + 104) as u32,
            offset_vertex_buffer_size: [
                spec_u32_le(s, at + 108) as u32,
                spec_u32_le(s, at + 112) as u32,
                spec_u32_le(s, at + 116) as u32,
            ],
            offset_edge_geometry_vertex_buffer_size: [
                spec_u32_le(s, at + 120) as u32,
                spec_u32_le(s, at + 124) as u32,
                spec_u32_le(s, at + 128) as u32,
            ],
            offset_index_buffer_size: [
                spec_u32_le(s, at + 132) as u32,
                spec_u32_le(s, at + 136) as u32,
                spec_u32_le(s, at + 140) as u32,
            ],
            index_stack_size: spec_u16_le(s, at + 144) as u16,
            index_runtime_size: spec_u16_le(s, at + 146) as u16,
            index_vertex_buffer_size: [
                spec_u16_le(s, at + 148) as u16,
                spec_u16_le(s, at + 150) as u16,
                spec_u16_le(s, at + 152) as u16,
            ],
            index_edge_geometry_vertex_buffer_size: [
                spec_u16_le(s, at + 154) as u16,
                spec_u16_le(s, at + 156) as u16,
                spec_u16_le(s, at + 158) as u16,
            ],
            index_index_buffer_size: [
                spec_u16_le(s, at + 160) as u16,
                spec_u16_le(s, at + 162) as u16,
                spec_u16_le(s, at + 164) as u16,
            ],
            num_stack_size: spec_u16_le(s, at + 166) as u16,
            num_runtime_size: spec_u16_le(s, at + 168) as u16,
            num_vertex_buffer_size: [
                spec_u16_le(s, at + 170) as u16,
                spec_u16_le(s, at + 172) as u16,
                spec_u16_le(s, at + 174) as u16,
            ],
            num_edge_geometry_vertex_buffer_size: [
                spec_u16_le(s, at + 176) as u16,
                spec_u16_le(s, at + 178) as u16,
                spec_u16_le(s, at + 180) as u16,
            ],
            num_index_buffer_size: [
                spec_u16_le(s, at + 182) as u16,
                spec_u16_le(s, at + 184) as u16,
                spec_u16_le(s, at + 186) as u16,
            ],
            vertex_declaration_num: spec_u16_le(s, at + 188) as u16,
            material_num: spec_u16_le(s, at + 190) as u16,
            num_lods: s[at + 192],
            index_buffer_streaming_enabled: s[at + 193],
            edge_geometry_enabled: s[at + 194],
        }
    }

    /// Reads the record at `at`.
    pub fn read(data: &[u8], at: usize) -> (r: ModelFileBlock)
        requires
            at + 196 <= data@.len(),
        ensures
            r == Self::spec_read(data@, at as int),
    {
        let len: usize = data.len();
        ModelFileBlock {
            num_blocks: read_u32_le(data, at),
            num_used_blocks: read_u32_le(data, at + 4),
            version: read_u32_le(data, at + 8),
            uncompressed_stack_size: read_u32_le(data, at + 12),
            uncompressed_runtime_size: read_u32_le(data, at + 16),
            uncompressed_vertex_buffer_size: [
                read_u32_le(data, at + 20),
                read_u32_le(data, at + 24),
                read_u32_le(data, at + 28),
            ],
            uncompressed_edge_geometry_vertex_buffer_size: [
                read_u32_le(data, at + 32),
                read_u32_le(data, at + 36),
                read_u32_le(data, at + 40),
            ],
            uncompressed_index_buffer_size: [
                read_u32_le(data, at + 44),
                read_u32_le(data, at + 48),
                read_u32_le(data, at + 52),
            ],
            compressed_stack_size: read_u32_le(data, at + 56),
            compressed_runtime_size: read_u32_le(data, at + 60),
            compressed_vertex_buffer_size: [
                read_u32_le(data, at + 64),
                read_u32_le(data, at + 68),
                read_u32_le(data, at + 72),
            ],
            compressed_edge_geometry_vertex_buffer_size: [
                read_u32_le(data, at + 76),
                read_u32_le(data, at + 80),
                read_u32_le(data, at + 84),
            ],
            compressed_index_buffer_size: [
                read_u32_le(data, at + 88),
                read_u32_le(data, at + 92),
                read_u32_le(data, at + 96),
            ],
            offset_stack_size: read_u32_le(data, at + 100),
            offset_runtime_size: read_u32_le(data, at + 104),
            offset_vertex_buffer_size: [
                read_u32_le(data, at + 108),
                read_u32_le(data, at + 112),
                read_u32_le(data, at + 116),
            ],
            offset_edge_geometry_vertex_buffer_size: [
                read_u32_le(data, at + 120),
                read_u32_le(data, at + 124),
                read_u32_le(data, at + 128),
            ],
            offset_index_buffer_size: [
                read_u32_le(data, at + 132),
                read_u32_le(data, at + 136),
                read_u32_le(data, at + 140),
            ],
            index_stack_size: read_u16_le(data, at + 144),
            index_runtime_size: read_u16_le(data, at + 146),
            index_vertex_buffer_size: [
                read_u16_le(data, at + 148),
                read_u16_le(data, at + 150),
                read_u16_le(data, at + 152),
            ],
            index_edge_geometry_vertex_buffer_size: [
                read_u16_le(data, at + 154),
                read_u16_le(data, at + 156),
                read_u16_le(data, at + 158),
            ],
            index_index_buffer_size: [
                read_u16_le(data, at + 160),
                read_u16_le(data, at + 162),
                read_u16_le(data, at + 164),
            ],
            num_stack_size: read_u16_le(data, at + 166),
            num_runtime_size: read_u16_le(data, at + 168),
            num_vertex_buffer_size: [
                read_u16_le(data, at + 170),
                read_u16_le(data, at + 172),
                read_u16_le(data, at + 174),
            ],
            num_edge_geometry_vertex_buffer_size: [
                read_u16_le(data, at + 176),
                read_u16_le(data, at + 178),
                read_u16_le(data, at + 180),
            ],
            num_index_buffer_size: [
                read_u16_le(data, at + 182),
                read_u16_le(data, at + 184),
                read_u16_le(data, at + 186),
            ],
            vertex_declaration_num: read_u16_le(data, at + 188),
            material_num: read_u16_le(data, at + 190),
            num_lods: data[at + 192],
            index_buffer_streaming_enabled: data[at + 193],
            edge_geometry_enabled: data[at + 194],
        }
    }
}

/// One mip level of a texture in a data file: where its blocks lie and how many
/// there are.
#[derive(PartialEq, Eq, Structural, Clone, Copy, Debug)]
pub struct TextureLodBlock {
    pub compressed_offset: u32,
    pub compressed_size: u32,
    pub decompressed_size: u32,
    pub block_offset: u32,
    pub block_count: u32,
}

impl Record for TextureLodBlock {
    open spec fn spec_size() -> int {
        20
    }

    open spec fn spec_read(s: Seq<u8>, at: int) -> TextureLodBlock {
        TextureLodBlock {
            compressed_offset: spec_u32_le(s, at) as u32,
            compressed_size: spec_u32_le(s, at + 4) as u32,
            decompressed_size: spec_u32_le(s, at + 8) as u32,
            block_offset: spec_u32_le(s, at + 12) as u32,
            block_count: spec_u32_le(s, at + 16) as u32,
        }
    }

    open spec fn spec_bytes(self) -> Seq<u8> {
        spec_u32_le_bytes(self.compressed_offset)
            + spec_u32_le_bytes(self.compressed_size)
            + spec_u32_le_bytes(self.decompressed_size)
            + spec_u32_le_bytes(self.block_offset)
            + spec_u32_le_bytes(self.block_count)
    }

    fn size() -> (n: usize) {
        20
    }

    fn read(data: &[u8], at: usize) -> (r: TextureLodBlock) {
        let len: usize = data.len();
        TextureLodBlock {
            compressed_offset: read_u32_le(data, at),
            compressed_size: read_u32_le(data, at + 4),
            decompressed_size: read_u32_le(data, at + 8),
            block_offset: read_u32_le(data, at + 12),
            block_count: read_u32_le(data, at + 16),
        }
    }

    fn write(&self, out: &mut Vec<u8>) {
        push_u32_le(out, self.compressed_offset);
        push_u32_le(out, self.compressed_size);
        push_u32_le(out, self.decompressed_size);
        push_u32_le(out, self.block_offset);
        push_u32_le(out, self.block_count);
        assert(out@ =~= old(out)@ + self.spec_bytes());
    }

    proof fn lemma_roundtrip(self, before: Seq<u8>, after: Seq<u8>) {
        let s = before + self.spec_bytes() + after;
        let at = before.len() as int;
        let body = self.spec_bytes();
        assert(body.len() == 20);
        assert forall|i: int| 0 <= i < 20 implies s[at + i] == body[i] by {}
        assert(spec_u32_le(body, 0) == self.compressed_offset) by {
            assert(body.subrange(0, 4) =~= spec_u32_le_bytes(self.compressed_offset));
            lemma_u32_le_at(body, 0, self.compressed_offset);
        }
        assert(spec_u32_le(body, 4) == self.compressed_size) by {
            assert(body.subrange(4, 8) =~= spec_u32_le_bytes(self.compressed_size));
            lemma_u32_le_at(body, 4, self.compressed_size);
        }
        assert(spec_u32_le(body, 8) == self.decompressed_size) by {
            assert(body.subrange(8, 12) =~= spec_u32_le_bytes(self.decompressed_size));
            lemma_u32_le_at(body, 8, self.decompressed_size);
        }
        assert(spec_u32_le(body, 12) == self.block_offset) by {
            assert(body.subrange(12, 16) =~= spec_u32_le_bytes(self.block_offset));
            lemma_u32_le_at(body, 12, self.block_offset);
        }
        assert(spec_u32_le(body, 16) == self.block_count) by {
            assert(body.subrange(16, 20) =~= spec_u32_le_bytes(self.block_count));
            lemma_u32_le_at(body, 16, self.block_count);
        }
        let r = Self::spec_read(s, at);
    }
}

} // verus!
