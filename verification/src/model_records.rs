//! The fixed-size records of a model's data block.

use vstd::prelude::*;
use crate::binary::{
    lemma_u16_le_at, lemma_u32_le_at, push_u16_le, push_u32_le, push_zeros, read_u16_le,
    read_u32_le, spec_u16_le, spec_u16_le_bytes, spec_u32_le, spec_u32_le_bytes, spec_zeros,
};
use crate::records::Record;

verus! {

/// The fixed part of a model's header that follows the string pool: the counts
/// of the lists that make up the data block, two bytes of flags, and settings.
/// The radius and the two clip distances are single-precision numbers, kept as
/// their bits.
#[derive(PartialEq, Eq, Structural, Clone, Copy, Debug)]
pub struct ModelInfo {
    pub radius: u32,
    pub mesh_count: u16,
    pub attribute_count: u16,
    pub submesh_count: u16,
    pub material_count: u16,
    pub bone_count: u16,
    pub bone_table_count: u16,
    pub shape_count: u16,
    pub shape_mesh_count: u16,
    pub shape_value_count: u16,
    pub lod_count: u8,
    pub flags1: u8,
    pub element_id_count: u16,
    pub terrain_shadow_mesh_count: u8,
    pub flags2: u8,
    pub model_clip_out_of_distance: u32,
    pub shadow_clip_out_of_distance: u32,
    pub terrain_shadow_submesh_count: u16,
    pub bg_change_material_index: u8,
    pub bg_crest_change_material_index: u8,
}

impl Record for ModelInfo {
    open spec fn spec_size() -> int {
        56
    }

    open spec fn spec_read(s: Seq<u8>, at: int) -> ModelInfo {
        ModelInfo {
            radius: spec_u32_le(s, at) as u32,
            mesh_count: spec_u16_le(s, at + 4) as u16,
            attribute_count: spec_u16_le(s, at + 6) as u16,
            submesh_count: spec_u16_le(s, at + 8) as u16,
            material_count: spec_u16_le(s, at + 10) as u16,
            bone_count: spec_u16_le(s, at + 12) as u16,
            bone_table_count: spec_u16_le(s, at + 14) as u16,
            shape_count: spec_u16_le(s, at + 16) as u16,
            shape_mesh_count: spec_u16_le(s, at + 18) as u16,
            shape_value_count: spec_u16_le(s, at + 20) as u16,
            lod_count: s[at + 22],
            flags1: s[at + 23],
            element_id_count: spec_u16_le(s, at + 24) as u16,
            terrain_shadow_mesh_count: s[at + 26],
            flags2: s[at + 27],
            model_clip_out_of_distance: spec_u32_le(s, at + 28) as u32,
            shadow_clip_out_of_distance: spec_u32_le(s, at + 32) as u32,
            terrain_shadow_submesh_count: spec_u16_le(s, at + 38) as u16,
            bg_change_material_index: s[at + 42],
            bg_crest_change_material_index: s[at + 43],
        }
    }

    open spec fn spec_bytes(self) -> Seq<u8> {
        spec_u32_le_bytes(self.radius)
            + spec_u16_le_bytes(self.mesh_count)
            + spec_u16_le_bytes(self.attribute_count)
            + spec_u16_le_bytes(self.submesh_count)
            + spec_u16_le_bytes(self.material_count)
            + spec_u16_le_bytes(self.bone_count)
            + spec_u16_le_bytes(self.bone_table_count)
            + spec_u16_le_bytes(self.shape_count)
            + spec_u16_le_bytes(self.shape_mesh_count)
            + spec_u16_le_bytes(self.shape_value_count)
            + seq![self.lod_count]
            + seq![self.flags1]
            + spec_u16_le_bytes(self.element_id_count)
            + seq![self.terrain_shadow_mesh_count]
            + seq![self.flags2]
            + spec_u32_le_bytes(self.model_clip_out_of_distance)
            + spec_u32_le_bytes(self.shadow_clip_out_of_distance)
            + spec_zeros(2)
            + spec_u16_le_bytes(self.terrain_shadow_submesh_count)
            + spec_zeros(2)
            + seq![self.bg_change_material_index]
            + seq![self.bg_crest_change_material_index]
            + spec_zeros(12)
    }

    fn size() -> (n: usize) {
        56
    }

    fn read(data: &[u8], at: usize) -> (r: ModelInfo) {
        let len: usize = data.len();
        ModelInfo {
            radius: read_u32_le(data, at),
            mesh_count: read_u16_le(data, at + 4),
            attribute_count: read_u16_le(data, at + 6),
            submesh_count: read_u16_le(data, at + 8),
            material_count: read_u16_le(data, at + 10),
            bone_count: read_u16_le(data, at + 12),
            bone_table_count: read_u16_le(data, at + 14),
            shape_count: read_u16_le(data, at + 16),
            shape_mesh_count: read_u16_le(data, at + 18),
            shape_value_count: read_u16_le(data, at + 20),
            lod_count: data[at + 22],
            flags1: data[at + 23],
            element_id_count: read_u16_le(data, at + 24),
            terrain_shadow_mesh_count: data[at + 26],
            flags2: data[at + 27],
            model_clip_out_of_distance: read_u32_le(data, at + 28),
            shadow_clip_out_of_distance: read_u32_le(data, at + 32),
            terrain_shadow_submesh_count: read_u16_le(data, at + 38),
            bg_change_material_index: data[at + 42],
            bg_crest_change_material_index: data[at + 43],
        }
    }

    fn write(&self, out: &mut Vec<u8>) {
        push_u32_le(out, self.radius);
        push_u16_le(out, self.mesh_count);
        push_u16_le(out, self.attribute_count);
        push_u16_le(out, self.submesh_count);
        push_u16_le(out, self.material_count);
        push_u16_le(out, self.bone_count);
        push_u16_le(out, self.bone_table_count);
        push_u16_le(out, self.shape_count);
        push_u16_le(out, self.shape_mesh_count);
        push_u16_le(out, self.shape_value_count);
        out.push(self.lod_count);
        out.push(self.flags1);
        push_u16_le(out, self.element_id_count);
        out.push(self.terrain_shadow_mesh_count);
        out.push(self.flags2);
        push_u32_le(out, self.model_clip_out_of_distance);
        push_u32_le(out, self.shadow_clip_out_of_distance);
        push_zeros(out, 2);
        push_u16_le(out, self.terrain_shadow_submesh_count);
        push_zeros(out, 2);
        out.push(self.bg_change_material_index);
        out.push(self.bg_crest_change_material_index);
        push_zeros(out, 12);
        assert(out@ =~= old(out)@ + self.spec_bytes());
    }

    proof fn lemma_roundtrip(self, before: Seq<u8>, after: Seq<u8>) {
        let s = before + self.spec_bytes() + after;
        let at = before.len() as int;
        let body = self.spec_bytes();
        assert(body.len() == 56);
        assert forall|i: int| 0 <= i < 56 implies s[at + i] == body[i] by {}
        assert(spec_u32_le(body, 0) == self.radius) by {
            assert(body.subrange(0, 4) =~= spec_u32_le_bytes(self.radius));
            lemma_u32_le_at(body, 0, self.radius);
        }
        assert(spec_u16_le(body, 4) == self.mesh_count) by {
            assert(body.subrange(4, 6) =~= spec_u16_le_bytes(self.mesh_count));
            lemma_u16_le_at(body, 4, self.mesh_count);
        }
        assert(spec_u16_le(body, 6) == self.attribute_count) by {
            assert(body.subrange(6, 8) =~= spec_u16_le_bytes(self.attribute_count));
            lemma_u16_le_at(body, 6, self.attribute_count);
        }
        assert(spec_u16_le(body, 8) == self.submesh_count) by {
            assert(body.subrange(8, 10) =~= spec_u16_le_bytes(self.submesh_count));
            lemma_u16_le_at(body, 8, self.submesh_count);
        }
        assert(spec_u16_le(body, 10) == self.material_count) by {
            assert(body.subrange(10, 12) =~= spec_u16_le_bytes(self.material_count));
            lemma_u16_le_at(body, 10, self.material_count);
        }
        assert(spec_u16_le(body, 12) == self.bone_count) by {
            assert(body.subrange(12, 14) =~= spec_u16_le_bytes(self.bone_count));
            lemma_u16_le_at(body, 12, self.bone_count);
        }
        assert(spec_u16_le(body, 14) == self.bone_table_count) by {
            assert(body.subrange(14, 16) =~= spec_u16_le_bytes(self.bone_table_count));
            lemma_u16_le_at(body, 14, self.bone_table_count);
        }
        assert(spec_u16_le(body, 16) == self.shape_count) by {
            assert(body.subrange(16, 18) =~= spec_u16_le_bytes(self.shape_count));
            lemma_u16_le_at(body, 16, self.shape_count);
        }
        assert(spec_u16_le(body, 18) == self.shape_mesh_count) by {
            assert(body.subrange(18, 20) =~= spec_u16_le_bytes(self.shape_mesh_count));
            lemma_u16_le_at(body, 18, self.shape_mesh_count);
        }
        assert(spec_u16_le(body, 20) == self.shape_value_count) by {
            assert(body.subrange(20, 22) =~= spec_u16_le_bytes(self.shape_value_count));
            lemma_u16_le_at(body, 20, self.shape_value_count);
        }
        assert(body[22] == self.lod_count);
        assert(body[23] == self.flags1);
        assert(spec_u16_le(body, 24) == self.element_id_count) by {
            assert(body.subrange(24, 26) =~= spec_u16_le_bytes(self.element_id_count));
            lemma_u16_le_at(body, 24, self.element_id_count);
        }
        assert(body[26] == self.terrain_shadow_mesh_count);
        assert(body[27] == self.flags2);
        assert(spec_u32_le(body, 28) == self.model_clip_out_of_distance) by {
            assert(body.subrange(28, 32) =~= spec_u32_le_bytes(self.model_clip_out_of_distance));
            lemma_u32_le_at(body, 28, self.model_clip_out_of_distance);
        }
        assert(spec_u32_le(body, 32) == self.shadow_clip_out_of_distance) by {
            assert(body.subrange(32, 36) =~= spec_u32_le_bytes(self.shadow_clip_out_of_distance));
            lemma_u32_le_at(body, 32, self.shadow_clip_out_of_distance);
        }
        assert(spec_u16_le(body, 38) == self.terrain_shadow_submesh_count) by {
            assert(body.subrange(38, 40) =~= spec_u16_le_bytes(self.terrain_shadow_submesh_count));
            lemma_u16_le_at(body, 38, self.terrain_shadow_submesh_count);
        }
        assert(body[42] == self.bg_change_material_index);
        assert(body[43] == self.bg_crest_change_material_index);
        let r = Self::spec_read(s, at);
    }
}

/// An element identifier with the bone it hangs on. The translation and the
/// rotation are single-precision numbers, kept as their bits.
#[derive(PartialEq, Eq, Clone, Copy, Debug)]
pub struct ElementId {
    pub element_id: u32,
    pub parent_bone_name: u32,
    pub translate: [u32; 3],
    pub rotate: [u32; 3],
}

impl Record for ElementId {
    open spec fn spec_size() -> int {
        32
    }

    open spec fn spec_read(s: Seq<u8>, at: int) -> ElementId {
        ElementId {
            element_id: spec_u32_le(s, at) as u32,
            parent_bone_name: spec_u32_le(s, at + 4) as u32,
            translate: [
                spec_u32_le(s, at + 8) as u32,
                spec_u32_le(s, at + 12) as u32,
                spec_u32_le(s, at + 16) as u32,
            ],
            rotate: [
                spec_u32_le(s, at + 20) as u32,
                spec_u32_le(s, at + 24) as u32,
                spec_u32_le(s, at + 28) as u32,
            ],
        }
    }

    open spec fn spec_bytes(self) -> Seq<u8> {
        spec_u32_le_bytes(self.element_id)
            + spec_u32_le_bytes(self.parent_bone_name)
            + spec_u32_le_bytes(self.translate[0])
            + spec_u32_le_bytes(self.translate[1])
            + spec_u32_le_bytes(self.translate[2])
            + spec_u32_le_bytes(self.rotate[0])
            + spec_u32_le_bytes(self.rotate[1])
            + spec_u32_le_bytes(self.rotate[2])
    }

    fn size() -> (n: usize) {
        32
    }

    fn read(data: &[u8], at: usize) -> (r: ElementId) {
        let len: usize = data.len();
        ElementId {
            element_id: read_u32_le(data, at),
            parent_bone_name: read_u32_le(data, at + 4),
            translate: [
                read_u32_le(data, at + 8),
                read_u32_le(data, at + 12),
                read_u32_le(data, at + 16),
            ],
            rotate: [
                read_u32_le(data, at + 20),
                read_u32_le(data, at + 24),
                read_u32_le(data, at + 28),
            ],
        }
    }

    fn write(&self, out: &mut Vec<u8>) {
        push_u32_le(out, self.element_id);
        push_u32_le(out, self.parent_bone_name);
        push_u32_le(out, self.translate[0]);
        push_u32_le(out, self.translate[1]);
        push_u32_le(out, self.translate[2]);
        push_u32_le(out, self.rotate[0]);
        push_u32_le(out, self.rotate[1]);
        push_u32_le(out, self.rotate[2]);
        assert(out@ =~= old(out)@ + self.spec_bytes());
    }

    proof fn lemma_roundtrip(self, before: Seq<u8>, after: Seq<u8>) {
        let s = before + self.spec_bytes() + after;
        let at = before.len() as int;
        let body = self.spec_bytes();
        assert(body.len() == 32);
        assert forall|i: int| 0 <= i < 32 implies s[at + i] == body[i] by {}
        assert(spec_u32_le(body, 0) == self.element_id) by {
            assert(body.subrange(0, 4) =~= spec_u32_le_bytes(self.element_id));
            lemma_u32_le_at(body, 0, self.element_id);
        }
        assert(spec_u32_le(body, 4) == self.parent_bone_name) by {
            assert(body.subrange(4, 8) =~= spec_u32_le_bytes(self.parent_bone_name));
            lemma_u32_le_at(body, 4, self.parent_bone_name);
        }
        assert(spec_u32_le(body, 8) == self.translate[0]) by {
            assert(body.subrange(8, 12) =~= spec_u32_le_bytes(self.translate[0]));
            lemma_u32_le_at(body, 8, self.translate[0]);
        }
        assert(spec_u32_le(body, 12) == self.translate[1]) by {
            assert(body.subrange(12, 16) =~= spec_u32_le_bytes(self.translate[1]));
            lemma_u32_le_at(body, 12, self.translate[1]);
        }
        assert(spec_u32_le(body, 16) == self.translate[2]) by {
            assert(body.subrange(16, 20) =~= spec_u32_le_bytes(self.translate[2]));
            lemma_u32_le_at(body, 16, self.translate[2]);
        }
        assert(spec_u32_le(body, 20) == self.rotate[0]) by {
            assert(body.subrange(20, 24) =~= spec_u32_le_bytes(self.rotate[0]));
            lemma_u32_le_at(body, 20, self.rotate[0]);
        }
        assert(spec_u32_le(body, 24) == self.rotate[1]) by {
            assert(body.subrange(24, 28) =~= spec_u32_le_bytes(self.rotate[1]));
            lemma_u32_le_at(body, 24, self.rotate[1]);
        }
        assert(spec_u32_le(body, 28) == self.rotate[2]) by {
            assert(body.subrange(28, 32) =~= spec_u32_le_bytes(self.rotate[2]));
            lemma_u32_le_at(body, 28, self.rotate[2]);
        }
        let r = Self::spec_read(s, at);
        assert(r.translate =~= self.translate);
        assert(r.rotate =~= self.rotate);
    }
}

/// One level of detail: the meshes that belong to it, and where its vertex and
/// index data lie in the file. The two ranges are single-precision numbers, kept
/// as their bits.
#[derive(PartialEq, Eq, Structural, Clone, Copy, Debug)]
pub struct MeshLod {
    pub mesh_index: u16,
    pub mesh_count: u16,
    pub model_lod_range: u32,
    pub texture_lod_range: u32,
    pub water_mesh_index: u16,
    pub water_mesh_count: u16,
    pub shadow_mesh_index: u16,
    pub shadow_mesh_count: u16,
    pub terrain_shadow_mesh_count: u16,
    pub terrain_shadow_mesh_index: u16,
    pub vertical_fog_mesh_index: u16,
    pub vertical_fog_mesh_count: u16,
    pub edge_geometry_size: u32,
    pub edge_geometry_data_offset: u32,
    pub polygon_count: u32,
    pub vertex_buffer_size: u32,
    pub index_buffer_size: u32,
    pub vertex_data_offset: u32,
    pub index_data_offset: u32,
}

impl Record for MeshLod {
    open spec fn spec_size() -> int {
        60
    }

    open spec fn spec_read(s: Seq<u8>, at: int) -> MeshLod {
        MeshLod {
            mesh_index: spec_u16_le(s, at) as u16,
            mesh_count: spec_u16_le(s, at + 2) as u16,
            model_lod_range: spec_u32_le(s, at + 4) as u32,
            texture_lod_range: spec_u32_le(s, at + 8) as u32,
            water_mesh_index: spec_u16_le(s, at + 12) as u16,
            water_mesh_count: spec_u16_le(s, at + 14) as u16,
            shadow_mesh_index: spec_u16_le(s, at + 16) as u16,
            shadow_mesh_count: spec_u16_le(s, at + 18) as u16,
            terrain_shadow_mesh_count: spec_u16_le(s, at + 20) as u16,
            terrain_shadow_mesh_index: spec_u16_le(s, at + 22) as u16,
            vertical_fog_mesh_index: spec_u16_le(s, at + 24) as u16,
            vertical_fog_mesh_count: spec_u16_le(s, at + 26) as u16,
            edge_geometry_size: spec_u32_le(s, at + 28) as u32,
            edge_geometry_data_offset: spec_u32_le(s, at + 32) as u32,
            polygon_count: spec_u32_le(s, at + 36) as u32,
            vertex_buffer_size: spec_u32_le(s, at + 44) as u32,
            index_buffer_size: spec_u32_le(s, at + 48) as u32,
            vertex_data_offset: spec_u32_le(s, at + 52) as u32,
            index_data_offset: spec_u32_le(s, at + 56) as u32,
        }
    }

    open spec fn spec_bytes(self) -> Seq<u8> {
        spec_u16_le_bytes(self.mesh_index)
            + spec_u16_le_bytes(self.mesh_count)
            + spec_u32_le_bytes(self.model_lod_range)
            + spec_u32_le_bytes(self.texture_lod_range)
            + spec_u16_le_bytes(self.water_mesh_index)
            + spec_u16_le_bytes(self.water_mesh_count)
            + spec_u16_le_bytes(self.shadow_mesh_index)
            + spec_u16_le_bytes(self.shadow_mesh_count)
            + spec_u16_le_bytes(self.terrain_shadow_mesh_count)
            + spec_u16_le_bytes(self.terrain_shadow_mesh_index)
            + spec_u16_le_bytes(self.vertical_fog_mesh_index)
            + spec_u16_le_bytes(self.vertical_fog_mesh_count)
            + spec_u32_le_bytes(self.edge_geometry_size)
            + spec_u32_le_bytes(self.edge_geometry_data_offset)
            + spec_u32_le_bytes(self.polygon_count)
            + spec_zeros(4)
            + spec_u32_le_bytes(self.vertex_buffer_size)
            + spec_u32_le_bytes(self.index_buffer_size)
            + spec_u32_le_bytes(self.vertex_data_offset)
            + spec_u32_le_bytes(self.index_data_offset)
    }

    fn size() -> (n: usize) {
        60
    }

    fn read(data: &[u8], at: usize) -> (r: MeshLod) {
        let len: usize = data.len();
        MeshLod {
            mesh_index: read_u16_le(data, at),
            mesh_count: read_u16_le(data, at + 2),
            model_lod_range: read_u32_le(data, at + 4),
            texture_lod_range: read_u32_le(data, at + 8),
            water_mesh_index: read_u16_le(data, at + 12),
            water_mesh_count: read_u16_le(data, at + 14),
            shadow_mesh_index: read_u16_le(data, at + 16),
            shadow_mesh_count: read_u16_le(data, at + 18),
            terrain_shadow_mesh_count: read_u16_le(data, at + 20),
            terrain_shadow_mesh_index: read_u16_le(data, at + 22),
            vertical_fog_mesh_index: read_u16_le(data, at + 24),
            vertical_fog_mesh_count: read_u16_le(data, at + 26),
            edge_geometry_size: read_u32_le(data, at + 28),
            edge_geometry_data_offset: read_u32_le(data, at + 32),
            polygon_count: read_u32_le(data, at + 36),
            vertex_buffer_size: read_u32_le(data, at + 44),
            index_buffer_size: read_u32_le(data, at + 48),
            vertex_data_offset: read_u32_le(data, at + 52),
            index_data_offset: read_u32_le(data, at + 56),
        }
    }

    fn write(&self, out: &mut Vec<u8>) {
        push_u16_le(out, self.mesh_index);
        push_u16_le(out, self.mesh_count);
        push_u32_le(out, self.model_lod_range);
        push_u32_le(out, self.texture_lod_range);
        push_u16_le(out, self.water_mesh_index);
        push_u16_le(out, self.water_mesh_count);
        push_u16_le(out, self.shadow_mesh_index);
        push_u16_le(out, self.shadow_mesh_count);
        push_u16_le(out, self.terrain_shadow_mesh_count);
        push_u16_le(out, self.terrain_shadow_mesh_index);
        push_u16_le(out, self.vertical_fog_mesh_index);
        push_u16_le(out, self.vertical_fog_mesh_count);
        push_u32_le(out, self.edge_geometry_size);
        push_u32_le(out, self.edge_geometry_data_offset);
        push_u32_le(out, self.polygon_count);
        push_zeros(out, 4);
        push_u32_le(out, self.vertex_buffer_size);
        push_u32_le(out, self.index_buffer_size);
        push_u32_le(out, self.vertex_data_offset);
        push_u32_le(out, self.index_data_offset);
        assert(out@ =~= old(out)@ + self.spec_bytes());
    }

    proof fn lemma_roundtrip(self, before: Seq<u8>, after: Seq<u8>) {
        let s = before + self.spec_bytes() + after;
        let at = before.len() as int;
        let body = self.spec_bytes();
        assert(body.len() == 60);
        assert forall|i: int| 0 <= i < 60 implies s[at + i] == body[i] by {}
        assert(spec_u16_le(body, 0) == self.mesh_index) by {
            assert(body.subrange(0, 2) =~= spec_u16_le_bytes(self.mesh_index));
            lemma_u16_le_at(body, 0, self.mesh_index);
        }
        assert(spec_u16_le(body, 2) == self.mesh_count) by {
            assert(body.subrange(2, 4) =~= spec_u16_le_bytes(self.mesh_count));
            lemma_u16_le_at(body, 2, self.mesh_count);
        }
        assert(spec_u32_le(body, 4) == self.model_lod_range) by {
            assert(body.subrange(4, 8) =~= spec_u32_le_bytes(self.model_lod_range));
            lemma_u32_le_at(body, 4, self.model_lod_range);
        }
        assert(spec_u32_le(body, 8) == self.texture_lod_range) by {
            assert(body.subrange(8, 12) =~= spec_u32_le_bytes(self.texture_lod_range));
            lemma_u32_le_at(body, 8, self.texture_lod_range);
        }
        assert(spec_u16_le(body, 12) == self.water_mesh_index) by {
            assert(body.subrange(12, 14) =~= spec_u16_le_bytes(self.water_mesh_index));
            lemma_u16_le_at(body, 12, self.water_mesh_index);
        }
        assert(spec_u16_le(body, 14) == self.water_mesh_count) by {
            assert(body.subrange(14, 16) =~= spec_u16_le_bytes(self.water_mesh_count));
            lemma_u16_le_at(body, 14, self.water_mesh_count);
        }
        assert(spec_u16_le(body, 16) == self.shadow_mesh_index) by {
            assert(body.subrange(16, 18) =~= spec_u16_le_bytes(self.shadow_mesh_index));
            lemma_u16_le_at(body, 16, self.shadow_mesh_index);
        }
        assert(spec_u16_le(body, 18) == self.shadow_mesh_count) by {
            assert(body.subrange(18, 20) =~= spec_u16_le_bytes(self.shadow_mesh_count));
            lemma_u16_le_at(body, 18, self.shadow_mesh_count);
        }
        assert(spec_u16_le(body, 20) == self.terrain_shadow_mesh_count) by {
            assert(body.subrange(20, 22) =~= spec_u16_le_bytes(self.terrain_shadow_mesh_count));
            lemma_u16_le_at(body, 20, self.terrain_shadow_mesh_count);
        }
        assert(spec_u16_le(body, 22) == self.terrain_shadow_mesh_index) by {
            assert(body.subrange(22, 24) =~= spec_u16_le_bytes(self.terrain_shadow_mesh_index));
            lemma_u16_le_at(body, 22, self.terrain_shadow_mesh_index);
        }
        assert(spec_u16_le(body, 24) == self.vertical_fog_mesh_index) by {
            assert(body.subrange(24, 26) =~= spec_u16_le_bytes(self.vertical_fog_mesh_index));
            lemma_u16_le_at(body, 24, self.vertical_fog_mesh_index);
        }
        assert(spec_u16_le(body, 26) == self.vertical_fog_mesh_count) by {
            assert(body.subrange(26, 28) =~= spec_u16_le_bytes(self.vertical_fog_mesh_count));
            lemma_u16_le_at(body, 26, self.vertical_fog_mesh_count);
        }
        assert(spec_u32_le(body, 28) == self.edge_geometry_size) by {
            assert(body.subrange(28, 32) =~= spec_u32_le_bytes(self.edge_geometry_size));
            lemma_u32_le_at(body, 28, self.edge_geometry_size);
        }
        assert(spec_u32_le(body, 32) == self.edge_geometry_data_offset) by {
            assert(body.subrange(32, 36) =~= spec_u32_le_bytes(self.edge_geometry_data_offset));
            lemma_u32_le_at(body, 32, self.edge_geometry_data_offset);
        }
        assert(spec_u32_le(body, 36) == self.polygon_count) by {
            assert(body.subrange(36, 40) =~= spec_u32_le_bytes(self.polygon_count));
            lemma_u32_le_at(body, 36, self.polygon_count);
        }
        assert(spec_u32_le(body, 44) == self.vertex_buffer_size) by {
            assert(body.subrange(44, 48) =~= spec_u32_le_bytes(self.vertex_buffer_size));
            lemma_u32_le_at(body, 44, self.vertex_buffer_size);
        }
        assert(spec_u32_le(body, 48) == self.index_buffer_size) by {
            assert(body.subrange(48, 52) =~= spec_u32_le_bytes(self.index_buffer_size));
            lemma_u32_le_at(body, 48, self.index_buffer_size);
        }
        assert(spec_u32_le(body, 52) == self.vertex_data_offset) by {
            assert(body.subrange(52, 56) =~= spec_u32_le_bytes(self.vertex_data_offset));
            lemma_u32_le_at(body, 52, self.vertex_data_offset);
        }
        assert(spec_u32_le(body, 56) == self.index_data_offset) by {
            assert(body.subrange(56, 60) =~= spec_u32_le_bytes(self.index_data_offset));
            lemma_u32_le_at(body, 56, self.index_data_offset);
        }
        let r = Self::spec_read(s, at);
    }
}

/// One mesh: how many vertices and indices it has, and where they lie inside the
/// data of its level of detail.
#[derive(PartialEq, Eq, Clone, Copy, Debug)]
pub struct Mesh {
    pub vertex_count: u16,
    pub index_count: u32,
    pub material_index: u16,
    pub submesh_index: u16,
    pub submesh_count: u16,
    pub bone_table_index: u16,
    pub start_index: u32,
    pub vertex_buffer_offsets: [u32; 3],
    pub vertex_buffer_strides: [u8; 3],
    pub vertex_stream_count: u8,
}

impl Record for Mesh {
    open spec fn spec_size() -> int {
        36
    }

    open spec fn spec_read(s: Seq<u8>, at: int) -> Mesh {
        Mesh {
            vertex_count: spec_u16_le(s, at) as u16,
            index_count: spec_u32_le(s, at + 4) as u32,
            material_index: spec_u16_le(s, at + 8) as u16,
            submesh_index: spec_u16_le(s, at + 10) as u16,
            submesh_count: spec_u16_le(s, at + 12) as u16,
            bone_table_index: spec_u16_le(s, at + 14) as u16,
            start_index: spec_u32_le(s, at + 16) as u32,
            vertex_buffer_offsets: [
                spec_u32_le(s, at + 20) as u32,
                spec_u32_le(s, at + 24) as u32,
                spec_u32_le(s, at + 28) as u32,
            ],
            vertex_buffer_strides: [
                s[at + 32],
                s[at + 33],
                s[at + 34],
            ],
            vertex_stream_count: s[at + 35],
        }
    }

    open spec fn spec_bytes(self) -> Seq<u8> {
        spec_u16_le_bytes(self.vertex_count)
            + spec_zeros(2)
            + spec_u32_le_bytes(self.index_count)
            + spec_u16_le_bytes(self.material_index)
            + spec_u16_le_bytes(self.submesh_index)
            + spec_u16_le_bytes(self.submesh_count)
            + spec_u16_le_bytes(self.bone_table_index)
            + spec_u32_le_bytes(self.start_index)
            + spec_u32_le_bytes(self.vertex_buffer_offsets[0])
            + spec_u32_le_bytes(self.vertex_buffer_offsets[1])
            + spec_u32_le_bytes(self.vertex_buffer_offsets[2])
            + seq![self.vertex_buffer_strides[0]]
            + seq![self.vertex_buffer_strides[1]]
            + seq![self.vertex_buffer_strides[2]]
            + seq![self.vertex_stream_count]
    }

    fn size() -> (n: usize) {
        36
    }

    fn read(data: &[u8], at: usize) -> (r: Mesh) {
        let len: usize = data.len();
        Mesh {
            vertex_count: read_u16_le(data, at),
            index_count: read_u32_le(data, at + 4),
            material_index: read_u16_le(data, at + 8),
            submesh_index: read_u16_le(data, at + 10),
            submesh_count: read_u16_le(data, at + 12),
            bone_table_index: read_u16_le(data, at + 14),
            start_index: read_u32_le(data, at + 16),
            vertex_buffer_offsets: [
                read_u32_le(data, at + 20),
                read_u32_le(data, at + 24),
                read_u32_le(data, at + 28),
            ],
            vertex_buffer_strides: [
                data[at + 32],
                data[at + 33],
                data[at + 34],
            ],
            vertex_stream_count: data[at + 35],
        }
    }

    fn write(&self, out: &mut Vec<u8>) {
        push_u16_le(out, self.vertex_count);
        push_zeros(out, 2);
        push_u32_le(out, self.index_count);
        push_u16_le(out, self.material_index);
        push_u16_le(out, self.submesh_index);
        push_u16_le(out, self.submesh_count);
        push_u16_le(out, self.bone_table_index);
        push_u32_le(out, self.start_index);
        push_u32_le(out, self.vertex_buffer_offsets[0]);
        push_u32_le(out, self.vertex_buffer_offsets[1]);
        push_u32_le(out, self.vertex_buffer_offsets[2]);
        out.push(self.vertex_buffer_strides[0]);
        out.push(self.vertex_buffer_strides[1]);
        out.push(self.vertex_buffer_strides[2]);
        out.push(self.vertex_stream_count);
        assert(out@ =~= old(out)@ + self.spec_bytes());
    }

    proof fn lemma_roundtrip(self, before: Seq<u8>, after: Seq<u8>) {
        let s = before + self.spec_bytes() + after;
        let at = before.len() as int;
        let body = self.spec_bytes();
        assert(body.len() == 36);
        assert forall|i: int| 0 <= i < 36 implies s[at + i] == body[i] by {}
        assert(spec_u16_le(body, 0) == self.vertex_count) by {
            assert(body.subrange(0, 2) =~= spec_u16_le_bytes(self.vertex_count));
            lemma_u16_le_at(body, 0, self.vertex_count);
        }
        assert(spec_u32_le(body, 4) == self.index_count) by {
            assert(body.subrange(4, 8) =~= spec_u32_le_bytes(self.index_count));
            lemma_u32_le_at(body, 4, self.index_count);
        }
        assert(spec_u16_le(body, 8) == self.material_index) by {
            assert(body.subrange(8, 10) =~= spec_u16_le_bytes(self.material_index));
            lemma_u16_le_at(body, 8, self.material_index);
        }
        assert(spec_u16_le(body, 10) == self.submesh_index) by {
            assert(body.subrange(10, 12) =~= spec_u16_le_bytes(self.submesh_index));
            lemma_u16_le_at(body, 10, self.submesh_index);
        }
        assert(spec_u16_le(body, 12) == self.submesh_count) by {
            assert(body.subrange(12, 14) =~= spec_u16_le_bytes(self.submesh_count));
            lemma_u16_le_at(body, 12, self.submesh_count);
        }
        assert(spec_u16_le(body, 14) == self.bone_table_index) by {
            assert(body.subrange(14, 16) =~= spec_u16_le_bytes(self.bone_table_index));
            lemma_u16_le_at(body, 14, self.bone_table_index);
        }
        assert(spec_u32_le(body, 16) == self.start_index) by {
            assert(body.subrange(16, 20) =~= spec_u32_le_bytes(self.start_index));
            lemma_u32_le_at(body, 16, self.start_index);
        }
        assert(spec_u32_le(body, 20) == self.vertex_buffer_offsets[0]) by {
            assert(body.subrange(20, 24) =~= spec_u32_le_bytes(self.vertex_buffer_offsets[0]));
            lemma_u32_le_at(body, 20, self.vertex_buffer_offsets[0]);
        }
        assert(spec_u32_le(body, 24) == self.vertex_buffer_offsets[1]) by {
            assert(body.subrange(24, 28) =~= spec_u32_le_bytes(self.vertex_buffer_offsets[1]));
            lemma_u32_le_at(body, 24, self.vertex_buffer_offsets[1]);
        }
        assert(spec_u32_le(body, 28) == self.vertex_buffer_offsets[2]) by {
            assert(body.subrange(28, 32) =~= spec_u32_le_bytes(self.vertex_buffer_offsets[2]));
            lemma_u32_le_at(body, 28, self.vertex_buffer_offsets[2]);
        }
        assert(body[32] == self.vertex_buffer_strides[0]);
        assert(body[33] == self.vertex_buffer_strides[1]);
        assert(body[34] == self.vertex_buffer_strides[2]);
        assert(body[35] == self.vertex_stream_count);
        let r = Self::spec_read(s, at);
        assert(r.vertex_buffer_offsets =~= self.vertex_buffer_offsets);
        assert(r.vertex_buffer_strides =~= self.vertex_buffer_strides);
    }
}

/// A run of indices inside a mesh.
#[derive(PartialEq, Eq, Structural, Clone, Copy, Debug)]
pub struct Submesh {
    pub index_offset: u32,
    pub index_count: u32,
    pub attribute_index_mask: u32,
    pub bone_start_index: u16,
    pub bone_count: u16,
}

impl Record for Submesh {
    open spec fn spec_size() -> int {
        16
    }

    open spec fn spec_read(s: Seq<u8>, at: int) -> Submesh {
        Submesh {
            index_offset: spec_u32_le(s, at) as u32,
            index_count: spec_u32_le(s, at + 4) as u32,
            attribute_index_mask: spec_u32_le(s, at + 8) as u32,
            bone_start_index: spec_u16_le(s, at + 12) as u16,
            bone_count: spec_u16_le(s, at + 14) as u16,
        }
    }

    open spec fn spec_bytes(self) -> Seq<u8> {
        spec_u32_le_bytes(self.index_offset)
            + spec_u32_le_bytes(self.index_count)
            + spec_u32_le_bytes(self.attribute_index_mask)
            + spec_u16_le_bytes(self.bone_start_index)
            + spec_u16_le_bytes(self.bone_count)
    }

    fn size() -> (n: usize) {
        16
    }

    fn read(data: &[u8], at: usize) -> (r: Submesh) {
        let len: usize = data.len();
        Submesh {
            index_offset: read_u32_le(data, at),
            index_count: read_u32_le(data, at + 4),
            attribute_index_mask: read_u32_le(data, at + 8),
            bone_start_index: read_u16_le(data, at + 12),
            bone_count: read_u16_le(data, at + 14),
        }
    }

    fn write(&self, out: &mut Vec<u8>) {
        push_u32_le(out, self.index_offset);
        push_u32_le(out, self.index_count);
        push_u32_le(out, self.attribute_index_mask);
        push_u16_le(out, self.bone_start_index);
        push_u16_le(out, self.bone_count);
        assert(out@ =~= old(out)@ + self.spec_bytes());
    }

    proof fn lemma_roundtrip(self, before: Seq<u8>, after: Seq<u8>) {
        let s = before + self.spec_bytes() + after;
        let at = before.len() as int;
        let body = self.spec_bytes();
        assert(body.len() == 16);
        assert forall|i: int| 0 <= i < 16 implies s[at + i] == body[i] by {}
        assert(spec_u32_le(body, 0) == self.index_offset) by {
            assert(body.subrange(0, 4) =~= spec_u32_le_bytes(self.index_offset));
            lemma_u32_le_at(body, 0, self.index_offset);
        }
        assert(spec_u32_le(body, 4) == self.index_count) by {
            assert(body.subrange(4, 8) =~= spec_u32_le_bytes(self.index_count));
            lemma_u32_le_at(body, 4, self.index_count);
        }
        assert(spec_u32_le(body, 8) == self.attribute_index_mask) by {
            assert(body.subrange(8, 12) =~= spec_u32_le_bytes(self.attribute_index_mask));
            lemma_u32_le_at(body, 8, self.attribute_index_mask);
        }
        assert(spec_u16_le(body, 12) == self.bone_start_index) by {
            assert(body.subrange(12, 14) =~= spec_u16_le_bytes(self.bone_start_index));
            lemma_u16_le_at(body, 12, self.bone_start_index);
        }
        assert(spec_u16_le(body, 14) == self.bone_count) by {
            assert(body.subrange(14, 16) =~= spec_u16_le_bytes(self.bone_count));
            lemma_u16_le_at(body, 14, self.bone_count);
        }
        let r = Self::spec_read(s, at);
    }
}

/// An axis-aligned box. The coordinates are single-precision numbers, kept as
/// their bits.
#[derive(PartialEq, Eq, Clone, Copy, Debug)]
pub struct BoundingBox {
    pub min: [u32; 4],
    pub max: [u32; 4],
}

impl Record for BoundingBox {
    open spec fn spec_size() -> int {
        32
    }

    open spec fn spec_read(s: Seq<u8>, at: int) -> BoundingBox {
        BoundingBox {
            min: [
                spec_u32_le(s, at) as u32,
                spec_u32_le(s, at + 4) as u32,
                spec_u32_le(s, at + 8) as u32,
                spec_u32_le(s, at + 12) as u32,
            ],
            max: [
                spec_u32_le(s, at + 16) as u32,
                spec_u32_le(s, at + 20) as u32,
                spec_u32_le(s, at + 24) as u32,
                spec_u32_le(s, at + 28) as u32,
            ],
        }
    }

    open spec fn spec_bytes(self) -> Seq<u8> {
        spec_u32_le_bytes(self.min[0])
            + spec_u32_le_bytes(self.min[1])
            + spec_u32_le_bytes(self.min[2])
            + spec_u32_le_bytes(self.min[3])
            + spec_u32_le_bytes(self.max[0])
            + spec_u32_le_bytes(self.max[1])
            + spec_u32_le_bytes(self.max[2])
            + spec_u32_le_bytes(self.max[3])
    }

    fn size() -> (n: usize) {
        32
    }

    fn read(data: &[u8], at: usize) -> (r: BoundingBox) {
        let len: usize = data.len();
        BoundingBox {
            min: [
                read_u32_le(data, at),
                read_u32_le(data, at + 4),
                read_u32_le(data, at + 8),
                read_u32_le(data, at + 12),
            ],
            max: [
                read_u32_le(data, at + 16),
                read_u32_le(data, at + 20),
                read_u32_le(data, at + 24),
                read_u32_le(data, at + 28),
            ],
        }
    }

    fn write(&self, out: &mut Vec<u8>) {
        push_u32_le(out, self.min[0]);
        push_u32_le(out, self.min[1]);
        push_u32_le(out, self.min[2]);
        push_u32_le(out, self.min[3]);
        push_u32_le(out, self.max[0]);
        push_u32_le(out, self.max[1]);
        push_u32_le(out, self.max[2]);
        push_u32_le(out, self.max[3]);
        assert(out@ =~= old(out)@ + self.spec_bytes());
    }

    proof fn lemma_roundtrip(self, before: Seq<u8>, after: Seq<u8>) {
        let s = before + self.spec_bytes() + after;
        let at = before.len() as int;
        let body = self.spec_bytes();
        assert(body.len() == 32);
        assert forall|i: int| 0 <= i < 32 implies s[at + i] == body[i] by {}
        assert(spec_u32_le(body, 0) == self.min[0]) by {
            assert(body.subrange(0, 4) =~= spec_u32_le_bytes(self.min[0]));
            lemma_u32_le_at(body, 0, self.min[0]);
        }
        assert(spec_u32_le(body, 4) == self.min[1]) by {
            assert(body.subrange(4, 8) =~= spec_u32_le_bytes(self.min[1]));
            lemma_u32_le_at(body, 4, self.min[1]);
        }
        assert(spec_u32_le(body, 8) == self.min[2]) by {
            assert(body.subrange(8, 12) =~= spec_u32_le_bytes(self.min[2]));
            lemma_u32_le_at(body, 8, self.min[2]);
        }
        assert(spec_u32_le(body, 12) == self.min[3]) by {
            assert(body.subrange(12, 16) =~= spec_u32_le_bytes(self.min[3]));
            lemma_u32_le_at(body, 12, self.min[3]);
        }
        assert(spec_u32_le(body, 16) == self.max[0]) by {
            assert(body.subrange(16, 20) =~= spec_u32_le_bytes(self.max[0]));
            lemma_u32_le_at(body, 16, self.max[0]);
        }
        assert(spec_u32_le(body, 20) == self.max[1]) by {
            assert(body.subrange(20, 24) =~= spec_u32_le_bytes(self.max[1]));
            lemma_u32_le_at(body, 20, self.max[1]);
        }
        assert(spec_u32_le(body, 24) == self.max[2]) by {
            assert(body.subrange(24, 28) =~= spec_u32_le_bytes(self.max[2]));
            lemma_u32_le_at(body, 24, self.max[2]);
        }
        assert(spec_u32_le(body, 28) == self.max[3]) by {
            assert(body.subrange(28, 32) =~= spec_u32_le_bytes(self.max[3]));
            lemma_u32_le_at(body, 28, self.max[3]);
        }
        let r = Self::spec_read(s, at);
        assert(r.min =~= self.min);
        assert(r.max =~= self.max);
    }
}

} // verus!
