//! The model format: a file header with the vertex declarations, a data block
//! with the meshes and their tables, and the vertex and index data of up to
//! three levels of detail.
//!
//! Numbers that the format stores in floating point are kept as their bits.

use vstd::prelude::*;
use crate::binary::{
    push_bytes, push_u16_le, push_u32_le, push_zeros, read_u16_le, read_u32_le, spec_u16_le,
    spec_u16_le_bytes, spec_u32_le, spec_u32_le_bytes, spec_zeros, copy_range, lemma_append_twice,
    read_c_string, spec_c_string,
};
use crate::records::{
    read_records, spec_records, spec_records_bytes, write_records, Record,
};
use crate::model_records::{BoundingBox, ElementId, Mesh, MeshLod, ModelInfo, Submesh};
use crate::model_vertex::{
    decode_element, element_supported, element_width, spec_decode_element, spec_default_vertex,
    spec_element_supported, spec_element_width, Vertex,
};
use crate::model_vertex_declarations::{
    read_declarations, spec_declaration_views, spec_declarations, spec_declarations_bytes,
    write_declarations, VertexDeclaration, VertexElement,
};

verus! {

/// The number of bytes of the file header without its vertex declarations.
pub const FILE_HEADER_SIZE: usize = 68;

/// The number of bytes that each vertex declaration adds to the stack size.
pub const STACK_SIZE_PER_DECLARATION: u32 = 136;

/// The number of levels of detail that a model has room for.
pub const LOD_SLOTS: usize = 3;

/// The number of sixteen-bit words of one bone table: 64 bone indices, then
/// the number of bones in the low byte of the next word, then padding.
pub const BONE_TABLE_WORDS: usize = 66;

/// The header of a model file.
#[derive(Debug)]
pub struct ModelFileHeader {
    pub version: u32,
    pub stack_size: u32,
    pub runtime_size: u32,
    pub vertex_declaration_count: u16,
    pub material_count: u16,
    pub vertex_offsets: [u32; 3],
    pub index_offsets: [u32; 3],
    pub vertex_buffer_size: [u32; 3],
    pub index_buffer_size: [u32; 3],
    pub lod_count: u8,
    pub index_buffer_streaming_enabled: bool,
    pub has_edge_geometry: bool,
    pub vertex_declarations: Vec<VertexDeclaration>,
}

/// What a file header holds.
pub struct ModelFileHeaderView {
    pub version: u32,
    pub stack_size: u32,
    pub runtime_size: u32,
    pub vertex_declaration_count: u16,
    pub material_count: u16,
    pub vertex_offsets: [u32; 3],
    pub index_offsets: [u32; 3],
    pub vertex_buffer_size: [u32; 3],
    pub index_buffer_size: [u32; 3],
    pub lod_count: u8,
    pub index_buffer_streaming_enabled: bool,
    pub has_edge_geometry: bool,
    pub vertex_declarations: Seq<Seq<VertexElement>>,
}

impl View for ModelFileHeader {
    type V = ModelFileHeaderView;

    open spec fn view(&self) -> ModelFileHeaderView {
        ModelFileHeaderView {
            version: self.version,
            stack_size: self.stack_size,
            runtime_size: self.runtime_size,
            vertex_declaration_count: self.vertex_declaration_count,
            material_count: self.material_count,
            vertex_offsets: self.vertex_offsets,
            index_offsets: self.index_offsets,
            vertex_buffer_size: self.vertex_buffer_size,
            index_buffer_size: self.index_buffer_size,
            lod_count: self.lod_count,
            index_buffer_streaming_enabled: self.index_buffer_streaming_enabled,
            has_edge_geometry: self.has_edge_geometry,
            vertex_declarations: spec_declaration_views(self.vertex_declarations@),
        }
    }
}

/// The first byte of flags of a model. The format stores exactly one of them.
#[derive(PartialEq, Eq, Structural, Clone, Copy, Debug)]
pub enum ModelFlags1 {
    DustOcclusionEnabled,
    SnowOcclusionEnabled,
    RainOcclusionEnabled,
    Unknown1,
    LightingReflectionEnabled,
    WavingAnimationDisabled,
    LightShadowDisabled,
    ShadowDisabled,
}

/// The second byte of flags of a model. The format stores at most one of them.
#[derive(PartialEq, Eq, Structural, Clone, Copy, Debug)]
pub enum ModelFlags2 {
    NoFlag,
    Unknown2,
    BgUvScrollEnabled,
    EnableForceNonResident,
    ExtraLodEnabled,
    ShadowMaskEnabled,
    ForceLodRangeEnabled,
    EdgeGeometryEnabled,
    Unknown3,
}

/// The flag that a first flags byte stands for.
pub open spec fn spec_model_flags1(code: u8) -> Option<ModelFlags1> {
    if code == 0x80 {
        Some(ModelFlags1::DustOcclusionEnabled)
    } else if code == 0x40 {
        Some(ModelFlags1::SnowOcclusionEnabled)
    } else if code == 0x20 {
        Some(ModelFlags1::RainOcclusionEnabled)
    } else if code == 0x10 {
        Some(ModelFlags1::Unknown1)
    } else if code == 0x08 {
        Some(ModelFlags1::LightingReflectionEnabled)
    } else if code == 0x04 {
        Some(ModelFlags1::WavingAnimationDisabled)
    } else if code == 0x02 {
        Some(ModelFlags1::LightShadowDisabled)
    } else if code == 0x01 {
        Some(ModelFlags1::ShadowDisabled)
    } else {
        None
    }
}

/// The flag that a second flags byte stands for.
pub open spec fn spec_model_flags2(code: u8) -> Option<ModelFlags2> {
    if code == 0x00 {
        Some(ModelFlags2::NoFlag)
    } else if code == 0x80 {
        Some(ModelFlags2::Unknown2)
    } else if code == 0x40 {
        Some(ModelFlags2::BgUvScrollEnabled)
    } else if code == 0x20 {
        Some(ModelFlags2::EnableForceNonResident)
    } else if code == 0x10 {
        Some(ModelFlags2::ExtraLodEnabled)
    } else if code == 0x08 {
        Some(ModelFlags2::ShadowMaskEnabled)
    } else if code == 0x04 {
        Some(ModelFlags2::ForceLodRangeEnabled)
    } else if code == 0x02 {
        Some(ModelFlags2::EdgeGeometryEnabled)
    } else if code == 0x01 {
        Some(ModelFlags2::Unknown3)
    } else {
        None
    }
}

impl ModelFlags1 {
    /// The flag that a first flags byte stands for, if it stands for one.
    pub fn from_code(code: u8) -> (r: Option<ModelFlags1>)
        ensures
            r == spec_model_flags1(code),
    {
        match code {
            0x80 => Some(ModelFlags1::DustOcclusionEnabled),
            0x40 => Some(ModelFlags1::SnowOcclusionEnabled),
            0x20 => Some(ModelFlags1::RainOcclusionEnabled),
            0x10 => Some(ModelFlags1::Unknown1),
            0x08 => Some(ModelFlags1::LightingReflectionEnabled),
            0x04 => Some(ModelFlags1::WavingAnimationDisabled),
            0x02 => Some(ModelFlags1::LightShadowDisabled),
            0x01 => Some(ModelFlags1::ShadowDisabled),
            _ => None,
        }
    }
}

impl ModelFlags2 {
    /// The flag that a second flags byte stands for, if it stands for one.
    pub fn from_code(code: u8) -> (r: Option<ModelFlags2>)
        ensures
            r == spec_model_flags2(code),
    {
        match code {
            0x00 => Some(ModelFlags2::NoFlag),
            0x80 => Some(ModelFlags2::Unknown2),
            0x40 => Some(ModelFlags2::BgUvScrollEnabled),
            0x20 => Some(ModelFlags2::EnableForceNonResident),
            0x10 => Some(ModelFlags2::ExtraLodEnabled),
            0x08 => Some(ModelFlags2::ShadowMaskEnabled),
            0x04 => Some(ModelFlags2::ForceLodRangeEnabled),
            0x02 => Some(ModelFlags2::EdgeGeometryEnabled),
            0x01 => Some(ModelFlags2::Unknown3),
            _ => None,
        }
    }
}

/// The header of a model's data block: the string pool, then the fixed part.
#[derive(Debug)]
pub struct ModelHeader {
    pub string_count: u16,
    pub string_size: u32,
    pub strings: Vec<u8>,
    pub info: ModelInfo,
}

/// What the header of a data block holds.
pub struct ModelHeaderView {
    pub string_count: u16,
    pub string_size: u32,
    pub strings: Seq<u8>,
    pub info: ModelInfo,
}

impl View for ModelHeader {
    type V = ModelHeaderView;

    open spec fn view(&self) -> ModelHeaderView {
        ModelHeaderView {
            string_count: self.string_count,
            string_size: self.string_size,
            strings: self.strings@,
            info: self.info,
        }
    }
}

/// The data block of a model.
#[derive(Debug)]
pub struct ModelData {
    pub header: ModelHeader,
    pub element_ids: Vec<ElementId>,
    pub lods: Vec<MeshLod>,
    pub meshes: Vec<Mesh>,
    pub attribute_name_offsets: Vec<u32>,
    pub submeshes: Vec<Submesh>,
    pub material_name_offsets: Vec<u32>,
    pub bone_name_offsets: Vec<u32>,
    /// The bone tables, as their sixteen-bit words, `BONE_TABLE_WORDS` each.
    pub bone_tables: Vec<u16>,
    pub submesh_bone_map_size: u32,
    pub submesh_bone_map: Vec<u16>,
    pub padding_amount: u8,
    pub bounding_box: BoundingBox,
    pub model_bounding_box: BoundingBox,
    pub water_bounding_box: BoundingBox,
    pub vertical_fog_bounding_box: BoundingBox,
    pub bone_bounding_boxes: Vec<BoundingBox>,
}

/// What the data block of a model holds.
pub struct ModelDataView {
    pub header: ModelHeaderView,
    pub element_ids: Seq<ElementId>,
    pub lods: Seq<MeshLod>,
    pub meshes: Seq<Mesh>,
    pub attribute_name_offsets: Seq<u32>,
    pub submeshes: Seq<Submesh>,
    pub material_name_offsets: Seq<u32>,
    pub bone_name_offsets: Seq<u32>,
    pub bone_tables: Seq<u16>,
    pub submesh_bone_map_size: u32,
    pub submesh_bone_map: Seq<u16>,
    pub padding_amount: u8,
    pub bounding_box: BoundingBox,
    pub model_bounding_box: BoundingBox,
    pub water_bounding_box: BoundingBox,
    pub vertical_fog_bounding_box: BoundingBox,
    pub bone_bounding_boxes: Seq<BoundingBox>,
}

impl View for ModelData {
    type V = ModelDataView;

    open spec fn view(&self) -> ModelDataView {
        ModelDataView {
            header: self.header@,
            element_ids: self.element_ids@,
            lods: self.lods@,
            meshes: self.meshes@,
            attribute_name_offsets: self.attribute_name_offsets@,
            submeshes: self.submeshes@,
            material_name_offsets: self.material_name_offsets@,
            bone_name_offsets: self.bone_name_offsets@,
            bone_tables: self.bone_tables@,
            submesh_bone_map_size: self.submesh_bone_map_size,
            submesh_bone_map: self.submesh_bone_map@,
            padding_amount: self.padding_amount,
            bounding_box: self.bounding_box,
            model_bounding_box: self.model_bounding_box,
            water_bounding_box: self.water_bounding_box,
            vertical_fog_bounding_box: self.vertical_fog_bounding_box,
            bone_bounding_boxes: self.bone_bounding_boxes@,
        }
    }
}

/// The file header stored at the start of `s`: 68 bytes of fixed fields, then
/// as many vertex declarations as the fixed fields count. There is none where
/// the buffer ends early or a declaration is malformed.
pub open spec fn spec_file_header(s: Seq<u8>) -> Option<ModelFileHeaderView> {
    if s.len() < 68 {
        None
    } else {
        let count = spec_u16_le(s, 12) as u16;
        match spec_declarations(s, 68, count as int) {
            None => None,
            Some(vertex_declarations) => Some(
                ModelFileHeaderView {
                    version: spec_u32_le(s, 0) as u32,
                    stack_size: spec_u32_le(s, 4) as u32,
                    runtime_size: spec_u32_le(s, 8) as u32,
                    vertex_declaration_count: count,
                    material_count: spec_u16_le(s, 14) as u16,
                    vertex_offsets: [
                        spec_u32_le(s, 16) as u32,
                        spec_u32_le(s, 20) as u32,
                        spec_u32_le(s, 24) as u32,
                    ],
                    index_offsets: [
                        spec_u32_le(s, 28) as u32,
                        spec_u32_le(s, 32) as u32,
                        spec_u32_le(s, 36) as u32,
                    ],
                    vertex_buffer_size: [
                        spec_u32_le(s, 40) as u32,
                        spec_u32_le(s, 44) as u32,
                        spec_u32_le(s, 48) as u32,
                    ],
                    index_buffer_size: [
                        spec_u32_le(s, 52) as u32,
                        spec_u32_le(s, 56) as u32,
                        spec_u32_le(s, 60) as u32,
                    ],
                    lod_count: s[64],
                    index_buffer_streaming_enabled: s[65] != 0,
                    has_edge_geometry: s[66] != 0,
                    vertex_declarations,
                },
            ),
        }
    }
}

/// The number of bytes that a file header with `count` declarations occupies.
pub open spec fn spec_file_header_size(count: int) -> int {
    68 + 136 * count
}

/// The byte that stores a flag.
pub open spec fn spec_bool_byte(flag: bool) -> u8 {
    if flag {
        1
    } else {
        0
    }
}

/// The 68 bytes that store the fixed fields of a file header.
pub open spec fn spec_file_header_fixed_bytes(header: ModelFileHeaderView) -> Seq<u8> {
    spec_u32_le_bytes(header.version) + spec_u32_le_bytes(header.stack_size) + spec_u32_le_bytes(
        header.runtime_size,
    ) + spec_u16_le_bytes(header.vertex_declaration_count) + spec_u16_le_bytes(
        header.material_count,
    ) + spec_records_bytes::<u32>(header.vertex_offsets@) + spec_records_bytes::<u32>(
        header.index_offsets@,
    ) + spec_records_bytes::<u32>(header.vertex_buffer_size@) + spec_records_bytes::<u32>(
        header.index_buffer_size@,
    ) + seq![
        header.lod_count,
        spec_bool_byte(header.index_buffer_streaming_enabled),
        spec_bool_byte(header.has_edge_geometry),
        0u8,
    ]
}

/// The bytes that store a file header.
pub open spec fn spec_file_header_bytes(header: ModelFileHeaderView) -> Seq<u8> {
    spec_file_header_fixed_bytes(header) + spec_declarations_bytes(header.vertex_declarations)
}

/// The data block stored at `at`: the string pool, the fixed part of the
/// header, then the lists in their order, each with the count that the header
/// gives it, the bone map with its own size in front, and the bounding boxes
/// after as many bytes of padding as the byte in front of them says. There is
/// none where the buffer ends early or a flags byte stands for nothing.
pub open spec fn spec_model_data(s: Seq<u8>, at: int) -> Option<ModelDataView> {
    if at < 0 || at + 8 > s.len() {
        None
    } else {
        let string_size = spec_u32_le(s, at + 4);
        let info_at = at + 8 + string_size;
        if info_at + 56 > s.len() {
            None
        } else {
            let info = ModelInfo::spec_read(s, info_at);
            let element_ids_at = info_at + 56;
            let lods_at = element_ids_at + 32 * info.element_id_count;
            let meshes_at = lods_at + 180;
            let attributes_at = meshes_at + 36 * info.mesh_count;
            let submeshes_at = attributes_at + 4 * info.attribute_count;
            let materials_at = submeshes_at + 16 * info.submesh_count;
            let bones_at = materials_at + 4 * info.material_count;
            let bone_tables_at = bones_at + 4 * info.bone_count;
            let map_size_at = bone_tables_at + 132 * info.bone_table_count;
            if map_size_at + 4 > s.len() {
                None
            } else {
                let map_size = spec_u32_le(s, map_size_at);
                let map_at = map_size_at + 4;
                let padding_at = map_at + 2 * (map_size / 2);
                if padding_at + 1 > s.len() {
                    None
                } else {
                    let boxes_at = padding_at + 1 + s[padding_at];
                    if boxes_at + 128 + 32 * info.bone_count > s.len() || spec_model_flags1(
                        info.flags1,
                    ).is_none() || spec_model_flags2(info.flags2).is_none() {
                        None
                    } else {
                        Some(
                            ModelDataView {
                                header: ModelHeaderView {
                                    string_count: spec_u16_le(s, at) as u16,
                                    string_size: string_size as u32,
                                    strings: s.subrange(at + 8, info_at),
                                    info,
                                },
                                element_ids: spec_records(
                                    s,
                                    element_ids_at,
                                    info.element_id_count as int,
                                ),
                                lods: spec_records(s, lods_at, 3),
                                meshes: spec_records(s, meshes_at, info.mesh_count as int),
                                attribute_name_offsets: spec_records(
                                    s,
                                    attributes_at,
                                    info.attribute_count as int,
                                ),
                                submeshes: spec_records(
                                    s,
                                    submeshes_at,
                                    info.submesh_count as int,
                                ),
                                material_name_offsets: spec_records(
                                    s,
                                    materials_at,
                                    info.material_count as int,
                                ),
                                bone_name_offsets: spec_records(
                                    s,
                                    bones_at,
                                    info.bone_count as int,
                                ),
                                bone_tables: spec_records(
                                    s,
                                    bone_tables_at,
                                    66 * info.bone_table_count,
                                ),
                                submesh_bone_map_size: map_size as u32,
                                submesh_bone_map: spec_records(s, map_at, map_size / 2),
                                padding_amount: s[padding_at],
                                bounding_box: BoundingBox::spec_read(s, boxes_at),
                                model_bounding_box: BoundingBox::spec_read(s, boxes_at + 32),
                                water_bounding_box: BoundingBox::spec_read(s, boxes_at + 64),
                                vertical_fog_bounding_box: BoundingBox::spec_read(
                                    s,
                                    boxes_at + 96,
                                ),
                                bone_bounding_boxes: spec_records(
                                    s,
                                    boxes_at + 128,
                                    info.bone_count as int,
                                ),
                            },
                        )
                    }
                }
            }
        }
    }
}

/// The bytes that store the header of a data block.
#[verifier::opaque]
pub open spec fn spec_model_header_bytes(header: ModelHeaderView) -> Seq<u8> {
    spec_u16_le_bytes(header.string_count) + spec_zeros(2) + spec_u32_le_bytes(header.string_size)
        + header.strings + header.info.spec_bytes()
}

/// The bytes that store the lists of a data block, up to the bone tables.
#[verifier::opaque]
pub open spec fn spec_model_lists_bytes(data: ModelDataView) -> Seq<u8> {
    spec_records_bytes(data.element_ids) + spec_records_bytes(data.lods) + spec_records_bytes(
        data.meshes,
    ) + spec_records_bytes(data.attribute_name_offsets) + spec_records_bytes(data.submeshes)
        + spec_records_bytes(data.material_name_offsets) + spec_records_bytes(
        data.bone_name_offsets,
    ) + spec_records_bytes(data.bone_tables)
}

/// The bytes that store the end of a data block: the bone map, the padding
/// and the bounding boxes.
#[verifier::opaque]
pub open spec fn spec_model_tail_bytes(data: ModelDataView) -> Seq<u8> {
    spec_u32_le_bytes(data.submesh_bone_map_size) + spec_records_bytes(data.submesh_bone_map)
        + seq![data.padding_amount] + spec_zeros(data.padding_amount as int)
        + data.bounding_box.spec_bytes() + data.model_bounding_box.spec_bytes()
        + data.water_bounding_box.spec_bytes() + data.vertical_fog_bounding_box.spec_bytes()
        + spec_records_bytes(data.bone_bounding_boxes)
}

/// The bytes that store a data block. Padding is zero.
pub open spec fn spec_model_data_bytes(data: ModelDataView) -> Seq<u8> {
    spec_model_header_bytes(data.header) + spec_model_lists_bytes(data) + spec_model_tail_bytes(
        data,
    )
}

/// The stack size that belongs to a number of vertex declarations.
pub open spec fn spec_stack_size(vertex_declaration_count: u16) -> int {
    vertex_declaration_count * 136
}

/// The runtime size of a data block: the sum of the sizes of its parts, those
/// that are only counted in the header included.
pub open spec fn spec_runtime_size(data: ModelDataView) -> int {
    2 + 2 + 4 + data.header.string_size + 56 + data.element_ids.len() * 32 + 3 * 60
        + data.meshes.len() * 36 + data.attribute_name_offsets.len() * 4
        + data.header.info.terrain_shadow_mesh_count * 20 + data.header.info.submesh_count * 16
        + data.header.info.terrain_shadow_submesh_count * 10 + data.material_name_offsets.len() * 4
        + data.bone_name_offsets.len() * 4 + data.bone_tables.len() * 2
        + data.header.info.shape_count * 16 + data.header.info.shape_mesh_count * 12
        + data.header.info.shape_value_count * 4 + 4 + data.submesh_bone_map.len() * 2 + 8 + 4
        * 32 + data.header.info.bone_count * 32
}

fn fits(len: usize, position: usize, need: u64) -> (ok: bool)
    requires
        position <= len,
    ensures
        ok == (position + need <= len),
{
    need <= (len - position) as u64
}

impl ModelFileHeader {
    /// The stack size that belongs to the header's number of vertex declarations.
    pub fn calculate_stack_size(&self) -> (size: u32)
        ensures
            size == spec_stack_size(self.vertex_declaration_count),
    {
        self.vertex_declaration_count as u32 * STACK_SIZE_PER_DECLARATION
    }

    /// Reads the file header at the start of `data`.
    pub fn read(data: &[u8]) -> (r: Option<ModelFileHeader>)
        ensures
            match r {
                Some(header) => spec_file_header(data@) == Some(header@),
                None => spec_file_header(data@).is_none(),
            },
    {
        if data.len() < 68 {
            return None;
        }
        let count: u16 = read_u16_le(data, 12);
        let vertex_declarations = match read_declarations(data, 68, count) {
            Some(declarations) => declarations,
            None => { return None; },
        };
        Some(
            ModelFileHeader {
                version: read_u32_le(data, 0),
                stack_size: read_u32_le(data, 4),
                runtime_size: read_u32_le(data, 8),
                vertex_declaration_count: count,
                material_count: read_u16_le(data, 14),
                vertex_offsets: [
                    read_u32_le(data, 16),
                    read_u32_le(data, 20),
                    read_u32_le(data, 24),
                ],
                index_offsets: [
                    read_u32_le(data, 28),
                    read_u32_le(data, 32),
                    read_u32_le(data, 36),
                ],
                vertex_buffer_size: [
                    read_u32_le(data, 40),
                    read_u32_le(data, 44),
                    read_u32_le(data, 48),
                ],
                index_buffer_size: [
                    read_u32_le(data, 52),
                    read_u32_le(data, 56),
                    read_u32_le(data, 60),
                ],
                lod_count: data[64],
                index_buffer_streaming_enabled: data[65] != 0,
                has_edge_geometry: data[66] != 0,
                vertex_declarations,
            },
        )
    }

    fn write_fixed(&self, out: &mut Vec<u8>)
        ensures
            final(out)@ == old(out)@ + spec_file_header_fixed_bytes(self@),
    {
        let ghost start = out@;
        let ghost header = self@;
        push_u32_le(out, self.version);
        let ghost mut done = spec_u32_le_bytes(header.version);
        push_u32_le(out, self.stack_size);
        proof {
            lemma_append_twice(start, done, spec_u32_le_bytes(header.stack_size));
            done = done + spec_u32_le_bytes(header.stack_size);
        }
        push_u32_le(out, self.runtime_size);
        proof {
            lemma_append_twice(start, done, spec_u32_le_bytes(header.runtime_size));
            done = done + spec_u32_le_bytes(header.runtime_size);
        }
        push_u16_le(out, self.vertex_declaration_count);
        proof {
            lemma_append_twice(start, done, spec_u16_le_bytes(header.vertex_declaration_count));
            done = done + spec_u16_le_bytes(header.vertex_declaration_count);
        }
        push_u16_le(out, self.material_count);
        proof {
            lemma_append_twice(start, done, spec_u16_le_bytes(header.material_count));
            done = done + spec_u16_le_bytes(header.material_count);
        }
        write_records(out, self.vertex_offsets.as_slice());
        proof {
            lemma_append_twice(start, done, spec_records_bytes::<u32>(header.vertex_offsets@));
            done = done + spec_records_bytes::<u32>(header.vertex_offsets@);
        }
        write_records(out, self.index_offsets.as_slice());
        proof {
            lemma_append_twice(start, done, spec_records_bytes::<u32>(header.index_offsets@));
            done = done + spec_records_bytes::<u32>(header.index_offsets@);
        }
        write_records(out, self.vertex_buffer_size.as_slice());
        proof {
            lemma_append_twice(start, done, spec_records_bytes::<u32>(header.vertex_buffer_size@));
            done = done + spec_records_bytes::<u32>(header.vertex_buffer_size@);
        }
        write_records(out, self.index_buffer_size.as_slice());
        proof {
            lemma_append_twice(start, done, spec_records_bytes::<u32>(header.index_buffer_size@));
            done = done + spec_records_bytes::<u32>(header.index_buffer_size@);
        }
        let ghost before_flags = out@;
        out.push(self.lod_count);
        out.push(
            if self.index_buffer_streaming_enabled {
                1u8
            } else {
                0u8
            },
        );
        out.push(
            if self.has_edge_geometry {
                1u8
            } else {
                0u8
            },
        );
        out.push(0u8);
        proof {
            let flags = seq![
                header.lod_count,
                spec_bool_byte(header.index_buffer_streaming_enabled),
                spec_bool_byte(header.has_edge_geometry),
                0u8,
            ];
            assert(out@ =~= before_flags + flags);
            lemma_append_twice(start, done, flags);
        }
    }

    /// Appends the bytes of the header.
    pub fn write(&self, out: &mut Vec<u8>)
        requires
            forall|i: int|
                0 <= i < self.vertex_declarations@.len() ==> (
                #[trigger] self.vertex_declarations@[i])@.len() <= 16,
        ensures
            final(out)@ == old(out)@ + spec_file_header_bytes(self@),
    {
        let ghost start = out@;
        self.write_fixed(out);
        write_declarations(out, &self.vertex_declarations);
        proof {
            lemma_append_twice(
                start,
                spec_file_header_fixed_bytes(self@),
                spec_declarations_bytes(self@.vertex_declarations),
            );
        }
    }
}

impl ModelData {
    /// The runtime size of the data block, if it fits in 32 bits.
    pub fn checked_runtime_size(&self) -> (size: Option<u32>)
        ensures
            size == if spec_runtime_size(self@) <= u32::MAX {
                Some(spec_runtime_size(self@) as u32)
            } else {
                None::<u32>
            },
    {
        let limit: usize = 0x4000_0000;
        if self.element_ids.len() > limit || self.meshes.len() > limit
            || self.attribute_name_offsets.len() > limit || self.material_name_offsets.len() > limit
            || self.bone_name_offsets.len() > limit {
            return None;
        }
        if self.bone_tables.len() > 0x8000_0000 || self.submesh_bone_map.len() > 0x8000_0000 {
            return None;
        }
        let info = &self.header.info;
        let total: u64 = 2 + 2 + 4 + self.header.string_size as u64 + 56
            + self.element_ids.len() as u64 * 32 + 3 * 60 + self.meshes.len() as u64 * 36
            + self.attribute_name_offsets.len() as u64 * 4 + info.terrain_shadow_mesh_count as u64
            * 20 + info.submesh_count as u64 * 16 + info.terrain_shadow_submesh_count as u64 * 10
            + self.material_name_offsets.len() as u64 * 4 + self.bone_name_offsets.len() as u64 * 4
            + self.bone_tables.len() as u64 * 2 + info.shape_count as u64 * 16
            + info.shape_mesh_count as u64 * 12 + info.shape_value_count as u64 * 4 + 4
            + self.submesh_bone_map.len() as u64 * 2 + 8 + 4 * 32 + info.bone_count as u64 * 32;
        if total > 0xFFFF_FFFF {
            None
        } else {
            Some(total as u32)
        }
    }

    /// The runtime size of the data block.
    pub fn calculate_runtime_size(&self) -> (size: u32)
        requires
            spec_runtime_size(self@) <= u32::MAX,
        ensures
            size == spec_runtime_size(self@),
    {
        match self.checked_runtime_size() {
            Some(size) => size,
            None => 0,
        }
    }

    /// Reads the data block at `at`.
    #[verifier::rlimit(60)]
    pub fn read(data: &[u8], at: usize) -> (r: Option<ModelData>)
        ensures
            match r {
                Some(block) => spec_model_data(data@, at as int) == Some(block@),
                None => spec_model_data(data@, at as int).is_none(),
            },
    {
        let len: usize = data.len();
        if at > len || !fits(len, at, 8) {
            return None;
        }
        let string_count: u16 = read_u16_le(data, at);
        let string_size: u32 = read_u32_le(data, at + 4);
        if !fits(len, at + 8, string_size as u64 + 56) {
            return None;
        }
        let info_at: usize = at + 8 + string_size as usize;
        let info = ModelInfo::read(data, info_at);
        let element_ids_at: usize = info_at + 56;
        let lists: u64 = 32 * info.element_id_count as u64 + 180 + 36 * info.mesh_count as u64 + 4
            * info.attribute_count as u64 + 16 * info.submesh_count as u64 + 4
            * info.material_count as u64 + 4 * info.bone_count as u64 + 132
            * info.bone_table_count as u64;
        if !fits(len, element_ids_at, lists + 4) {
            return None;
        }
        let lods_at: usize = element_ids_at + 32 * info.element_id_count as usize;
        let meshes_at: usize = lods_at + 180;
        let attributes_at: usize = meshes_at + 36 * info.mesh_count as usize;
        let submeshes_at: usize = attributes_at + 4 * info.attribute_count as usize;
        let materials_at: usize = submeshes_at + 16 * info.submesh_count as usize;
        let bones_at: usize = materials_at + 4 * info.material_count as usize;
        let bone_tables_at: usize = bones_at + 4 * info.bone_count as usize;
        let map_size_at: usize = bone_tables_at + 132 * info.bone_table_count as usize;
        let map_size: u32 = read_u32_le(data, map_size_at);
        let map_at: usize = map_size_at + 4;
        let map_count: u32 = map_size / 2;
        if !fits(len, map_at, 2 * map_count as u64 + 1) {
            return None;
        }
        let padding_at: usize = map_at + 2 * map_count as usize;
        let padding_amount: u8 = data[padding_at];
        if !fits(len, padding_at, 1 + padding_amount as u64 + 128 + 32 * info.bone_count as u64) {
            return None;
        }
        let boxes_at: usize = padding_at + 1 + padding_amount as usize;
        if ModelFlags1::from_code(info.flags1).is_none() || ModelFlags2::from_code(
            info.flags2,
        ).is_none() {
            return None;
        }
        let strings = copy_range(data, at + 8, info_at);
        let block = ModelData {
            header: ModelHeader { string_count, string_size, strings, info },
            element_ids: read_records(data, element_ids_at, info.element_id_count as usize),
            lods: read_records(data, lods_at, 3),
            meshes: read_records(data, meshes_at, info.mesh_count as usize),
            attribute_name_offsets: read_records(
                data,
                attributes_at,
                info.attribute_count as usize,
            ),
            submeshes: read_records(data, submeshes_at, info.submesh_count as usize),
            material_name_offsets: read_records(data, materials_at, info.material_count as usize),
            bone_name_offsets: read_records(data, bones_at, info.bone_count as usize),
            bone_tables: read_records(data, bone_tables_at, 66 * info.bone_table_count as usize),
            submesh_bone_map_size: map_size,
            submesh_bone_map: read_records(data, map_at, map_count as usize),
            padding_amount,
            bounding_box: BoundingBox::read(data, boxes_at),
            model_bounding_box: BoundingBox::read(data, boxes_at + 32),
            water_bounding_box: BoundingBox::read(data, boxes_at + 64),
            vertical_fog_bounding_box: BoundingBox::read(data, boxes_at + 96),
            bone_bounding_boxes: read_records(data, boxes_at + 128, info.bone_count as usize),
        };
        Some(block)
    }

    fn write_header(&self, out: &mut Vec<u8>)
        ensures
            final(out)@ == old(out)@ + spec_model_header_bytes(self@.header),
    {
        proof {
            reveal(spec_model_header_bytes);
        }
        let ghost start = out@;
        let ghost header = self@.header;
        push_u16_le(out, self.header.string_count);
        let ghost mut done = spec_u16_le_bytes(header.string_count);
        push_zeros(out, 2);
        proof {
            lemma_append_twice(start, done, spec_zeros(2));
            done = done + spec_zeros(2);
        }
        push_u32_le(out, self.header.string_size);
        proof {
            lemma_append_twice(start, done, spec_u32_le_bytes(header.string_size));
            done = done + spec_u32_le_bytes(header.string_size);
        }
        push_bytes(out, self.header.strings.as_slice());
        proof {
            lemma_append_twice(start, done, header.strings);
            done = done + header.strings;
        }
        self.header.info.write(out);
        proof {
            lemma_append_twice(start, done, header.info.spec_bytes());
        }
    }

    fn write_lists(&self, out: &mut Vec<u8>)
        ensures
            final(out)@ == old(out)@ + spec_model_lists_bytes(self@),
    {
        proof {
            reveal(spec_model_lists_bytes);
        }
        let ghost start = out@;
        let ghost data = self@;
        write_records(out, self.element_ids.as_slice());
        let ghost mut done = spec_records_bytes(data.element_ids);
        write_records(out, self.lods.as_slice());
        proof {
            lemma_append_twice(start, done, spec_records_bytes(data.lods));
            done = done + spec_records_bytes(data.lods);
        }
        write_records(out, self.meshes.as_slice());
        proof {
            lemma_append_twice(start, done, spec_records_bytes(data.meshes));
            done = done + spec_records_bytes(data.meshes);
        }
        write_records(out, self.attribute_name_offsets.as_slice());
        proof {
            lemma_append_twice(start, done, spec_records_bytes(data.attribute_name_offsets));
            done = done + spec_records_bytes(data.attribute_name_offsets);
        }
        write_records(out, self.submeshes.as_slice());
        proof {
            lemma_append_twice(start, done, spec_records_bytes(data.submeshes));
            done = done + spec_records_bytes(data.submeshes);
        }
        write_records(out, self.material_name_offsets.as_slice());
        proof {
            lemma_append_twice(start, done, spec_records_bytes(data.material_name_offsets));
            done = done + spec_records_bytes(data.material_name_offsets);
        }
        write_records(out, self.bone_name_offsets.as_slice());
        proof {
            lemma_append_twice(start, done, spec_records_bytes(data.bone_name_offsets));
            done = done + spec_records_bytes(data.bone_name_offsets);
        }
        write_records(out, self.bone_tables.as_slice());
        proof {
            lemma_append_twice(start, done, spec_records_bytes(data.bone_tables));
        }
    }

    fn write_tail(&self, out: &mut Vec<u8>)
        ensures
            final(out)@ == old(out)@ + spec_model_tail_bytes(self@),
    {
        proof {
            reveal(spec_model_tail_bytes);
        }
        let ghost start = out@;
        let ghost data = self@;
        push_u32_le(out, self.submesh_bone_map_size);
        let ghost mut done = spec_u32_le_bytes(data.submesh_bone_map_size);
        write_records(out, self.submesh_bone_map.as_slice());
        proof {
            lemma_append_twice(start, done, spec_records_bytes(data.submesh_bone_map));
            done = done + spec_records_bytes(data.submesh_bone_map);
        }
        out.push(self.padding_amount);
        proof {
            assert(out@ =~= start + done + seq![data.padding_amount]);
            lemma_append_twice(start, done, seq![data.padding_amount]);
            done = done + seq![data.padding_amount];
        }
        push_zeros(out, self.padding_amount as usize);
        proof {
            lemma_append_twice(start, done, spec_zeros(data.padding_amount as int));
            done = done + spec_zeros(data.padding_amount as int);
        }
        self.bounding_box.write(out);
        proof {
            lemma_append_twice(start, done, data.bounding_box.spec_bytes());
            done = done + data.bounding_box.spec_bytes();
        }
        self.model_bounding_box.write(out);
        proof {
            lemma_append_twice(start, done, data.model_bounding_box.spec_bytes());
            done = done + data.model_bounding_box.spec_bytes();
        }
        self.water_bounding_box.write(out);
        proof {
            lemma_append_twice(start, done, data.water_bounding_box.spec_bytes());
            done = done + data.water_bounding_box.spec_bytes();
        }
        self.vertical_fog_bounding_box.write(out);
        proof {
            lemma_append_twice(start, done, data.vertical_fog_bounding_box.spec_bytes());
            done = done + data.vertical_fog_bounding_box.spec_bytes();
        }
        write_records(out, self.bone_bounding_boxes.as_slice());
        proof {
            lemma_append_twice(start, done, spec_records_bytes(data.bone_bounding_boxes));
        }
    }

    /// Appends the bytes of the data block.
    pub fn write(&self, out: &mut Vec<u8>)
        ensures
            final(out)@ == old(out)@ + spec_model_data_bytes(self@),
    {
        let ghost start = out@;
        self.write_header(out);
        self.write_lists(out);
        proof {
            lemma_append_twice(
                start,
                spec_model_header_bytes(self@.header),
                spec_model_lists_bytes(self@),
            );
        }
        self.write_tail(out);
        proof {
            lemma_append_twice(
                start,
                spec_model_header_bytes(self@.header) + spec_model_lists_bytes(self@),
                spec_model_tail_bytes(self@),
            );
        }
    }
}

/// A run of indices of a part, with the place of its record in the data block.
#[derive(PartialEq, Eq, Structural, Clone, Copy, Debug)]
pub struct SubMesh {
    pub submesh_index: usize,
    pub index_count: u32,
    pub index_offset: u32,
}

/// The geometry of one mesh.
#[derive(Debug)]
pub struct Part {
    pub mesh_index: u16,
    pub vertices: Vec<Vertex>,
    pub indices: Vec<u16>,
    pub material_index: u16,
    pub submeshes: Vec<SubMesh>,
}

/// What a part holds.
pub struct PartView {
    pub mesh_index: u16,
    pub vertices: Seq<Vertex>,
    pub indices: Seq<u16>,
    pub material_index: u16,
    pub submeshes: Seq<SubMesh>,
}

impl View for Part {
    type V = PartView;

    open spec fn view(&self) -> PartView {
        PartView {
            mesh_index: self.mesh_index,
            vertices: self.vertices@,
            indices: self.indices@,
            material_index: self.material_index,
            submeshes: self.submeshes@,
        }
    }
}

/// The parts of one level of detail.
#[derive(Debug)]
pub struct Lod {
    pub parts: Vec<Part>,
}

/// The views of the parts.
pub open spec fn spec_part_views(parts: Seq<Part>) -> Seq<PartView> {
    Seq::new(parts.len(), |i: int| parts[i]@)
}

impl View for Lod {
    type V = Seq<PartView>;

    open spec fn view(&self) -> Seq<PartView> {
        spec_part_views(self.parts@)
    }
}

/// A model: its two headers, the geometry of its levels of detail, and the
/// names of its bones and materials.
#[derive(Debug)]
pub struct MDL {
    pub file_header: ModelFileHeader,
    pub model_data: ModelData,
    pub lods: Vec<Lod>,
    pub affected_bone_names: Vec<String>,
    pub material_names: Vec<String>,
}

/// What a model holds.
pub struct MDLView {
    pub file_header: ModelFileHeaderView,
    pub model_data: ModelDataView,
    pub lods: Seq<Seq<PartView>>,
    pub affected_bone_names: Seq<Seq<char>>,
    pub material_names: Seq<Seq<char>>,
}

/// The views of the levels of detail.
pub open spec fn spec_lod_views(lods: Seq<Lod>) -> Seq<Seq<PartView>> {
    Seq::new(lods.len(), |i: int| lods[i]@)
}

/// The views of the strings.
pub open spec fn spec_string_views(strings: Seq<String>) -> Seq<Seq<char>> {
    Seq::new(strings.len(), |i: int| strings[i]@)
}

impl View for MDL {
    type V = MDLView;

    open spec fn view(&self) -> MDLView {
        MDLView {
            file_header: self.file_header@,
            model_data: self.model_data@,
            lods: spec_lod_views(self.lods@),
            affected_bone_names: spec_string_views(self.affected_bone_names@),
            material_names: spec_string_views(self.material_names@),
        }
    }
}

/// The names at the given offsets of the string pool, if each of them is one.
pub open spec fn spec_names(strings: Seq<u8>, offsets: Seq<u32>) -> Option<Seq<Seq<char>>> {
    if forall|i: int| 0 <= i < offsets.len() ==> spec_c_string(strings, #[trigger] offsets[i] as int).is_some() {
        Some(Seq::new(offsets.len(), |i: int| spec_c_string(strings, offsets[i] as int).unwrap()))
    } else {
        None
    }
}

/// Where the element lies for vertex `k` of the mesh: the start of the vertex
/// data of the level of detail, the offset of the element's stream, the offset
/// of the element, and `k` strides of the stream.
pub open spec fn spec_element_position(
    lod: MeshLod,
    mesh: Mesh,
    element: VertexElement,
    k: int,
) -> int {
    lod.vertex_data_offset + mesh.vertex_buffer_offsets[element.stream as int] + element.offset
        + mesh.vertex_buffer_strides[element.stream as int] * k
}

/// The element can be read for vertex `k`: its stream is one of the three, its
/// combination of attribute and encoding is supported, and its bytes lie
/// inside the buffer.
pub open spec fn spec_element_readable(
    s: Seq<u8>,
    lod: MeshLod,
    mesh: Mesh,
    element: VertexElement,
    k: int,
) -> bool {
    &&& element.stream < 3
    &&& spec_element_supported(element)
    &&& spec_element_position(lod, mesh, element, k) + spec_element_width(element.vertex_type)
        <= s.len()
}

/// Vertex `k` of the mesh: the default vertex, with the elements of the
/// declaration taken into it in their order. There is none where an element
/// cannot be read.
pub open spec fn spec_read_vertex(
    s: Seq<u8>,
    lod: MeshLod,
    mesh: Mesh,
    elements: Seq<VertexElement>,
    k: int,
) -> Option<Vertex>
    decreases elements.len(),
{
    if elements.len() == 0 {
        Some(spec_default_vertex())
    } else {
        match spec_read_vertex(s, lod, mesh, elements.drop_last(), k) {
            None => None,
            Some(vertex) => {
                let element = elements.last();
                if spec_element_readable(s, lod, mesh, element, k) {
                    Some(
                        spec_decode_element(
                            vertex,
                            s,
                            spec_element_position(lod, mesh, element, k),
                            element,
                        ),
                    )
                } else {
                    None
                }
            },
        }
    }
}

/// The vertices of the mesh, if each of them can be read.
pub open spec fn spec_read_vertices(
    s: Seq<u8>,
    lod: MeshLod,
    mesh: Mesh,
    elements: Seq<VertexElement>,
) -> Option<Seq<Vertex>> {
    if forall|k: int|
        0 <= k < mesh.vertex_count ==> (#[trigger] spec_read_vertex(
            s,
            lod,
            mesh,
            elements,
            k,
        )).is_some() {
        Some(
            Seq::new(
                mesh.vertex_count as nat,
                |k: int| spec_read_vertex(s, lod, mesh, elements, k).unwrap(),
            ),
        )
    } else {
        None
    }
}

/// The `count` indices stored from `at` on, if they lie inside the buffer.
pub open spec fn spec_read_indices(s: Seq<u8>, at: int, count: int) -> Option<Seq<u16>> {
    if count == 0 || at + 2 * count <= s.len() {
        Some(spec_records::<u16>(s, at, count))
    } else {
        None
    }
}

/// Submesh `i` of the mesh.
pub open spec fn spec_part_submesh(mesh: Mesh, submeshes: Seq<Submesh>, i: int) -> SubMesh {
    SubMesh {
        submesh_index: (mesh.submesh_index + i) as usize,
        index_count: submeshes[mesh.submesh_index + i].index_count,
        index_offset: submeshes[mesh.submesh_index + i].index_offset,
    }
}

/// The submeshes of the mesh, if the data block holds a record for each.
pub open spec fn spec_part_submeshes(mesh: Mesh, submeshes: Seq<Submesh>) -> Option<Seq<SubMesh>> {
    if mesh.submesh_count == 0 || mesh.submesh_index + mesh.submesh_count <= submeshes.len() {
        Some(
            Seq::new(mesh.submesh_count as nat, |i: int| spec_part_submesh(mesh, submeshes, i)),
        )
    } else {
        None
    }
}

/// The part for mesh `mesh_index` in level of detail `lod_index`: its vertices
/// by the declaration with the mesh's index, its indices from the index data
/// of the level, and its submeshes. There is none where the index does not fit
/// in 16 bits, the model has no mesh or no declaration with that index, or one
/// of the three cannot be read.
pub open spec fn spec_read_part(
    s: Seq<u8>,
    header: ModelFileHeaderView,
    data: ModelDataView,
    lod_index: int,
    mesh_index: int,
) -> Option<PartView> {
    if 0 <= mesh_index <= 0xFFFF && mesh_index < header.vertex_declarations.len() && mesh_index
        < data.meshes.len() {
        let lod = data.lods[lod_index];
        let mesh = data.meshes[mesh_index];
        match (
            spec_read_vertices(s, lod, mesh, header.vertex_declarations[mesh_index]),
            spec_read_indices(
                s,
                header.index_offsets[lod_index] + mesh.start_index * 2,
                mesh.index_count as int,
            ),
            spec_part_submeshes(mesh, data.submeshes),
        ) {
            (Some(vertices), Some(indices), Some(submeshes)) => Some(
                PartView {
                    mesh_index: mesh_index as u16,
                    vertices,
                    indices,
                    material_index: mesh.material_index,
                    submeshes,
                },
            ),
            _ => None,
        }
    } else {
        None
    }
}

/// Part `p` of level of detail `lod_index`.
pub open spec fn spec_lod_part(
    s: Seq<u8>,
    header: ModelFileHeaderView,
    data: ModelDataView,
    lod_index: int,
    p: int,
) -> Option<PartView> {
    spec_read_part(s, header, data, lod_index, data.lods[lod_index].mesh_index + p)
}

/// The parts of level of detail `lod_index`, one for each of its meshes, if
/// each of them can be read.
pub open spec fn spec_read_lod(
    s: Seq<u8>,
    header: ModelFileHeaderView,
    data: ModelDataView,
    lod_index: int,
) -> Option<Seq<PartView>> {
    let count = data.lods[lod_index].mesh_count;
    if forall|p: int|
        0 <= p < count ==> (#[trigger] spec_lod_part(s, header, data, lod_index, p)).is_some() {
        Some(
            Seq::new(
                count as nat,
                |p: int| spec_lod_part(s, header, data, lod_index, p).unwrap(),
            ),
        )
    } else {
        None
    }
}

/// The levels of detail that the data block counts, if there are at most
/// three and each of them can be read.
pub open spec fn spec_read_lods(
    s: Seq<u8>,
    header: ModelFileHeaderView,
    data: ModelDataView,
) -> Option<Seq<Seq<PartView>>> {
    let count = data.header.info.lod_count;
    if count <= 3 && forall|i: int|
        0 <= i < count ==> (#[trigger] spec_read_lod(s, header, data, i)).is_some() {
        Some(Seq::new(count as nat, |i: int| spec_read_lod(s, header, data, i).unwrap()))
    } else {
        None
    }
}

/// The model stored in `s`: the file header, the data block right after it,
/// the names of the bones and materials from the string pool, and the levels
/// of detail. There is none where one of them cannot be read.
pub open spec fn spec_model(s: Seq<u8>) -> Option<MDLView> {
    match spec_file_header(s) {
        None => None,
        Some(header) => match spec_model_data(
            s,
            spec_file_header_size(header.vertex_declaration_count as int),
        ) {
            None => None,
            Some(data) => match (
                spec_names(data.header.strings, data.bone_name_offsets),
                spec_names(data.header.strings, data.material_name_offsets),
                spec_read_lods(s, header, data),
            ) {
                (Some(affected_bone_names), Some(material_names), Some(lods)) => Some(
                    MDLView {
                        file_header: header,
                        model_data: data,
                        lods,
                        affected_bone_names,
                        material_names,
                    },
                ),
                _ => None,
            },
        },
    }
}

/// Reads the names at the given offsets of the string pool.
pub fn read_names(strings: &[u8], offsets: &[u32]) -> (names: Option<Vec<String>>)
    ensures
        match names {
            Some(names) => spec_names(strings@, offsets@) == Some(spec_string_views(names@)),
            None => spec_names(strings@, offsets@).is_none(),
        },
{
    let count: usize = offsets.len();
    let mut names: Vec<String> = Vec::new();
    let mut i: usize = 0;
    while i < count
        invariant
            i <= count,
            count == offsets@.len(),
            names@.len() == i,
            forall|j: int|
                0 <= j < i ==> spec_c_string(strings@, offsets@[j] as int) == Some(
                    (#[trigger] names@[j])@,
                ),
        decreases count - i,
    {
        match read_c_string(strings, offsets[i] as usize) {
            Some(name) => {
                names.push(name);
            },
            None => {
                assert(spec_c_string(strings@, offsets@[i as int] as int).is_none());
                return None;
            },
        }
        i = i + 1;
    }
    proof {
        assert forall|j: int| 0 <= j < offsets@.len() implies spec_c_string(
            strings@,
            #[trigger] offsets@[j] as int,
        ).is_some() by {
            assert(spec_c_string(strings@, offsets@[j] as int) == Some(names@[j]@));
        }
        assert(spec_string_views(names@) =~= Seq::new(
            offsets@.len(),
            |j: int| spec_c_string(strings@, offsets@[j] as int).unwrap(),
        ));
    }
    Some(names)
}

proof fn lemma_read_vertex_prefix(
    s: Seq<u8>,
    lod: MeshLod,
    mesh: Mesh,
    elements: Seq<VertexElement>,
    k: int,
    n: int,
)
    requires
        0 <= n <= elements.len(),
        spec_read_vertex(s, lod, mesh, elements.subrange(0, n), k).is_none(),
    ensures
        spec_read_vertex(s, lod, mesh, elements, k).is_none(),
    decreases elements.len() - n,
{
    if n == elements.len() {
        assert(elements.subrange(0, n) =~= elements);
    } else {
        let next = elements.subrange(0, n + 1);
        assert(next.drop_last() =~= elements.subrange(0, n));
        lemma_read_vertex_prefix(s, lod, mesh, elements, k, n + 1);
    }
}

/// Reads vertex `k` of the mesh by its declaration.
pub fn read_vertex(
    data: &[u8],
    lod: &MeshLod,
    mesh: &Mesh,
    declaration: &VertexDeclaration,
    k: u16,
) -> (vertex: Option<Vertex>)
    ensures
        match vertex {
            Some(vertex) => spec_read_vertex(data@, *lod, *mesh, declaration@, k as int) == Some(
                vertex,
            ),
            None => spec_read_vertex(data@, *lod, *mesh, declaration@, k as int).is_none(),
        },
{
    let len: usize = data.len();
    let count: usize = declaration.elements.len();
    let mut vertex = Vertex::default();
    let mut e: usize = 0;
    while e < count
        invariant
            e <= count,
            count == declaration@.len(),
            len == data@.len(),
            spec_read_vertex(data@, *lod, *mesh, declaration@.subrange(0, e as int), k as int)
                == Some(vertex),
        decreases count - e,
    {
        let element = &declaration.elements[e];
        let ghost next = declaration@.subrange(0, e + 1);
        assert(next.drop_last() =~= declaration@.subrange(0, e as int));
        assert(next.last() == *element);
        let stream: usize = element.stream as usize;
        if stream >= 3 || !element_supported(element) {
            proof {
                lemma_read_vertex_prefix(data@, *lod, *mesh, declaration@, k as int, e + 1);
            }
            return None;
        }
        let stride: u64 = mesh.vertex_buffer_strides[stream] as u64;
        assert(stride * (k as u64) <= 255 * 65535) by (nonlinear_arith)
            requires
                stride <= 255,
                k <= 65535,
        ;
        let position: u64 = lod.vertex_data_offset as u64
            + mesh.vertex_buffer_offsets[stream] as u64 + element.offset as u64 + stride * (
        k as u64);
        let width: usize = element_width(element.vertex_type);
        if position > len as u64 || width as u64 > len as u64 - position {
            proof {
                lemma_read_vertex_prefix(data@, *lod, *mesh, declaration@, k as int, e + 1);
            }
            return None;
        }
        decode_element(&mut vertex, data, position as usize, element);
        e = e + 1;
    }
    assert(declaration@.subrange(0, count as int) =~= declaration@);
    Some(vertex)
}

/// Reads the vertices of the mesh by its declaration.
pub fn read_vertices(data: &[u8], lod: &MeshLod, mesh: &Mesh, declaration: &VertexDeclaration) -> (vertices:
    Option<Vec<Vertex>>)
    ensures
        match vertices {
            Some(vertices) => spec_read_vertices(data@, *lod, *mesh, declaration@) == Some(
                vertices@,
            ),
            None => spec_read_vertices(data@, *lod, *mesh, declaration@).is_none(),
        },
{
    let count: u16 = mesh.vertex_count;
    let mut vertices: Vec<Vertex> = Vec::new();
    let mut k: u16 = 0;
    while k < count
        invariant
            k <= count,
            count == mesh.vertex_count,
            vertices@.len() == k,
            forall|j: int|
                0 <= j < k ==> spec_read_vertex(data@, *lod, *mesh, declaration@, j) == Some(
                    #[trigger] vertices@[j],
                ),
        decreases count - k,
    {
        match read_vertex(data, lod, mesh, declaration, k) {
            Some(vertex) => {
                vertices.push(vertex);
            },
            None => {
                return None;
            },
        }
        k = k + 1;
    }
    proof {
        assert forall|j: int| 0 <= j < mesh.vertex_count implies (#[trigger] spec_read_vertex(
            data@,
            *lod,
            *mesh,
            declaration@,
            j,
        )).is_some() by {
            assert(spec_read_vertex(data@, *lod, *mesh, declaration@, j) == Some(vertices@[j]));
        }
        assert(vertices@ =~= Seq::new(
            mesh.vertex_count as nat,
            |j: int| spec_read_vertex(data@, *lod, *mesh, declaration@, j).unwrap(),
        ));
    }
    Some(vertices)
}

/// Reads `count` indices stored from `at` on.
pub fn read_indices(data: &[u8], at: u64, count: u32) -> (indices: Option<Vec<u16>>)
    ensures
        match indices {
            Some(indices) => spec_read_indices(data@, at as int, count as int) == Some(indices@),
            None => spec_read_indices(data@, at as int, count as int).is_none(),
        },
{
    let len: usize = data.len();
    if count == 0 {
        let indices: Vec<u16> = Vec::new();
        assert(indices@ =~= spec_records::<u16>(data@, at as int, 0));
        return Some(indices);
    }
    if at > len as u64 || 2 * count as u64 > len as u64 - at {
        return None;
    }
    Some(read_records(data, at as usize, count as usize))
}

/// The submeshes of the mesh, from the records of the data block.
pub fn part_submeshes(mesh: &Mesh, submeshes: &[Submesh]) -> (list: Option<Vec<SubMesh>>)
    ensures
        match list {
            Some(list) => spec_part_submeshes(*mesh, submeshes@) == Some(list@),
            None => spec_part_submeshes(*mesh, submeshes@).is_none(),
        },
{
    let first: usize = mesh.submesh_index as usize;
    let count: usize = mesh.submesh_count as usize;
    let mut list: Vec<SubMesh> = Vec::new();
    if count == 0 {
        assert(list@ =~= spec_part_submeshes(*mesh, submeshes@).unwrap());
        return Some(list);
    }
    if first + count > submeshes.len() {
        return None;
    }
    let mut i: usize = 0;
    while i < count
        invariant
            i <= count,
            first == mesh.submesh_index,
            count == mesh.submesh_count,
            first + count <= submeshes@.len(),
            list@ == Seq::new(i as nat, |j: int| spec_part_submesh(*mesh, submeshes@, j)),
        decreases count - i,
    {
        let record = &submeshes[first + i];
        list.push(
            SubMesh {
                submesh_index: first + i,
                index_count: record.index_count,
                index_offset: record.index_offset,
            },
        );
        i = i + 1;
        assert(list@ =~= Seq::new(i as nat, |j: int| spec_part_submesh(*mesh, submeshes@, j)));
    }
    Some(list)
}

/// Reads the part for mesh `mesh_index` in level of detail `lod_index`.
pub fn read_part(
    data: &[u8],
    header: &ModelFileHeader,
    block: &ModelData,
    lod_index: usize,
    mesh_index: usize,
) -> (part: Option<Part>)
    requires
        lod_index < 3,
        block@.lods.len() == 3,
    ensures
        match part {
            Some(part) => spec_read_part(
                data@,
                header@,
                block@,
                lod_index as int,
                mesh_index as int,
            ) == Some(part@),
            None => spec_read_part(
                data@,
                header@,
                block@,
                lod_index as int,
                mesh_index as int,
            ).is_none(),
        },
{
    if mesh_index >= header.vertex_declarations.len() || mesh_index >= block.meshes.len()
        || mesh_index > 0xFFFF {
        return None;
    }
    let lod = &block.lods[lod_index];
    let mesh = &block.meshes[mesh_index];
    let declaration = &header.vertex_declarations[mesh_index];
    let vertices = match read_vertices(data, lod, mesh, declaration) {
        Some(vertices) => vertices,
        None => { return None; },
    };
    let at: u64 = header.index_offsets[lod_index] as u64 + mesh.start_index as u64 * 2;
    let indices = match read_indices(data, at, mesh.index_count) {
        Some(indices) => indices,
        None => { return None; },
    };
    let submeshes = match part_submeshes(mesh, block.submeshes.as_slice()) {
        Some(submeshes) => submeshes,
        None => { return None; },
    };
    Some(
        Part {
            mesh_index: mesh_index as u16,
            vertices,
            indices,
            material_index: mesh.material_index,
            submeshes,
        },
    )
}

/// Reads the parts of level of detail `lod_index`.
pub fn read_lod(data: &[u8], header: &ModelFileHeader, block: &ModelData, lod_index: usize) -> (lod:
    Option<Lod>)
    requires
        lod_index < 3,
        block@.lods.len() == 3,
    ensures
        match lod {
            Some(lod) => spec_read_lod(data@, header@, block@, lod_index as int) == Some(lod@),
            None => spec_read_lod(data@, header@, block@, lod_index as int).is_none(),
        },
{
    let first: usize = block.lods[lod_index].mesh_index as usize;
    let count: usize = block.lods[lod_index].mesh_count as usize;
    let mut parts: Vec<Part> = Vec::new();
    let mut p: usize = 0;
    while p < count
        invariant
            p <= count,
            lod_index < 3,
            block@.lods.len() == 3,
            first == block@.lods[lod_index as int].mesh_index,
            count == block@.lods[lod_index as int].mesh_count,
            parts@.len() == p,
            forall|j: int|
                0 <= j < p ==> spec_lod_part(data@, header@, block@, lod_index as int, j) == Some(
                    (#[trigger] parts@[j])@,
                ),
        decreases count - p,
    {
        match read_part(data, header, block, lod_index, first + p) {
            Some(part) => {
                parts.push(part);
            },
            None => {
                assert(spec_lod_part(data@, header@, block@, lod_index as int, p as int).is_none());
                return None;
            },
        }
        p = p + 1;
    }
    let lod = Lod { parts };
    proof {
        assert forall|j: int| 0 <= j < count implies (#[trigger] spec_lod_part(
            data@,
            header@,
            block@,
            lod_index as int,
            j,
        )).is_some() by {
            assert(spec_lod_part(data@, header@, block@, lod_index as int, j) == Some(
                lod.parts@[j]@,
            ));
        }
        assert(lod@ =~= Seq::new(
            count as nat,
            |j: int| spec_lod_part(data@, header@, block@, lod_index as int, j).unwrap(),
        ));
    }
    Some(lod)
}

/// Reads the levels of detail that the data block counts.
pub fn read_lods(data: &[u8], header: &ModelFileHeader, block: &ModelData) -> (lods: Option<
    Vec<Lod>,
>)
    requires
        block@.lods.len() == 3,
    ensures
        match lods {
            Some(lods) => spec_read_lods(data@, header@, block@) == Some(spec_lod_views(lods@)),
            None => spec_read_lods(data@, header@, block@).is_none(),
        },
{
    let count: usize = block.header.info.lod_count as usize;
    if count > 3 {
        return None;
    }
    let mut lods: Vec<Lod> = Vec::new();
    let mut i: usize = 0;
    while i < count
        invariant
            i <= count <= 3,
            block@.lods.len() == 3,
            count == block@.header.info.lod_count,
            lods@.len() == i,
            forall|j: int|
                0 <= j < i ==> spec_read_lod(data@, header@, block@, j) == Some(
                    (#[trigger] lods@[j])@,
                ),
        decreases count - i,
    {
        match read_lod(data, header, block, i) {
            Some(lod) => {
                lods.push(lod);
            },
            None => {
                return None;
            },
        }
        i = i + 1;
    }
    proof {
        assert forall|j: int| 0 <= j < count implies (#[trigger] spec_read_lod(
            data@,
            header@,
            block@,
            j,
        )).is_some() by {
            assert(spec_read_lod(data@, header@, block@, j) == Some(lods@[j]@));
        }
        assert(spec_lod_views(lods@) =~= Seq::new(
            count as nat,
            |j: int| spec_read_lod(data@, header@, block@, j).unwrap(),
        ));
    }
    Some(lods)
}

impl MDL {
    /// Reads a model from the bytes of a model file.
    ///
    /// Returns the model that the bytes store, and nothing where they store
    /// none: where the buffer ends early, a declaration or a flags byte is
    /// malformed, a name does not end, a level of detail refers to a mesh or
    /// a declaration that the model does not have, or an element uses a
    /// combination of attribute and encoding that is not supported.
    pub fn from_existing(buffer: &[u8]) -> (model: Option<MDL>)
        ensures
            match model {
                Some(model) => spec_model(buffer@) == Some(model@),
                None => spec_model(buffer@).is_none(),
            },
    {
        let file_header = match ModelFileHeader::read(buffer) {
            Some(header) => header,
            None => { return None; },
        };
        let data_at: usize = 68 + 136 * (file_header.vertex_declaration_count as usize);
        let model_data = match ModelData::read(buffer, data_at) {
            Some(block) => block,
            None => { return None; },
        };
        let affected_bone_names = match read_names(
            model_data.header.strings.as_slice(),
            model_data.bone_name_offsets.as_slice(),
        ) {
            Some(names) => names,
            None => { return None; },
        };
        let material_names = match read_names(
            model_data.header.strings.as_slice(),
            model_data.material_name_offsets.as_slice(),
        ) {
            Some(names) => names,
            None => { return None; },
        };
        let lods = match read_lods(buffer, &file_header, &model_data) {
            Some(lods) => lods,
            None => { return None; },
        };
        Some(MDL { file_header, model_data, lods, affected_bone_names, material_names })
    }
}

} // verus!
