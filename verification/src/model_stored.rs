//! What is written of a model is read back.

use vstd::prelude::*;
use crate::binary::{
    lemma_holds, lemma_holds_end, lemma_holds_extended, lemma_holds_inside, lemma_holds_whole,
    lemma_u16_held, lemma_u32_held, spec_holds, spec_u16_le_bytes, spec_u32_le_bytes, spec_zeros,
};
use crate::model::{
    spec_bool_byte, spec_file_header, spec_file_header_bytes, spec_file_header_fixed_bytes,
    spec_model_data, spec_model_data_bytes, spec_model_flags1, spec_model_flags2,
    spec_model_header_bytes, spec_model_lists_bytes, spec_model_tail_bytes, ModelDataView,
    ModelFileHeaderView,
};
use crate::model_records::{BoundingBox, ModelInfo};
use crate::model_vertex_declarations::{
    lemma_declarations_held, spec_declaration_wf, spec_declarations_bytes,
};
use crate::records::{
    lemma_record_held, lemma_records_bytes_len, lemma_records_held, spec_records_bytes, Record,
};

verus! {

/// A file header that can be stored: it counts the declarations that it has,
/// and each of them can be stored.
pub open spec fn spec_file_header_wf(header: ModelFileHeaderView) -> bool {
    &&& header.vertex_declaration_count == header.vertex_declarations.len()
    &&& forall|i: int|
        0 <= i < header.vertex_declarations.len() ==> spec_declaration_wf(
            #[trigger] header.vertex_declarations[i],
        )
}

proof fn lemma_array_held(s: Seq<u8>, at: int, values: [u32; 3])
    requires
        spec_holds(s, at, spec_records_bytes::<u32>(values@)),
    ensures
        spec_records_bytes::<u32>(values@).len() == 12,
        values == [
            crate::binary::spec_u32_le(s, at) as u32,
            crate::binary::spec_u32_le(s, at + 4) as u32,
            crate::binary::spec_u32_le(s, at + 8) as u32,
        ],
{
    lemma_records_held::<u32>(s, at, values@);
    let read = crate::records::spec_records::<u32>(s, at, 3);
    assert(read[0] == values@[0]);
    assert(read[1] == values@[1]);
    assert(read[2] == values@[2]);
    assert(values =~= [
        crate::binary::spec_u32_le(s, at) as u32,
        crate::binary::spec_u32_le(s, at + 4) as u32,
        crate::binary::spec_u32_le(s, at + 8) as u32,
    ]);
}

/// Where the bytes of a file header that can be stored stand at the start of
/// a buffer, the header is read from the buffer.
pub proof fn lemma_file_header_held(s: Seq<u8>, header: ModelFileHeaderView)
    requires
        spec_file_header_wf(header),
        spec_holds(s, 0, spec_file_header_bytes(header)),
    ensures
        spec_file_header_bytes(header).len() == 68 + 136 * header.vertex_declaration_count,
        spec_file_header(s) == Some(header),
{
    let field1 = spec_u32_le_bytes(header.version);
    let field2 = spec_u32_le_bytes(header.stack_size);
    let field3 = spec_u32_le_bytes(header.runtime_size);
    let field4 = spec_u16_le_bytes(header.vertex_declaration_count);
    let field5 = spec_u16_le_bytes(header.material_count);
    let field6 = spec_records_bytes::<u32>(header.vertex_offsets@);
    let field7 = spec_records_bytes::<u32>(header.index_offsets@);
    let field8 = spec_records_bytes::<u32>(header.vertex_buffer_size@);
    let field9 = spec_records_bytes::<u32>(header.index_buffer_size@);
    let field10 = seq![
        header.lod_count,
        spec_bool_byte(header.index_buffer_streaming_enabled),
        spec_bool_byte(header.has_edge_geometry),
        0u8,
    ];
    let fixed = spec_file_header_fixed_bytes(header);
    let declarations = spec_declarations_bytes(header.vertex_declarations);
    let bytes = spec_file_header_bytes(header);
    lemma_records_bytes_len::<u32>(header.vertex_offsets@);
    lemma_records_bytes_len::<u32>(header.index_offsets@);
    lemma_records_bytes_len::<u32>(header.vertex_buffer_size@);
    lemma_records_bytes_len::<u32>(header.index_buffer_size@);
    let x1 = field1;
    let x2 = x1 + field2;
    let x3 = x2 + field3;
    let x4 = x3 + field4;
    let x5 = x4 + field5;
    let x6 = x5 + field6;
    let x7 = x6 + field7;
    let x8 = x7 + field8;
    let x9 = x8 + field9;
    assert(fixed == x9 + field10);
    lemma_holds_whole(field1);
    lemma_holds_extended(x1, field2, 0, field1);
    lemma_holds_extended(x2, field3, 0, field1);
    lemma_holds_extended(x3, field4, 0, field1);
    lemma_holds_extended(x4, field5, 0, field1);
    lemma_holds_extended(x5, field6, 0, field1);
    lemma_holds_extended(x6, field7, 0, field1);
    lemma_holds_extended(x7, field8, 0, field1);
    lemma_holds_extended(x8, field9, 0, field1);
    lemma_holds_extended(x9, field10, 0, field1);
    lemma_holds_end(x1, field2);
    lemma_holds_extended(x2, field3, 4, field2);
    lemma_holds_extended(x3, field4, 4, field2);
    lemma_holds_extended(x4, field5, 4, field2);
    lemma_holds_extended(x5, field6, 4, field2);
    lemma_holds_extended(x6, field7, 4, field2);
    lemma_holds_extended(x7, field8, 4, field2);
    lemma_holds_extended(x8, field9, 4, field2);
    lemma_holds_extended(x9, field10, 4, field2);
    lemma_holds_end(x2, field3);
    lemma_holds_extended(x3, field4, 8, field3);
    lemma_holds_extended(x4, field5, 8, field3);
    lemma_holds_extended(x5, field6, 8, field3);
    lemma_holds_extended(x6, field7, 8, field3);
    lemma_holds_extended(x7, field8, 8, field3);
    lemma_holds_extended(x8, field9, 8, field3);
    lemma_holds_extended(x9, field10, 8, field3);
    lemma_holds_end(x3, field4);
    lemma_holds_extended(x4, field5, 12, field4);
    lemma_holds_extended(x5, field6, 12, field4);
    lemma_holds_extended(x6, field7, 12, field4);
    lemma_holds_extended(x7, field8, 12, field4);
    lemma_holds_extended(x8, field9, 12, field4);
    lemma_holds_extended(x9, field10, 12, field4);
    lemma_holds_end(x4, field5);
    lemma_holds_extended(x5, field6, 14, field5);
    lemma_holds_extended(x6, field7, 14, field5);
    lemma_holds_extended(x7, field8, 14, field5);
    lemma_holds_extended(x8, field9, 14, field5);
    lemma_holds_extended(x9, field10, 14, field5);
    lemma_holds_end(x5, field6);
    lemma_holds_extended(x6, field7, 16, field6);
    lemma_holds_extended(x7, field8, 16, field6);
    lemma_holds_extended(x8, field9, 16, field6);
    lemma_holds_extended(x9, field10, 16, field6);
    lemma_holds_end(x6, field7);
    lemma_holds_extended(x7, field8, 28, field7);
    lemma_holds_extended(x8, field9, 28, field7);
    lemma_holds_extended(x9, field10, 28, field7);
    lemma_holds_end(x7, field8);
    lemma_holds_extended(x8, field9, 40, field8);
    lemma_holds_extended(x9, field10, 40, field8);
    lemma_holds_end(x8, field9);
    lemma_holds_extended(x9, field10, 52, field9);
    lemma_holds_end(x9, field10);
    assert(fixed.len() == 68);
    lemma_holds_end(fixed, declarations);
    lemma_holds_extended(fixed, declarations, 0, field1);
    lemma_holds_extended(fixed, declarations, 4, field2);
    lemma_holds_extended(fixed, declarations, 8, field3);
    lemma_holds_extended(fixed, declarations, 12, field4);
    lemma_holds_extended(fixed, declarations, 14, field5);
    lemma_holds_extended(fixed, declarations, 16, field6);
    lemma_holds_extended(fixed, declarations, 28, field7);
    lemma_holds_extended(fixed, declarations, 40, field8);
    lemma_holds_extended(fixed, declarations, 52, field9);
    lemma_holds_extended(fixed, declarations, 64, field10);
    assert(spec_holds(bytes, 68, declarations));
    lemma_holds_inside(s, 0, bytes, 0, field1);
    lemma_holds_inside(s, 0, bytes, 4, field2);
    lemma_holds_inside(s, 0, bytes, 8, field3);
    lemma_holds_inside(s, 0, bytes, 12, field4);
    lemma_holds_inside(s, 0, bytes, 14, field5);
    lemma_holds_inside(s, 0, bytes, 16, field6);
    lemma_holds_inside(s, 0, bytes, 28, field7);
    lemma_holds_inside(s, 0, bytes, 40, field8);
    lemma_holds_inside(s, 0, bytes, 52, field9);
    lemma_holds_inside(s, 0, bytes, 64, field10);
    lemma_holds_inside(s, 0, bytes, 68, declarations);
    lemma_u32_held(s, 0, header.version);
    lemma_u32_held(s, 4, header.stack_size);
    lemma_u32_held(s, 8, header.runtime_size);
    lemma_u16_held(s, 12, header.vertex_declaration_count);
    lemma_u16_held(s, 14, header.material_count);
    lemma_array_held(s, 16, header.vertex_offsets);
    lemma_array_held(s, 28, header.index_offsets);
    lemma_array_held(s, 40, header.vertex_buffer_size);
    lemma_array_held(s, 52, header.index_buffer_size);
    lemma_holds(s, 64, field10);
    assert(s[64] == field10[0] && s[65] == field10[1] && s[66] == field10[2]);
    lemma_declarations_held(s, 68, header.vertex_declarations);
}

/// A data block that can be stored: the header counts what the lists hold,
/// there are three levels of detail, the bone tables have 66 words each, the
/// bone map has a word for every two bytes of its size, and the flags bytes
/// stand for flags.
pub open spec fn spec_model_data_wf(data: ModelDataView) -> bool {
    let info = data.header.info;
    &&& data.header.string_size == data.header.strings.len()
    &&& info.element_id_count == data.element_ids.len()
    &&& data.lods.len() == 3
    &&& info.mesh_count == data.meshes.len()
    &&& info.attribute_count == data.attribute_name_offsets.len()
    &&& info.submesh_count == data.submeshes.len()
    &&& info.material_count == data.material_name_offsets.len()
    &&& info.bone_count == data.bone_name_offsets.len()
    &&& 66 * info.bone_table_count == data.bone_tables.len()
    &&& data.submesh_bone_map_size as int / 2 == data.submesh_bone_map.len()
    &&& info.bone_count == data.bone_bounding_boxes.len()
    &&& spec_model_flags1(info.flags1).is_some()
    &&& spec_model_flags2(info.flags2).is_some()
}

/// The number of bytes of a data block that can be stored.
pub open spec fn spec_model_data_size(data: ModelDataView) -> int {
    8 + data.header.strings.len() + 56 + 32 * data.element_ids.len() + 180 + 36
        * data.meshes.len() + 4 * data.attribute_name_offsets.len() + 16 * data.submeshes.len()
        + 4 * data.material_name_offsets.len() + 4 * data.bone_name_offsets.len() + 2
        * data.bone_tables.len() + 4 + 2 * data.submesh_bone_map.len() + 1 + data.padding_amount
        + 128 + 32 * data.bone_bounding_boxes.len()
}

proof fn lemma_header_pieces_held<T: Record>(
    s: Seq<u8>,
    at: int,
    count: u16,
    size: u32,
    strings: Seq<u8>,
    info: T,
)
    requires
        spec_holds(
            s,
            at,
            spec_u16_le_bytes(count) + spec_zeros(2) + spec_u32_le_bytes(size) + strings
                + info.spec_bytes(),
        ),
    ensures
        (spec_u16_le_bytes(count) + spec_zeros(2) + spec_u32_le_bytes(size) + strings
            + info.spec_bytes()).len() == 8 + strings.len() + T::spec_size(),
        crate::binary::spec_u16_le(s, at) == count,
        crate::binary::spec_u32_le(s, at + 4) == size,
        s.subrange(at + 8, at + 8 + strings.len()) == strings,
        T::spec_read(s, at + 8 + strings.len()) == info,
{
    let h1 = spec_u16_le_bytes(count);
    let h2 = spec_zeros(2);
    let h3 = spec_u32_le_bytes(size);
    let h4 = strings;
    let h5 = info.spec_bytes();
    let bytes = h1 + h2 + h3 + h4 + h5;
    info.lemma_roundtrip(Seq::empty(), Seq::empty());
    let n = strings.len() as int;
    let x1 = h1;
    let x2 = x1 + h2;
    let x3 = x2 + h3;
    let x4 = x3 + h4;
    assert(bytes == x4 + h5);
    lemma_holds_whole(h1);
    lemma_holds_extended(x1, h2, 0, h1);
    lemma_holds_extended(x2, h3, 0, h1);
    lemma_holds_extended(x3, h4, 0, h1);
    lemma_holds_extended(x4, h5, 0, h1);
    lemma_holds_end(x1, h2);
    lemma_holds_extended(x2, h3, 2, h2);
    lemma_holds_extended(x3, h4, 2, h2);
    lemma_holds_extended(x4, h5, 2, h2);
    lemma_holds_end(x2, h3);
    lemma_holds_extended(x3, h4, 4, h3);
    lemma_holds_extended(x4, h5, 4, h3);
    lemma_holds_end(x3, h4);
    lemma_holds_extended(x4, h5, 8, h4);
    lemma_holds_end(x4, h5);
    lemma_holds_inside(s, at, bytes, 0, h1);
    lemma_holds_inside(s, at, bytes, 4, h3);
    lemma_holds_inside(s, at, bytes, 8, h4);
    lemma_holds_inside(s, at, bytes, 8 + n, h5);
    lemma_u16_held(s, at, count);
    lemma_u32_held(s, at + 4, size);
    lemma_record_held(s, at + 8 + n, info);
    lemma_holds(s, at + 8, h4);
}


proof fn lemma_model_header_held(s: Seq<u8>, at: int, data: ModelDataView)
    requires
        spec_model_data_wf(data),
        spec_holds(s, at, spec_model_header_bytes(data.header)),
    ensures
        spec_model_header_bytes(data.header).len() == 8 + data.header.strings.len() + 56,
        crate::binary::spec_u16_le(s, at) == data.header.string_count,
        crate::binary::spec_u32_le(s, at + 4) == data.header.string_size,
        s.subrange(at + 8, at + 8 + data.header.strings.len()) == data.header.strings,
        ModelInfo::spec_read(s, at + 8 + data.header.strings.len()) == data.header.info,
{
    reveal(spec_model_header_bytes);
    let header = data.header;
    lemma_header_pieces_held(
        s,
        at,
        header.string_count,
        header.string_size,
        header.strings,
        header.info,
    );
}

proof fn lemma_lists_pieces_held<E: Record, L: Record, M: Record, A: Record, S: Record, W: Record>(
    s: Seq<u8>,
    at: int,
    r1: Seq<E>,
    r2: Seq<L>,
    r3: Seq<M>,
    r4: Seq<A>,
    r5: Seq<S>,
    r6: Seq<A>,
    r7: Seq<A>,
    r8: Seq<W>,
)
    requires
        spec_holds(s, at, spec_records_bytes(r1) + spec_records_bytes(r2) + spec_records_bytes(r3) + spec_records_bytes(r4) + spec_records_bytes(r5) + spec_records_bytes(r6) + spec_records_bytes(r7) + spec_records_bytes(r8)),
    ensures
        ({
            let a1 = at + E::spec_size() * r1.len();
            let a2 = a1 + L::spec_size() * r2.len();
            let a3 = a2 + M::spec_size() * r3.len();
            let a4 = a3 + A::spec_size() * r4.len();
            let a5 = a4 + S::spec_size() * r5.len();
            let a6 = a5 + A::spec_size() * r6.len();
            let a7 = a6 + A::spec_size() * r7.len();
            &&& (spec_records_bytes(r1) + spec_records_bytes(r2) + spec_records_bytes(r3) + spec_records_bytes(r4) + spec_records_bytes(r5) + spec_records_bytes(r6) + spec_records_bytes(r7) + spec_records_bytes(r8)).len() == a7 + W::spec_size() * r8.len() - at
            &&& crate::records::spec_records::<E>(s, at, r1.len() as int) == r1
            &&& crate::records::spec_records::<L>(s, a1, r2.len() as int) == r2
            &&& crate::records::spec_records::<M>(s, a2, r3.len() as int) == r3
            &&& crate::records::spec_records::<A>(s, a3, r4.len() as int) == r4
            &&& crate::records::spec_records::<S>(s, a4, r5.len() as int) == r5
            &&& crate::records::spec_records::<A>(s, a5, r6.len() as int) == r6
            &&& crate::records::spec_records::<A>(s, a6, r7.len() as int) == r7
            &&& crate::records::spec_records::<W>(s, a7, r8.len() as int) == r8
        }),
{
    let l1 = spec_records_bytes(r1);
    let l2 = spec_records_bytes(r2);
    let l3 = spec_records_bytes(r3);
    let l4 = spec_records_bytes(r4);
    let l5 = spec_records_bytes(r5);
    let l6 = spec_records_bytes(r6);
    let l7 = spec_records_bytes(r7);
    let l8 = spec_records_bytes(r8);
    let bytes = spec_records_bytes(r1) + spec_records_bytes(r2) + spec_records_bytes(r3) + spec_records_bytes(r4) + spec_records_bytes(r5) + spec_records_bytes(r6) + spec_records_bytes(r7) + spec_records_bytes(r8);
    lemma_records_bytes_len(r1);
    lemma_records_bytes_len(r2);
    lemma_records_bytes_len(r3);
    lemma_records_bytes_len(r4);
    lemma_records_bytes_len(r5);
    lemma_records_bytes_len(r6);
    lemma_records_bytes_len(r7);
    lemma_records_bytes_len(r8);
    let b1 = l1.len() as int;
    let b2 = b1 + l2.len();
    let b3 = b2 + l3.len();
    let b4 = b3 + l4.len();
    let b5 = b4 + l5.len();
    let b6 = b5 + l6.len();
    let b7 = b6 + l7.len();
    let x1 = l1;
    let x2 = x1 + l2;
    let x3 = x2 + l3;
    let x4 = x3 + l4;
    let x5 = x4 + l5;
    let x6 = x5 + l6;
    let x7 = x6 + l7;
    assert(bytes == x7 + l8);
    lemma_holds_whole(l1);
    lemma_holds_extended(x1, l2, 0, l1);
    lemma_holds_extended(x2, l3, 0, l1);
    lemma_holds_extended(x3, l4, 0, l1);
    lemma_holds_extended(x4, l5, 0, l1);
    lemma_holds_extended(x5, l6, 0, l1);
    lemma_holds_extended(x6, l7, 0, l1);
    lemma_holds_extended(x7, l8, 0, l1);
    lemma_holds_end(x1, l2);
    lemma_holds_extended(x2, l3, b1, l2);
    lemma_holds_extended(x3, l4, b1, l2);
    lemma_holds_extended(x4, l5, b1, l2);
    lemma_holds_extended(x5, l6, b1, l2);
    lemma_holds_extended(x6, l7, b1, l2);
    lemma_holds_extended(x7, l8, b1, l2);
    lemma_holds_end(x2, l3);
    lemma_holds_extended(x3, l4, b2, l3);
    lemma_holds_extended(x4, l5, b2, l3);
    lemma_holds_extended(x5, l6, b2, l3);
    lemma_holds_extended(x6, l7, b2, l3);
    lemma_holds_extended(x7, l8, b2, l3);
    lemma_holds_end(x3, l4);
    lemma_holds_extended(x4, l5, b3, l4);
    lemma_holds_extended(x5, l6, b3, l4);
    lemma_holds_extended(x6, l7, b3, l4);
    lemma_holds_extended(x7, l8, b3, l4);
    lemma_holds_end(x4, l5);
    lemma_holds_extended(x5, l6, b4, l5);
    lemma_holds_extended(x6, l7, b4, l5);
    lemma_holds_extended(x7, l8, b4, l5);
    lemma_holds_end(x5, l6);
    lemma_holds_extended(x6, l7, b5, l6);
    lemma_holds_extended(x7, l8, b5, l6);
    lemma_holds_end(x6, l7);
    lemma_holds_extended(x7, l8, b6, l7);
    lemma_holds_end(x7, l8);
    lemma_holds_inside(s, at, bytes, 0, l1);
    lemma_holds_inside(s, at, bytes, b1, l2);
    lemma_holds_inside(s, at, bytes, b2, l3);
    lemma_holds_inside(s, at, bytes, b3, l4);
    lemma_holds_inside(s, at, bytes, b4, l5);
    lemma_holds_inside(s, at, bytes, b5, l6);
    lemma_holds_inside(s, at, bytes, b6, l7);
    lemma_holds_inside(s, at, bytes, b7, l8);
    lemma_records_held(s, at, r1);
    lemma_records_held(s, at + b1, r2);
    lemma_records_held(s, at + b2, r3);
    lemma_records_held(s, at + b3, r4);
    lemma_records_held(s, at + b4, r5);
    lemma_records_held(s, at + b5, r6);
    lemma_records_held(s, at + b6, r7);
    lemma_records_held(s, at + b7, r8);
}


proof fn lemma_model_lists_held(s: Seq<u8>, at: int, data: ModelDataView)
    requires
        spec_holds(s, at, spec_model_lists_bytes(data)),
    ensures
        ({
            let a1 = at + 32 * data.element_ids.len();
            let a2 = a1 + 60 * data.lods.len();
            let a3 = a2 + 36 * data.meshes.len();
            let a4 = a3 + 4 * data.attribute_name_offsets.len();
            let a5 = a4 + 16 * data.submeshes.len();
            let a6 = a5 + 4 * data.material_name_offsets.len();
            let a7 = a6 + 4 * data.bone_name_offsets.len();
            &&& spec_model_lists_bytes(data).len() == a7 + 2 * data.bone_tables.len() - at
            &&& crate::records::spec_records::<crate::model_records::ElementId>(
                s,
                at,
                data.element_ids.len() as int,
            )
                == data.element_ids
            &&& crate::records::spec_records::<crate::model_records::MeshLod>(
                s,
                a1,
                data.lods.len() as int,
            ) == data.lods
            &&& crate::records::spec_records::<crate::model_records::Mesh>(
                s,
                a2,
                data.meshes.len() as int,
            ) == data.meshes
            &&& crate::records::spec_records::<u32>(s, a3, data.attribute_name_offsets.len() as int)
                == data.attribute_name_offsets
            &&& crate::records::spec_records::<crate::model_records::Submesh>(
                s,
                a4,
                data.submeshes.len() as int,
            )
                == data.submeshes
            &&& crate::records::spec_records::<u32>(s, a5, data.material_name_offsets.len() as int)
                == data.material_name_offsets
            &&& crate::records::spec_records::<u32>(s, a6, data.bone_name_offsets.len() as int)
                == data.bone_name_offsets
            &&& crate::records::spec_records::<u16>(s, a7, data.bone_tables.len() as int)
                == data.bone_tables
        }),
{
    reveal(spec_model_lists_bytes);
    lemma_lists_pieces_held(
        s,
        at,
        data.element_ids,
        data.lods,
        data.meshes,
        data.attribute_name_offsets,
        data.submeshes,
        data.material_name_offsets,
        data.bone_name_offsets,
        data.bone_tables,
    );
}

proof fn lemma_tail_pieces_held<B: Record>(
    s: Seq<u8>,
    at: int,
    map_size: u32,
    map: Seq<u16>,
    padding: u8,
    box1: B,
    box2: B,
    box3: B,
    box4: B,
    boxes: Seq<B>,
)
    requires
        spec_holds(
            s,
            at,
            spec_u32_le_bytes(map_size) + spec_records_bytes(map) + seq![padding] + spec_zeros(
                padding as int,
            ) + box1.spec_bytes() + box2.spec_bytes() + box3.spec_bytes() + box4.spec_bytes()
                + spec_records_bytes(boxes),
        ),
    ensures
        ({
            let k = B::spec_size();
            let map_at = at + 4;
            let padding_at = map_at + 2 * map.len();
            let boxes_at = padding_at + 1 + padding;
            &&& (spec_u32_le_bytes(map_size) + spec_records_bytes(map) + seq![padding] + spec_zeros(
                padding as int,
            ) + box1.spec_bytes() + box2.spec_bytes() + box3.spec_bytes() + box4.spec_bytes()
                + spec_records_bytes(boxes)).len() == boxes_at + 4 * k + k * boxes.len() - at
            &&& crate::binary::spec_u32_le(s, at) == map_size
            &&& crate::records::spec_records::<u16>(s, map_at, map.len() as int) == map
            &&& s[padding_at] == padding
            &&& B::spec_read(s, boxes_at) == box1
            &&& B::spec_read(s, boxes_at + k) == box2
            &&& B::spec_read(s, boxes_at + 2 * k) == box3
            &&& B::spec_read(s, boxes_at + 3 * k) == box4
            &&& crate::records::spec_records::<B>(s, boxes_at + 4 * k, boxes.len() as int)
                == boxes
        }),
{
    let t1 = spec_u32_le_bytes(map_size);
    let t2 = spec_records_bytes(map);
    let t3 = seq![padding];
    let t4 = spec_zeros(padding as int);
    let t5 = box1.spec_bytes();
    let t6 = box2.spec_bytes();
    let t7 = box3.spec_bytes();
    let t8 = box4.spec_bytes();
    let t9 = spec_records_bytes(boxes);
    let bytes = t1 + t2 + t3 + t4 + t5 + t6 + t7 + t8 + t9;
    let k = B::spec_size();
    lemma_records_bytes_len(map);
    lemma_records_bytes_len(boxes);
    box1.lemma_roundtrip(Seq::empty(), Seq::empty());
    box2.lemma_roundtrip(Seq::empty(), Seq::empty());
    box3.lemma_roundtrip(Seq::empty(), Seq::empty());
    box4.lemma_roundtrip(Seq::empty(), Seq::empty());
    let b2 = 4 + t2.len() as int;
    let b3 = b2 + 1;
    let b4 = b3 + padding;
    let x1 = t1;
    let x2 = x1 + t2;
    let x3 = x2 + t3;
    let x4 = x3 + t4;
    let x5 = x4 + t5;
    let x6 = x5 + t6;
    let x7 = x6 + t7;
    let x8 = x7 + t8;
    assert(bytes == x8 + t9);
    lemma_holds_whole(t1);
    lemma_holds_extended(x1, t2, 0, t1);
    lemma_holds_extended(x2, t3, 0, t1);
    lemma_holds_extended(x3, t4, 0, t1);
    lemma_holds_extended(x4, t5, 0, t1);
    lemma_holds_extended(x5, t6, 0, t1);
    lemma_holds_extended(x6, t7, 0, t1);
    lemma_holds_extended(x7, t8, 0, t1);
    lemma_holds_extended(x8, t9, 0, t1);
    lemma_holds_end(x1, t2);
    lemma_holds_extended(x2, t3, 4, t2);
    lemma_holds_extended(x3, t4, 4, t2);
    lemma_holds_extended(x4, t5, 4, t2);
    lemma_holds_extended(x5, t6, 4, t2);
    lemma_holds_extended(x6, t7, 4, t2);
    lemma_holds_extended(x7, t8, 4, t2);
    lemma_holds_extended(x8, t9, 4, t2);
    lemma_holds_end(x2, t3);
    lemma_holds_extended(x3, t4, b2, t3);
    lemma_holds_extended(x4, t5, b2, t3);
    lemma_holds_extended(x5, t6, b2, t3);
    lemma_holds_extended(x6, t7, b2, t3);
    lemma_holds_extended(x7, t8, b2, t3);
    lemma_holds_extended(x8, t9, b2, t3);
    lemma_holds_end(x3, t4);
    lemma_holds_extended(x4, t5, b3, t4);
    lemma_holds_extended(x5, t6, b3, t4);
    lemma_holds_extended(x6, t7, b3, t4);
    lemma_holds_extended(x7, t8, b3, t4);
    lemma_holds_extended(x8, t9, b3, t4);
    lemma_holds_end(x4, t5);
    lemma_holds_extended(x5, t6, b4, t5);
    lemma_holds_extended(x6, t7, b4, t5);
    lemma_holds_extended(x7, t8, b4, t5);
    lemma_holds_extended(x8, t9, b4, t5);
    lemma_holds_end(x5, t6);
    lemma_holds_extended(x6, t7, b4 + k, t6);
    lemma_holds_extended(x7, t8, b4 + k, t6);
    lemma_holds_extended(x8, t9, b4 + k, t6);
    lemma_holds_end(x6, t7);
    lemma_holds_extended(x7, t8, b4 + 2 * k, t7);
    lemma_holds_extended(x8, t9, b4 + 2 * k, t7);
    lemma_holds_end(x7, t8);
    lemma_holds_extended(x8, t9, b4 + 3 * k, t8);
    lemma_holds_end(x8, t9);
    lemma_holds_inside(s, at, bytes, 0, t1);
    lemma_holds_inside(s, at, bytes, 4, t2);
    lemma_holds_inside(s, at, bytes, b2, t3);
    lemma_holds_inside(s, at, bytes, b4, t5);
    lemma_holds_inside(s, at, bytes, b4 + k, t6);
    lemma_holds_inside(s, at, bytes, b4 + 2 * k, t7);
    lemma_holds_inside(s, at, bytes, b4 + 3 * k, t8);
    lemma_holds_inside(s, at, bytes, b4 + 4 * k, t9);
    lemma_u32_held(s, at, map_size);
    lemma_records_held(s, at + 4, map);
    lemma_holds(s, at + b2, t3);
    assert(s[at + b2] == t3[0]);
    lemma_record_held(s, at + b4, box1);
    lemma_record_held(s, at + b4 + k, box2);
    lemma_record_held(s, at + b4 + 2 * k, box3);
    lemma_record_held(s, at + b4 + 3 * k, box4);
    lemma_records_held(s, at + b4 + 4 * k, boxes);
}


proof fn lemma_model_tail_held(s: Seq<u8>, at: int, data: ModelDataView)
    requires
        spec_holds(s, at, spec_model_tail_bytes(data)),
    ensures
        ({
            let map_at = at + 4;
            let padding_at = map_at + 2 * data.submesh_bone_map.len();
            let boxes_at = padding_at + 1 + data.padding_amount;
            &&& spec_model_tail_bytes(data).len() == boxes_at + 128 + 32
                * data.bone_bounding_boxes.len() - at
            &&& crate::binary::spec_u32_le(s, at) == data.submesh_bone_map_size
            &&& crate::records::spec_records::<u16>(s, map_at, data.submesh_bone_map.len() as int)
                == data.submesh_bone_map
            &&& s[padding_at] == data.padding_amount
            &&& BoundingBox::spec_read(s, boxes_at) == data.bounding_box
            &&& BoundingBox::spec_read(s, boxes_at + 32) == data.model_bounding_box
            &&& BoundingBox::spec_read(s, boxes_at + 64) == data.water_bounding_box
            &&& BoundingBox::spec_read(s, boxes_at + 96) == data.vertical_fog_bounding_box
            &&& crate::records::spec_records::<BoundingBox>(
                s,
                boxes_at + 128,
                data.bone_bounding_boxes.len() as int,
            ) == data.bone_bounding_boxes
        }),
{
    reveal(spec_model_tail_bytes);
    lemma_tail_pieces_held(
        s,
        at,
        data.submesh_bone_map_size,
        data.submesh_bone_map,
        data.padding_amount,
        data.bounding_box,
        data.model_bounding_box,
        data.water_bounding_box,
        data.vertical_fog_bounding_box,
        data.bone_bounding_boxes,
    );
}

/// Where the bytes of a data block that can be stored stand in a buffer, the
/// data block is read there.
pub proof fn lemma_model_data_held(s: Seq<u8>, at: int, data: ModelDataView)
    requires
        spec_model_data_wf(data),
        spec_holds(s, at, spec_model_data_bytes(data)),
    ensures
        spec_model_data_bytes(data).len() == spec_model_data_size(data),
        spec_model_data(s, at) == Some(data),
{
    let head = spec_model_header_bytes(data.header);
    let lists = spec_model_lists_bytes(data);
    let tail = spec_model_tail_bytes(data);
    let bytes = spec_model_data_bytes(data);
    lemma_holds_whole(head);
    lemma_holds_end(head, lists);
    lemma_holds_extended(head, lists, 0, head);
    lemma_holds_end(head + lists, tail);
    lemma_holds_extended(head + lists, tail, 0, head);
    lemma_holds_extended(head + lists, tail, head.len() as int, lists);
    lemma_holds_inside(s, at, bytes, 0, head);
    lemma_holds_inside(s, at, bytes, head.len() as int, lists);
    lemma_holds_inside(s, at, bytes, (head.len() + lists.len()) as int, tail);
    lemma_model_header_held(s, at, data);
    lemma_model_lists_held(s, at + head.len(), data);
    lemma_model_tail_held(s, at + head.len() + lists.len(), data);
    lemma_holds(s, at, bytes);
    let read = spec_model_data(s, at);
    assert(read.is_some());
    assert(read.unwrap().header == data.header);
    assert(read.unwrap() == data);
}

} // verus!
