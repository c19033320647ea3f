//! What replacing the vertices of a part leaves of a model: the shapes of
//! its meshes and parts, and a layout in which every piece has its place.

use vstd::prelude::*;
use crate::model::{
    spec_model, spec_part_submeshes, spec_runtime_size, spec_stack_size, MDLView, ModelDataView,
    PartView, SubMesh,
};
use crate::model_layout::{
    lemma_lod_start_grows, lemma_streams_size_grows, lemma_totals_grow, spec_index_data_size,
    spec_index_total, spec_lod_meshes_fit, spec_lod_start, spec_min, spec_mirror_header,
    spec_offset_lod, spec_offset_lods, spec_place_lod_meshes, spec_place_mesh, spec_place_meshes,
    spec_replace_vertices, spec_size_lod, spec_size_lods, spec_stream_offset, spec_streams_size,
    spec_update_submeshes, spec_vertex_total,
};
use crate::model_records::{Mesh, MeshLod, Submesh};
use crate::model_regions::{
    lemma_ready_model_settled, lemma_ready_pieces_fit, spec_declaration_fits, spec_element_fits,
    spec_lod_end, spec_lod_laid_out, spec_mesh_placed, spec_model_fitted, spec_model_ready,
    spec_part_arranged, spec_part_declaration, spec_part_fitted, spec_part_mesh,
};
use crate::model_roundtrip::{
    lemma_model_reread, spec_described_model, spec_lod_shaped, spec_model_floor, spec_model_shaped,
    spec_part_shaped, spec_part_writable, spec_parts_writable, spec_vertex_declared,
    spec_vertex_writable,
};
use crate::model_stored::{spec_file_header_wf, spec_model_data_wf};
use crate::model_vertex::Vertex;
use crate::model_writable::{lemma_model_writes, spec_model_writable};
use crate::model_write::spec_write_model;

verus! {

/// The two meshes differ at most in their places: the first index and the
/// offsets of the streams.
pub open spec fn spec_same_shape(a: Mesh, b: Mesh) -> bool {
    &&& a.vertex_count == b.vertex_count
    &&& a.index_count == b.index_count
    &&& a.material_index == b.material_index
    &&& a.submesh_index == b.submesh_index
    &&& a.submesh_count == b.submesh_count
    &&& a.bone_table_index == b.bone_table_index
    &&& a.vertex_buffer_strides == b.vertex_buffer_strides
    &&& a.vertex_stream_count == b.vertex_stream_count
}

/// The two lists have as many meshes, which differ at most in their places.
pub open spec fn spec_same_shapes(a: Seq<Mesh>, b: Seq<Mesh>) -> bool {
    &&& a.len() == b.len()
    &&& forall|j: int| 0 <= j < a.len() ==> spec_same_shape(#[trigger] a[j], b[j])
}

/// The two levels of detail share no mesh.
pub open spec fn spec_ranges_apart(a: MeshLod, b: MeshLod) -> bool {
    a.mesh_index + a.mesh_count <= b.mesh_index || b.mesh_index + b.mesh_count <= a.mesh_index
}

/// No two of the first `count` levels of detail share a mesh.
pub open spec fn spec_lods_disjoint(lods: Seq<MeshLod>, count: int) -> bool {
    forall|a: int, b: int|
        0 <= a < b < count ==> spec_ranges_apart(#[trigger] lods[a], #[trigger] lods[b])
}

/// The model has the meshes of the level of detail, and each has its place.
pub open spec fn spec_lod_placed(meshes: Seq<Mesh>, lod: MeshLod) -> bool {
    &&& lod.mesh_index + lod.mesh_count <= meshes.len()
    &&& forall|j: int|
        lod.mesh_index <= j < lod.mesh_index + lod.mesh_count ==> #[trigger] spec_mesh_placed(
            meshes,
            lod.mesh_index as int,
            j,
        )
}

proof fn lemma_streams_same(a: Mesh, b: Mesh, streams: int)
    requires
        spec_same_shape(a, b),
    ensures
        spec_streams_size(a, streams) == spec_streams_size(b, streams),
    decreases streams,
{
    if streams > 0 {
        lemma_streams_same(a, b, streams - 1);
    }
}

proof fn lemma_totals_same(a: Seq<Mesh>, b: Seq<Mesh>, first: int, upto: int)
    requires
        spec_same_shapes(a, b),
        0 <= first,
        upto <= a.len(),
    ensures
        spec_index_total(a, first, upto) == spec_index_total(b, first, upto),
        spec_vertex_total(a, first, upto) == spec_vertex_total(b, first, upto),
    decreases upto - first,
{
    if first < upto {
        lemma_totals_same(a, b, first, upto - 1);
        assert(spec_same_shape(a[upto - 1], b[upto - 1]));
        lemma_streams_same(a[upto - 1], b[upto - 1], a[upto - 1].vertex_stream_count as int);
    }
}

proof fn lemma_mesh_placed_same(a: Seq<Mesh>, b: Seq<Mesh>, first: int, j: int)
    requires
        spec_same_shapes(a, b),
        0 <= first <= j < a.len(),
        a[j] == b[j],
        spec_mesh_placed(a, first, j),
    ensures
        spec_mesh_placed(b, first, j),
{
    lemma_totals_same(a, b, first, j);
}

proof fn lemma_place_lod(meshes: Seq<Mesh>, lod: MeshLod)
    requires
        spec_lod_meshes_fit(meshes, lod),
    ensures
        spec_same_shapes(meshes, spec_place_lod_meshes(meshes, lod)),
        spec_lod_placed(spec_place_lod_meshes(meshes, lod), lod),
        forall|j: int|
            0 <= j < meshes.len() && !(lod.mesh_index <= j < lod.mesh_index + lod.mesh_count)
                ==> #[trigger] spec_place_lod_meshes(meshes, lod)[j] == meshes[j],
{
    let placed = spec_place_lod_meshes(meshes, lod);
    let first = lod.mesh_index as int;
    let end = lod.mesh_index + lod.mesh_count;
    assert(spec_same_shapes(meshes, placed));
    assert forall|j: int| first <= j < end implies #[trigger] spec_mesh_placed(
        placed,
        first,
        j,
    ) by {
        let mesh = meshes[j];
        assert(mesh.vertex_stream_count <= 3);
        assert(placed[j] == spec_place_mesh(meshes, first, j));
        lemma_totals_grow(meshes, first, j, end);
        lemma_totals_grow(meshes, first, j + 1, end);
        lemma_totals_same(meshes, placed, first, j);
        assert forall|t: int| 0 <= t < placed[j].vertex_stream_count implies #[trigger] placed[j].vertex_buffer_offsets[t]
            == spec_vertex_total(placed, first, j) + spec_streams_size(placed[j], t) by {
            lemma_streams_size_grows(mesh, t, mesh.vertex_stream_count as int);
            lemma_streams_same(mesh, placed[j], t);
            assert(placed[j].vertex_buffer_offsets[t] == spec_stream_offset(meshes, first, j, t));
        }
    }
}

/// Giving the meshes their places changes nothing but the places, and
/// leaves every mesh of the levels of detail at its place, where no two
/// levels share a mesh.
pub proof fn lemma_place_meshes(meshes: Seq<Mesh>, lods: Seq<MeshLod>, count: int)
    requires
        0 <= count <= lods.len(),
        spec_place_meshes(meshes, lods, count).is_some(),
        spec_lods_disjoint(lods, count),
    ensures
        spec_same_shapes(meshes, spec_place_meshes(meshes, lods, count).unwrap()),
        forall|i: int|
            0 <= i < count ==> spec_lod_placed(
                spec_place_meshes(meshes, lods, count).unwrap(),
                #[trigger] lods[i],
            ),
    decreases count,
{
    if count > 0 {
        let before = spec_place_meshes(meshes, lods, count - 1).unwrap();
        let lod = lods[count - 1];
        let placed = spec_place_lod_meshes(before, lod);
        lemma_place_meshes(meshes, lods, count - 1);
        lemma_place_lod(before, lod);
        assert(spec_same_shapes(meshes, placed)) by {
            assert forall|j: int| 0 <= j < meshes.len() implies spec_same_shape(
                #[trigger] meshes[j],
                placed[j],
            ) by {
                assert(spec_same_shape(meshes[j], before[j]));
                assert(spec_same_shape(before[j], placed[j]));
            }
        }
        assert forall|i: int| 0 <= i < count implies spec_lod_placed(placed, #[trigger] lods[i]) by {
            if i < count - 1 {
                let other = lods[i];
                assert(spec_lod_placed(before, other));
                assert(spec_ranges_apart(lods[i], lods[count - 1]));
                assert forall|j: int|
                    other.mesh_index <= j < other.mesh_index
                        + other.mesh_count implies #[trigger] spec_mesh_placed(
                    placed,
                    other.mesh_index as int,
                    j,
                ) by {
                    assert(spec_mesh_placed(before, other.mesh_index as int, j));
                    assert(placed[j] == before[j]);
                    lemma_mesh_placed_same(before, placed, other.mesh_index as int, j);
                }
            }
        }
    }
}

/// The meshes of the model with the numbers of the new vertices and indices
/// in the mesh of the part.
pub open spec fn spec_counted_meshes(
    model: MDLView,
    lod_index: int,
    part_index: int,
    vertices: Seq<Vertex>,
    indices: Seq<u16>,
) -> Seq<Mesh> {
    let at = model.lods[lod_index][part_index].mesh_index as int;
    model.model_data.meshes.update(
        at,
        Mesh {
            vertex_count: vertices.len() as u16,
            index_count: indices.len() as u32,
            ..model.model_data.meshes[at]
        },
    )
}

/// Where the data of the first level of detail begins after replacing: behind
/// the 68 bytes of the file header, the stack size and the runtime size.
pub open spec fn spec_data_start(model: MDLView) -> int {
    spec_runtime_size(model.model_data) + 68 + spec_stack_size(
        model.file_header.vertex_declaration_count,
    )
}

/// The parts of the model with the new vertices and indices in the part.
pub open spec fn spec_replaced_lods(
    model: MDLView,
    lod_index: int,
    part_index: int,
    vertices: Seq<Vertex>,
    indices: Seq<u16>,
) -> Seq<Seq<PartView>> {
    model.lods.update(
        lod_index,
        model.lods[lod_index].update(
            part_index,
            PartView { vertices, indices, ..model.lods[lod_index][part_index] },
        ),
    )
}

proof fn lemma_update_submeshes_len(
    records: Seq<Submesh>,
    part_submeshes: Seq<SubMesh>,
    given: Seq<SubMesh>,
    runs: int,
)
    requires
        0 <= runs <= part_submeshes.len(),
        forall|j: int| 0 <= j < runs ==> (#[trigger] part_submeshes[j]).submesh_index < records.len(),
    ensures
        spec_update_submeshes(records, part_submeshes, given, runs).len() == records.len(),
    decreases runs,
{
    if runs > 0 {
        lemma_update_submeshes_len(records, part_submeshes, given, runs - 1);
        assert(part_submeshes[runs - 1].submesh_index < records.len());
    }
}

/// What the model after replacing is made of.
proof fn lemma_replaced_made(
    model: MDLView,
    lod_index: int,
    part_index: int,
    vertices: Seq<Vertex>,
    indices: Seq<u16>,
    submeshes: Seq<SubMesh>,
)
    requires
        spec_replace_vertices(model, lod_index, part_index, vertices, indices, submeshes).is_some(),
    ensures
        ({
            let replaced = spec_replace_vertices(
                model,
                lod_index,
                part_index,
                vertices,
                indices,
                submeshes,
            ).unwrap();
            let data = model.model_data;
            let counted = spec_counted_meshes(model, lod_index, part_index, vertices, indices);
            let placed = spec_place_meshes(counted, data.lods, model.file_header.lod_count as int);
            let sized = spec_size_lods(placed.unwrap(), data.lods);
            let lods = spec_offset_lods(sized.unwrap(), spec_data_start(model));
            &&& 0 <= lod_index < model.lods.len()
            &&& 0 <= part_index < model.lods[lod_index].len()
            &&& model.lods.len() <= 3
            &&& model.lods.len() <= data.lods.len()
            &&& model.file_header.lod_count <= data.lods.len()
            &&& vertices.len() <= 0xFFFF
            &&& indices.len() <= 0xFFFF_FFFF
            &&& model.lods[lod_index][part_index].mesh_index < data.meshes.len()
            &&& spec_data_start(model) <= u32::MAX
            &&& placed.is_some()
            &&& sized.is_some()
            &&& lods.is_some()
            &&& replaced.model_data.meshes == placed.unwrap()
            &&& replaced.model_data.lods == lods.unwrap()
            &&& replaced.model_data.submeshes.len() == data.submeshes.len()
            &&& replaced.model_data == (ModelDataView {
                submeshes: replaced.model_data.submeshes,
                meshes: placed.unwrap(),
                lods: lods.unwrap(),
                ..data
            })
            &&& replaced.file_header == spec_mirror_header(
                model.file_header,
                spec_stack_size(model.file_header.vertex_declaration_count) as u32,
                spec_runtime_size(data) as u32,
                lods.unwrap(),
                model.lods.len() as int,
            )
            &&& replaced.lods == spec_replaced_lods(
                model,
                lod_index,
                part_index,
                vertices,
                indices,
            )
            &&& replaced.affected_bone_names == model.affected_bone_names
            &&& replaced.material_names == model.material_names
        }),
{
    let part = model.lods[lod_index][part_index];
    let runs = spec_min(part.submeshes.len() as int, submeshes.len() as int);
    lemma_update_submeshes_len(model.model_data.submeshes, part.submeshes, submeshes, runs);
}

/// What sizing and offsetting the levels of detail gives level `i`: its
/// meshes stay the same, its vertex data begins where the level before it
/// ends, and its index data follows its vertex data.
proof fn lemma_lod_offsets(meshes: Seq<Mesh>, lods: Seq<MeshLod>, start: int, i: int)
    requires
        0 <= start,
        0 <= i < lods.len(),
        spec_size_lods(meshes, lods).is_some(),
        spec_offset_lods(spec_size_lods(meshes, lods).unwrap(), start).is_some(),
    ensures
        ({
            let sized = spec_size_lods(meshes, lods).unwrap();
            let placed = spec_offset_lods(sized, start).unwrap();
            let first = lods[i].mesh_index as int;
            let end = lods[i].mesh_index + lods[i].mesh_count;
            let at = spec_lod_start(sized, start, i);
            &&& placed.len() == lods.len()
            &&& placed[i].mesh_index == lods[i].mesh_index
            &&& placed[i].mesh_count == lods[i].mesh_count
            &&& spec_lod_meshes_fit(meshes, lods[i])
            &&& start <= at
            &&& placed[i].vertex_data_offset == at
            &&& placed[i].index_data_offset == at + spec_vertex_total(meshes, first, end)
            &&& spec_lod_start(sized, start, i + 1) == at + spec_vertex_total(meshes, first, end)
                + spec_index_data_size(meshes, lods[i])
            &&& 2 * spec_index_total(meshes, first, end) <= spec_index_data_size(meshes, lods[i])
            &&& 0 <= spec_vertex_total(meshes, first, end)
            &&& spec_lod_start(sized, start, i + 1) <= u32::MAX
        }),
{
    let sized = spec_size_lods(meshes, lods).unwrap();
    let placed = spec_offset_lods(sized, start).unwrap();
    let first = lods[i].mesh_index as int;
    let end = lods[i].mesh_index + lods[i].mesh_count;
    assert(spec_size_lod(meshes, lods[i]).is_some());
    assert(sized[i] == spec_size_lod(meshes, lods[i]).unwrap());
    assert(placed[i] == spec_offset_lod(sized, start, i));
    lemma_lod_start_grows(sized, start, 0, i);
    lemma_lod_start_grows(sized, start, i + 1, sized.len() as int);
    lemma_totals_grow(meshes, first, end, end);
}

/// Replacing can lay the model out so that every piece has its place: the
/// file header counts the levels of detail that the model has, no two of
/// them share a mesh, the data block has at most seven bytes of padding, and
/// the new vertices can be written by the declaration of the part and have
/// nothing but zeros in the attributes that it leaves out.
pub open spec fn spec_replace_fits(
    model: MDLView,
    lod_index: int,
    part_index: int,
    vertices: Seq<Vertex>,
) -> bool {
    &&& model.file_header.lod_count == model.lods.len()
    &&& spec_lods_disjoint(model.model_data.lods, model.lods.len() as int)
    &&& model.model_data.padding_amount <= 7
    &&& forall|k: int|
        0 <= k < vertices.len() ==> spec_vertex_declared(
            #[trigger] vertices[k],
            spec_part_declaration(model, lod_index, part_index),
        )
    &&& forall|k: int|
        0 <= k < vertices.len() ==> spec_vertex_writable(
            spec_part_declaration(model, lod_index, part_index),
            #[trigger] vertices[k],
        )
}

proof fn lemma_replaced_meshes(
    model: MDLView,
    lod_index: int,
    part_index: int,
    vertices: Seq<Vertex>,
    indices: Seq<u16>,
    submeshes: Seq<SubMesh>,
)
    requires
        spec_model_shaped(model),
        spec_replace_fits(model, lod_index, part_index, vertices),
        spec_replace_vertices(model, lod_index, part_index, vertices, indices, submeshes).is_some(),
    ensures
        ({
            let replaced = spec_replace_vertices(
                model,
                lod_index,
                part_index,
                vertices,
                indices,
                submeshes,
            ).unwrap();
            let counted = spec_counted_meshes(model, lod_index, part_index, vertices, indices);
            &&& spec_same_shapes(counted, replaced.model_data.meshes)
            &&& counted.len() == model.model_data.meshes.len()
            &&& forall|i: int|
                0 <= i < model.lods.len() ==> spec_lod_placed(
                    replaced.model_data.meshes,
                    #[trigger] model.model_data.lods[i],
                )
        }),
{
    lemma_replaced_made(model, lod_index, part_index, vertices, indices, submeshes);
    let counted = spec_counted_meshes(model, lod_index, part_index, vertices, indices);
    lemma_place_meshes(counted, model.model_data.lods, model.file_header.lod_count as int);
}

/// A part of the model after replacing has the shape that the data block
/// gives it, and its declaration fits its mesh as before.
proof fn lemma_replaced_part(
    model: MDLView,
    lod_index: int,
    part_index: int,
    vertices: Seq<Vertex>,
    indices: Seq<u16>,
    submeshes: Seq<SubMesh>,
    i: int,
    p: int,
)
    requires
        spec_model_shaped(model),
        spec_model_fitted(model),
        spec_replace_fits(model, lod_index, part_index, vertices),
        spec_replace_vertices(model, lod_index, part_index, vertices, indices, submeshes).is_some(),
        0 <= i < model.lods.len(),
        0 <= p < model.lods[i].len(),
    ensures
        ({
            let replaced = spec_replace_vertices(
                model,
                lod_index,
                part_index,
                vertices,
                indices,
                submeshes,
            ).unwrap();
            &&& replaced.lods.len() == model.lods.len()
            &&& replaced.lods[i].len() == model.lods[i].len()
            &&& spec_part_shaped(
                replaced.file_header,
                replaced.model_data,
                i,
                p,
                replaced.lods[i][p],
            )
            &&& spec_part_fitted(replaced, i, p)
        }),
{
    let replaced = spec_replace_vertices(
        model,
        lod_index,
        part_index,
        vertices,
        indices,
        submeshes,
    ).unwrap();
    let data = model.model_data;
    let header = model.file_header;
    lemma_replaced_made(model, lod_index, part_index, vertices, indices, submeshes);
    lemma_replaced_meshes(model, lod_index, part_index, vertices, indices, submeshes);
    lemma_lod_offsets(
        replaced.model_data.meshes,
        data.lods,
        spec_data_start(model),
        i,
    );
    let counted = spec_counted_meshes(model, lod_index, part_index, vertices, indices);
    let changed = model.lods[lod_index][part_index].mesh_index as int;
    assert(spec_lod_shaped(header, data, i, model.lods[i]));
    assert(spec_part_shaped(header, data, i, p, model.lods[i][p]));
    assert(spec_lod_shaped(header, data, lod_index, model.lods[lod_index]));
    assert(spec_part_shaped(
        header,
        data,
        lod_index,
        part_index,
        model.lods[lod_index][part_index],
    ));
    assert(spec_part_fitted(model, i, p));
    let at = data.lods[i].mesh_index + p;
    assert(model.lods[i][p].mesh_index == at);
    assert(spec_same_shape(counted[at], replaced.model_data.meshes[at]));
    if i == lod_index && p == part_index {
        assert(at == changed);
    } else {
        if i != lod_index {
            if i < lod_index {
                assert(spec_ranges_apart(data.lods[i], data.lods[lod_index]));
            } else {
                assert(spec_ranges_apart(data.lods[lod_index], data.lods[i]));
            }
        }
        assert(at != changed);
        assert(counted[at] == data.meshes[at]);
        assert(replaced.lods[i][p] == model.lods[i][p]);
    }
    let mesh = replaced.model_data.meshes[at];
    let elements = header.vertex_declarations[at];
    assert(spec_part_declaration(replaced, i, p) == elements);
    assert(spec_part_mesh(replaced, i, p) == mesh);
    assert(spec_declaration_fits(mesh, elements)) by {
        assert(spec_declaration_fits(data.meshes[at], elements));
        assert forall|j: int| 0 <= j < elements.len() implies spec_element_fits(
            mesh,
            #[trigger] elements[j],
        ) by {
            assert(spec_element_fits(data.meshes[at], elements[j]));
        }
    }
    assert(spec_part_submeshes(mesh, replaced.model_data.submeshes).is_some());
}

/// The data block of a model that can be stored is counted in full by the
/// runtime size when it has at most seven bytes of padding.
proof fn lemma_floor_before_start(model: MDLView)
    requires
        spec_model_data_wf(model.model_data),
        model.model_data.padding_amount <= 7,
    ensures
        spec_model_floor(model) <= spec_data_start(model),
{
}

/// A level of detail of the model after replacing is laid out.
proof fn lemma_replaced_lod(
    model: MDLView,
    lod_index: int,
    part_index: int,
    vertices: Seq<Vertex>,
    indices: Seq<u16>,
    submeshes: Seq<SubMesh>,
    i: int,
)
    requires
        spec_model_shaped(model),
        spec_replace_fits(model, lod_index, part_index, vertices),
        spec_replace_vertices(model, lod_index, part_index, vertices, indices, submeshes).is_some(),
        0 <= i < model.lods.len(),
    ensures
        spec_lod_laid_out(
            spec_replace_vertices(
                model,
                lod_index,
                part_index,
                vertices,
                indices,
                submeshes,
            ).unwrap(),
            i,
        ),
{
    let replaced = spec_replace_vertices(
        model,
        lod_index,
        part_index,
        vertices,
        indices,
        submeshes,
    ).unwrap();
    let data = model.model_data;
    let meshes = replaced.model_data.meshes;
    let start = spec_data_start(model);
    lemma_replaced_made(model, lod_index, part_index, vertices, indices, submeshes);
    lemma_replaced_meshes(model, lod_index, part_index, vertices, indices, submeshes);
    lemma_lod_offsets(meshes, data.lods, start, i);
    assert(spec_lod_placed(meshes, data.lods[i]));
    assert(replaced.file_header.index_offsets[i] == replaced.model_data.lods[i].index_data_offset);
    if i == 0 {
        lemma_floor_before_start(model);
        assert(spec_model_floor(replaced) == spec_model_floor(model));
    } else {
        lemma_lod_offsets(meshes, data.lods, start, i - 1);
        assert(replaced.file_header.index_offsets[i - 1] == replaced.model_data.lods[i
            - 1].index_data_offset);
    }
}

/// A part of the model after replacing can be written, where every part
/// could be written before and the new vertices can.
proof fn lemma_replaced_part_writable(
    model: MDLView,
    lod_index: int,
    part_index: int,
    vertices: Seq<Vertex>,
    indices: Seq<u16>,
    submeshes: Seq<SubMesh>,
    i: int,
    p: int,
)
    requires
        spec_model_shaped(model),
        spec_model_writable(model),
        spec_replace_fits(model, lod_index, part_index, vertices),
        spec_replace_vertices(model, lod_index, part_index, vertices, indices, submeshes).is_some(),
        0 <= i < model.lods.len(),
        0 <= p < model.lods[i].len(),
    ensures
        ({
            let replaced = spec_replace_vertices(
                model,
                lod_index,
                part_index,
                vertices,
                indices,
                submeshes,
            ).unwrap();
            spec_part_writable(replaced.file_header, replaced.model_data, replaced.lods[i][p])
        }),
{
    let replaced = spec_replace_vertices(
        model,
        lod_index,
        part_index,
        vertices,
        indices,
        submeshes,
    ).unwrap();
    lemma_replaced_made(model, lod_index, part_index, vertices, indices, submeshes);
    lemma_replaced_meshes(model, lod_index, part_index, vertices, indices, submeshes);
    let part = replaced.lods[i][p];
    let elements = model.file_header.vertex_declarations[part.mesh_index as int];
    assert(spec_parts_writable(model.file_header, model.model_data, model.lods[i]));
    assert(spec_part_writable(model.file_header, model.model_data, model.lods[i][p]));
    assert(part.mesh_index == model.lods[i][p].mesh_index);
    if i == lod_index && p == part_index {
        assert(elements == spec_part_declaration(model, lod_index, part_index));
        assert forall|k: int| 0 <= k < part.vertices.len() implies spec_vertex_writable(
            elements,
            #[trigger] part.vertices[k],
        ) by {
            assert(part.vertices[k] == vertices[k]);
        }
    } else {
        assert(part == model.lods[i][p]);
    }
}

/// The data of a level of detail of the model after replacing ends where 32
/// bits can still address it.
proof fn lemma_replaced_lod_end(
    model: MDLView,
    lod_index: int,
    part_index: int,
    vertices: Seq<Vertex>,
    indices: Seq<u16>,
    submeshes: Seq<SubMesh>,
    i: int,
)
    requires
        spec_replace_vertices(model, lod_index, part_index, vertices, indices, submeshes).is_some(),
        0 <= i < model.lods.len(),
    ensures
        spec_lod_end(
            spec_replace_vertices(
                model,
                lod_index,
                part_index,
                vertices,
                indices,
                submeshes,
            ).unwrap(),
            i,
        ) <= u32::MAX,
{
    let replaced = spec_replace_vertices(
        model,
        lod_index,
        part_index,
        vertices,
        indices,
        submeshes,
    ).unwrap();
    lemma_replaced_made(model, lod_index, part_index, vertices, indices, submeshes);
    lemma_lod_offsets(
        replaced.model_data.meshes,
        model.model_data.lods,
        spec_data_start(model),
        i,
    );
    assert(replaced.file_header.index_offsets[i] == replaced.model_data.lods[i].index_data_offset);
}

/// After the vertices and indices of a part have been replaced, every piece
/// of the model has its place.
pub proof fn lemma_replaced_model_ready(
    model: MDLView,
    lod_index: int,
    part_index: int,
    vertices: Seq<Vertex>,
    indices: Seq<u16>,
    submeshes: Seq<SubMesh>,
)
    requires
        spec_model_shaped(model),
        spec_model_fitted(model),
        spec_model_writable(model),
        spec_replace_fits(model, lod_index, part_index, vertices),
        spec_replace_vertices(model, lod_index, part_index, vertices, indices, submeshes).is_some(),
    ensures
        spec_model_ready(
            spec_replace_vertices(model, lod_index, part_index, vertices, indices, submeshes).unwrap(),
        ),
{
    let replaced = spec_replace_vertices(
        model,
        lod_index,
        part_index,
        vertices,
        indices,
        submeshes,
    ).unwrap();
    let header = replaced.file_header;
    let data = replaced.model_data;
    lemma_replaced_made(model, lod_index, part_index, vertices, indices, submeshes);
    lemma_replaced_meshes(model, lod_index, part_index, vertices, indices, submeshes);
    assert(replaced.lods.len() == model.lods.len());
    assert forall|i: int| 0 <= i < replaced.lods.len() implies spec_lod_shaped(
        header,
        data,
        i,
        #[trigger] replaced.lods[i],
    ) by {
        lemma_lod_offsets(data.meshes, model.model_data.lods, spec_data_start(model), i);
        assert(spec_lod_shaped(
            model.file_header,
            model.model_data,
            i,
            model.lods[i],
        ));
        assert(replaced.lods[i].len() == model.lods[i].len());
        assert forall|p: int| 0 <= p < replaced.lods[i].len() implies spec_part_shaped(
            header,
            data,
            i,
            p,
            #[trigger] replaced.lods[i][p],
        ) by {
            lemma_replaced_part(model, lod_index, part_index, vertices, indices, submeshes, i, p);
        }
    }
    assert(spec_file_header_wf(header));
    assert(spec_model_data_wf(data));
    assert(spec_model_shaped(replaced));
    assert forall|i: int| 0 <= i < replaced.lods.len() implies #[trigger] spec_lod_laid_out(
        replaced,
        i,
    ) by {
        lemma_replaced_lod(model, lod_index, part_index, vertices, indices, submeshes, i);
    }
    assert forall|i: int, p: int|
        0 <= i < replaced.lods.len() && 0 <= p
            < replaced.lods[i].len() implies #[trigger] spec_part_arranged(replaced, i, p) by {
        assert(replaced.lods[i].len() == model.lods[i].len()) by {
            lemma_replaced_part(model, lod_index, part_index, vertices, indices, submeshes, i, 0);
        }
        lemma_replaced_part(model, lod_index, part_index, vertices, indices, submeshes, i, p);
        lemma_replaced_part_writable(
            model,
            lod_index,
            part_index,
            vertices,
            indices,
            submeshes,
            i,
            p,
        );
        assert(spec_part_fitted(replaced, i, p));
    }
}

/// After the vertices and indices of a part have been replaced, the model
/// can be written, and the model that is read from what is written is the
/// model after replacing, with the submeshes of every part as the data block
/// records them: the part has the new vertices and indices, and the file
/// header and the data block have the offsets and sizes that replacing
/// computed.
///
/// This holds where the parts of the model have the shapes that its data
/// block gives them, declarations that fit their meshes and vertices that
/// can be written, and where replacing can lay the model out.
pub proof fn lemma_replaced_model_read(
    model: MDLView,
    lod_index: int,
    part_index: int,
    vertices: Seq<Vertex>,
    indices: Seq<u16>,
    submeshes: Seq<SubMesh>,
)
    requires
        spec_model_shaped(model),
        spec_model_fitted(model),
        spec_model_writable(model),
        spec_replace_fits(model, lod_index, part_index, vertices),
        spec_replace_vertices(model, lod_index, part_index, vertices, indices, submeshes).is_some(),
    ensures
        ({
            let replaced = spec_replace_vertices(
                model,
                lod_index,
                part_index,
                vertices,
                indices,
                submeshes,
            ).unwrap();
            let written = spec_write_model(replaced);
            let read = spec_model(written.unwrap());
            &&& written.is_some()
            &&& read == Some(spec_described_model(replaced))
            &&& read.unwrap().file_header == replaced.file_header
            &&& read.unwrap().model_data == replaced.model_data
            &&& 0 <= lod_index < read.unwrap().lods.len()
            &&& 0 <= part_index < read.unwrap().lods[lod_index].len()
            &&& read.unwrap().lods[lod_index][part_index].vertices == vertices
            &&& read.unwrap().lods[lod_index][part_index].indices == indices
        }),
{
    let replaced = spec_replace_vertices(
        model,
        lod_index,
        part_index,
        vertices,
        indices,
        submeshes,
    ).unwrap();
    lemma_replaced_made(model, lod_index, part_index, vertices, indices, submeshes);
    lemma_replaced_model_ready(model, lod_index, part_index, vertices, indices, submeshes);
    assert forall|i: int| 0 <= i < replaced.lods.len() implies #[trigger] spec_lod_end(
        replaced,
        i,
    ) <= usize::MAX by {
        lemma_replaced_lod_end(model, lod_index, part_index, vertices, indices, submeshes, i);
    }
    lemma_ready_pieces_fit(replaced);
    assert(spec_model_writable(replaced)) by {
        assert forall|i: int| 0 <= i < replaced.lods.len() implies spec_parts_writable(
            replaced.file_header,
            replaced.model_data,
            #[trigger] replaced.lods[i],
        ) by {
            assert forall|p: int| 0 <= p < replaced.lods[i].len() implies spec_part_writable(
                replaced.file_header,
                replaced.model_data,
                #[trigger] replaced.lods[i][p],
            ) by {
                assert(spec_part_arranged(replaced, i, p));
            }
        }
    }
    lemma_model_writes(replaced);
    lemma_ready_model_settled(replaced);
    lemma_model_reread(replaced);
}

} // verus!
