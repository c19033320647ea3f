//! Where the vertex and index data of a model lie: the offsets and sizes that
//! follow from the number of vertices and indices of each mesh.

use vstd::prelude::*;
use crate::model::{
    spec_lod_views, spec_runtime_size, spec_stack_size, MDLView, ModelDataView,
    ModelFileHeaderView, PartView, SubMesh, MDL,
};
use crate::model_records::{Mesh, MeshLod, Submesh};
use crate::model_vertex::Vertex;

verus! {

/// The number of indices of the meshes from `first` up to `upto`.
pub open spec fn spec_index_total(meshes: Seq<Mesh>, first: int, upto: int) -> int
    decreases upto - first,
{
    if upto <= first {
        0
    } else {
        spec_index_total(meshes, first, upto - 1) + meshes[upto - 1].index_count
    }
}

/// The number of bytes of the first `streams` vertex streams of a mesh: for
/// each stream, the number of vertices times the stride of the stream.
pub open spec fn spec_streams_size(mesh: Mesh, streams: int) -> int
    decreases streams,
{
    if streams <= 0 {
        0
    } else {
        spec_streams_size(mesh, streams - 1) + mesh.vertex_count * mesh.vertex_buffer_strides[streams
            - 1]
    }
}

/// The number of bytes of the vertex data of a mesh.
pub open spec fn spec_mesh_vertex_size(mesh: Mesh) -> int {
    spec_streams_size(mesh, mesh.vertex_stream_count as int)
}

/// The number of bytes of the vertex data of the meshes from `first` up to `upto`.
pub open spec fn spec_vertex_total(meshes: Seq<Mesh>, first: int, upto: int) -> int
    decreases upto - first,
{
    if upto <= first {
        0
    } else {
        spec_vertex_total(meshes, first, upto - 1) + spec_mesh_vertex_size(meshes[upto - 1])
    }
}

/// The meshes of a level of detail can be laid out: the model has them all,
/// none has more than three vertex streams, and the totals fit in 32 bits.
pub open spec fn spec_lod_meshes_fit(meshes: Seq<Mesh>, lod: MeshLod) -> bool {
    let first = lod.mesh_index as int;
    let end = lod.mesh_index + lod.mesh_count;
    &&& end <= meshes.len()
    &&& forall|j: int| first <= j < end ==> (#[trigger] meshes[j]).vertex_stream_count <= 3
    &&& spec_index_total(meshes, first, end) <= u32::MAX
    &&& spec_vertex_total(meshes, first, end) <= u32::MAX
}

/// Where stream `stream` of mesh `j` starts inside the vertex data of the level
/// of detail that begins with mesh `first`: after the vertex data of the
/// meshes before it and the streams of the mesh before it. A stream that the
/// mesh does not have keeps its offset.
pub open spec fn spec_stream_offset(meshes: Seq<Mesh>, first: int, j: int, stream: int) -> u32 {
    if stream < meshes[j].vertex_stream_count {
        (spec_vertex_total(meshes, first, j) + spec_streams_size(meshes[j], stream)) as u32
    } else {
        meshes[j].vertex_buffer_offsets[stream]
    }
}

/// Mesh `j` with its place inside the level of detail that begins with mesh
/// `first`: its first index comes after the indices of the meshes before it,
/// its streams after their vertex data.
pub open spec fn spec_place_mesh(meshes: Seq<Mesh>, first: int, j: int) -> Mesh {
    Mesh {
        start_index: spec_index_total(meshes, first, j) as u32,
        vertex_buffer_offsets: [
            spec_stream_offset(meshes, first, j, 0),
            spec_stream_offset(meshes, first, j, 1),
            spec_stream_offset(meshes, first, j, 2),
        ],
        ..meshes[j]
    }
}

/// The meshes after those of one level of detail have been given their places.
pub open spec fn spec_place_lod_meshes(meshes: Seq<Mesh>, lod: MeshLod) -> Seq<Mesh> {
    Seq::new(
        meshes.len(),
        |j: int|
            if lod.mesh_index <= j < lod.mesh_index + lod.mesh_count {
                spec_place_mesh(meshes, lod.mesh_index as int, j)
            } else {
                meshes[j]
            },
    )
}

/// The meshes after those of the first `count` levels of detail have been
/// given their places, level by level. There are none where the meshes of a
/// level cannot be laid out.
pub open spec fn spec_place_meshes(meshes: Seq<Mesh>, lods: Seq<MeshLod>, count: int) -> Option<
    Seq<Mesh>,
>
    decreases count,
{
    if count <= 0 {
        Some(meshes)
    } else {
        match spec_place_meshes(meshes, lods, count - 1) {
            None => None,
            Some(placed) => if spec_lod_meshes_fit(placed, lods[count - 1]) {
                Some(spec_place_lod_meshes(placed, lods[count - 1]))
            } else {
                None
            },
        }
    }
}

/// The number of bytes that is added to `size` to reach a multiple of 16.
pub open spec fn spec_index_padding(size: int) -> int {
    if size % 16 == 0 {
        0
    } else {
        16 - size % 16
    }
}

/// The size of the index data of a level of detail: two bytes for each index,
/// padded to a multiple of 16.
pub open spec fn spec_index_data_size(meshes: Seq<Mesh>, lod: MeshLod) -> int {
    let size = 2 * spec_index_total(meshes, lod.mesh_index as int, lod.mesh_index + lod.mesh_count);
    size + spec_index_padding(size)
}

/// The size of the vertex data of a level of detail.
pub open spec fn spec_vertex_data_size(meshes: Seq<Mesh>, lod: MeshLod) -> int {
    spec_vertex_total(meshes, lod.mesh_index as int, lod.mesh_index + lod.mesh_count)
}

/// The level of detail with the sizes of its vertex and index data, if its
/// meshes can be laid out and the size of the index data fits in 32 bits.
pub open spec fn spec_size_lod(meshes: Seq<Mesh>, lod: MeshLod) -> Option<MeshLod> {
    if spec_lod_meshes_fit(meshes, lod) && spec_index_data_size(meshes, lod) <= u32::MAX {
        Some(
            MeshLod {
                vertex_buffer_size: spec_vertex_data_size(meshes, lod) as u32,
                index_buffer_size: spec_index_data_size(meshes, lod) as u32,
                ..lod
            },
        )
    } else {
        None
    }
}

/// Every level of detail with the sizes of its data, if each has them.
pub open spec fn spec_size_lods(meshes: Seq<Mesh>, lods: Seq<MeshLod>) -> Option<Seq<MeshLod>> {
    if forall|i: int| 0 <= i < lods.len() ==> spec_size_lod(meshes, #[trigger] lods[i]).is_some() {
        Some(Seq::new(lods.len(), |i: int| spec_size_lod(meshes, lods[i]).unwrap()))
    } else {
        None
    }
}

/// Where the data of level of detail `upto` starts when the data of the first
/// level starts at `start` and each level follows the one before it.
pub open spec fn spec_lod_start(lods: Seq<MeshLod>, start: int, upto: int) -> int
    decreases upto,
{
    if upto <= 0 {
        start
    } else {
        spec_lod_start(lods, start, upto - 1) + lods[upto - 1].vertex_buffer_size + lods[upto
            - 1].index_buffer_size
    }
}

/// Level of detail `i` with the offsets of its data: the vertex data at the
/// start of the level, the index data right after it. The edge geometry gets
/// the offset of the index data.
pub open spec fn spec_offset_lod(lods: Seq<MeshLod>, start: int, i: int) -> MeshLod {
    let vertex_data_offset = spec_lod_start(lods, start, i);
    let index_data_offset = vertex_data_offset + lods[i].vertex_buffer_size;
    MeshLod {
        vertex_data_offset: vertex_data_offset as u32,
        index_data_offset: index_data_offset as u32,
        edge_geometry_data_offset: index_data_offset as u32,
        ..lods[i]
    }
}

/// Every level of detail with the offsets of its data, if the end of the last
/// one fits in 32 bits.
pub open spec fn spec_offset_lods(lods: Seq<MeshLod>, start: int) -> Option<Seq<MeshLod>> {
    if spec_lod_start(lods, start, lods.len() as int) <= u32::MAX {
        Some(Seq::new(lods.len(), |i: int| spec_offset_lod(lods, start, i)))
    } else {
        None
    }
}

/// The totals of a longer run of meshes are not smaller.
pub proof fn lemma_totals_grow(meshes: Seq<Mesh>, first: int, mid: int, upto: int)
    requires
        first <= mid <= upto,
    ensures
        spec_index_total(meshes, first, mid) <= spec_index_total(meshes, first, upto),
        spec_vertex_total(meshes, first, mid) <= spec_vertex_total(meshes, first, upto),
        0 <= spec_index_total(meshes, first, mid),
        0 <= spec_vertex_total(meshes, first, mid),
    decreases upto - first,
{
    if first < upto {
        lemma_streams_size_grows(meshes[upto - 1], 0, meshes[upto - 1].vertex_stream_count as int);
        if mid < upto {
            lemma_totals_grow(meshes, first, mid, upto - 1);
        } else {
            lemma_totals_grow(meshes, first, upto - 1, upto - 1);
        }
    }
}

/// The size of more streams of a mesh is not smaller.
pub proof fn lemma_streams_size_grows(mesh: Mesh, fewer: int, streams: int)
    requires
        0 <= fewer <= streams,
    ensures
        0 <= spec_streams_size(mesh, fewer) <= spec_streams_size(mesh, streams),
    decreases streams,
{
    if streams > 0 {
        assert(mesh.vertex_count * mesh.vertex_buffer_strides[streams - 1] >= 0) by (nonlinear_arith)
            requires
                mesh.vertex_count >= 0,
                mesh.vertex_buffer_strides[streams - 1] >= 0,
        ;
        if fewer < streams {
            lemma_streams_size_grows(mesh, fewer, streams - 1);
        } else {
            lemma_streams_size_grows(mesh, streams - 1, streams - 1);
        }
    }
}

/// The number of bytes of the vertex data of a mesh, if the mesh has at most
/// three streams.
pub fn mesh_vertex_size(mesh: &Mesh) -> (size: Option<u64>)
    ensures
        size.is_some() == (mesh.vertex_stream_count <= 3),
        size.is_some() ==> size.unwrap() == spec_mesh_vertex_size(*mesh),
        size.is_some() ==> size.unwrap() <= 3 * 65535 * 255,
{
    if mesh.vertex_stream_count > 3 {
        return None;
    }
    let streams: usize = mesh.vertex_stream_count as usize;
    let mut size: u64 = 0;
    let mut s: usize = 0;
    while s < streams
        invariant
            s <= streams <= 3,
            size == spec_streams_size(*mesh, s as int),
            size <= s * 16711425,
        decreases streams - s,
    {
        let count: u64 = mesh.vertex_count as u64;
        let stride: u64 = mesh.vertex_buffer_strides[s] as u64;
        assert(count * stride <= 16711425) by (nonlinear_arith)
            requires
                count <= 65535,
                stride <= 255,
        ;
        size = size + count * stride;
        s = s + 1;
    }
    Some(size)
}

/// Gives the meshes of one level of detail their places.
fn place_lod_meshes(meshes: &mut Vec<Mesh>, lod: &MeshLod) -> (done: bool)
    ensures
        done == spec_lod_meshes_fit(old(meshes)@, *lod),
        done ==> final(meshes)@ == spec_place_lod_meshes(old(meshes)@, *lod),
        final(meshes)@.len() == old(meshes)@.len(),
{
    let first: usize = lod.mesh_index as usize;
    let end: usize = first + lod.mesh_count as usize;
    if end > meshes.len() {
        return false;
    }
    let ghost before = meshes@;
    let mut index_total: u64 = 0;
    let mut vertex_total: u64 = 0;
    let mut j: usize = first;
    while j < end
        invariant
            before == old(meshes)@,
            first <= j <= end <= before.len(),
            first == lod.mesh_index,
            end == lod.mesh_index + lod.mesh_count,
            meshes@.len() == before.len(),
            index_total == spec_index_total(before, first as int, j as int),
            vertex_total == spec_vertex_total(before, first as int, j as int),
            index_total <= u32::MAX,
            vertex_total <= u32::MAX,
            forall|m: int| first <= m < j ==> (#[trigger] before[m]).vertex_stream_count <= 3,
            forall|m: int|
                0 <= m < before.len() ==> #[trigger] meshes@[m] == if first <= m < j {
                    spec_place_mesh(before, first as int, m)
                } else {
                    before[m]
                },
        decreases end - j,
    {
        let mut mesh: Mesh = meshes[j];
        assert(mesh == before[j as int]);
        if mesh.vertex_stream_count > 3 {
            assert(before[j as int].vertex_stream_count > 3);
            return false;
        }
        let streams: usize = mesh.vertex_stream_count as usize;
        mesh.start_index = index_total as u32;
        let mut size: u64 = 0;
        let mut s: usize = 0;
        while s < 3
            invariant
                s <= 3,
                streams <= 3,
                streams == before[j as int].vertex_stream_count,
                first <= j < end <= before.len(),
                vertex_total == spec_vertex_total(before, first as int, j as int),
                vertex_total <= u32::MAX,
                size == spec_streams_size(
                    before[j as int],
                    if s <= streams {
                        s as int
                    } else {
                        streams as int
                    },
                ),
                size <= s * 16711425,
                before == old(meshes)@,
                meshes@.len() == before.len(),
                first == lod.mesh_index,
                end == lod.mesh_index + lod.mesh_count,
                index_total == spec_index_total(before, first as int, j as int),
                index_total <= u32::MAX,
                mesh.vertex_count == before[j as int].vertex_count,
                mesh.vertex_buffer_strides == before[j as int].vertex_buffer_strides,
                mesh.vertex_stream_count == before[j as int].vertex_stream_count,
                mesh.index_count == before[j as int].index_count,
                mesh.start_index == index_total,
                mesh.material_index == before[j as int].material_index,
                mesh.submesh_index == before[j as int].submesh_index,
                mesh.submesh_count == before[j as int].submesh_count,
                mesh.bone_table_index == before[j as int].bone_table_index,
                forall|t: int|
                    0 <= t < 3 ==> #[trigger] mesh.vertex_buffer_offsets[t] == if t < s {
                        spec_stream_offset(before, first as int, j as int, t)
                    } else {
                        before[j as int].vertex_buffer_offsets[t]
                    },
            decreases 3 - s,
        {
            if s < streams {
                if vertex_total + size > 0xFFFF_FFFF {
                    proof {
                        lemma_streams_size_grows(before[j as int], s as int, streams as int);
                        lemma_totals_grow(before, first as int, j + 1, end as int);
                    }
                    return false;
                }
                mesh.vertex_buffer_offsets[s] = (vertex_total + size) as u32;
                let count: u64 = mesh.vertex_count as u64;
                let stride: u64 = mesh.vertex_buffer_strides[s] as u64;
                assert(count * stride <= 16711425) by (nonlinear_arith)
                    requires
                        count <= 65535,
                        stride <= 255,
                ;
                size = size + count * stride;
            }
            s = s + 1;
        }
        index_total = index_total + mesh.index_count as u64;
        vertex_total = vertex_total + size;
        if index_total > 0xFFFF_FFFF || vertex_total > 0xFFFF_FFFF {
            proof {
                lemma_totals_grow(before, first as int, j + 1, end as int);
            }
            return false;
        }
        proof {
            assert(mesh.vertex_buffer_offsets =~= spec_place_mesh(
                before,
                first as int,
                j as int,
            ).vertex_buffer_offsets);
            assert(mesh == spec_place_mesh(before, first as int, j as int));
        }
        meshes[j] = mesh;
        j = j + 1;
    }
    assert(meshes@ =~= spec_place_lod_meshes(before, *lod));
    true
}

/// Gives the meshes of the first `count` levels of detail their places.
fn place_meshes(meshes: &mut Vec<Mesh>, lods: &[MeshLod], count: usize) -> (done: bool)
    requires
        count <= lods@.len(),
    ensures
        done == spec_place_meshes(old(meshes)@, lods@, count as int).is_some(),
        done ==> final(meshes)@ == spec_place_meshes(old(meshes)@, lods@, count as int).unwrap(),
{
    let mut i: usize = 0;
    while i < count
        invariant
            i <= count <= lods@.len(),
            spec_place_meshes(old(meshes)@, lods@, i as int) == Some(meshes@),
        decreases count - i,
    {
        if !place_lod_meshes(meshes, &lods[i]) {
            proof {
                lemma_place_meshes_fails(old(meshes)@, lods@, i + 1, count as int);
            }
            return false;
        }
        i = i + 1;
    }
    true
}

proof fn lemma_place_meshes_fails(meshes: Seq<Mesh>, lods: Seq<MeshLod>, n: int, count: int)
    requires
        0 <= n <= count,
        spec_place_meshes(meshes, lods, n).is_none(),
    ensures
        spec_place_meshes(meshes, lods, count).is_none(),
    decreases count - n,
{
    if n < count {
        lemma_place_meshes_fails(meshes, lods, n, count - 1);
    }
}

/// The level of detail with the sizes of its vertex and index data.
pub fn size_lod(meshes: &[Mesh], lod: &MeshLod) -> (sized: Option<MeshLod>)
    ensures
        sized == spec_size_lod(meshes@, *lod),
{
    let first: usize = lod.mesh_index as usize;
    let end: usize = first + lod.mesh_count as usize;
    if end > meshes.len() {
        return None;
    }
    let mut index_total: u64 = 0;
    let mut vertex_total: u64 = 0;
    let mut j: usize = first;
    while j < end
        invariant
            first <= j <= end <= meshes@.len(),
            first == lod.mesh_index,
            end == lod.mesh_index + lod.mesh_count,
            index_total == spec_index_total(meshes@, first as int, j as int),
            vertex_total == spec_vertex_total(meshes@, first as int, j as int),
            index_total <= u32::MAX,
            vertex_total <= u32::MAX,
            forall|m: int| first <= m < j ==> (#[trigger] meshes@[m]).vertex_stream_count <= 3,
        decreases end - j,
    {
        let size = match mesh_vertex_size(&meshes[j]) {
            Some(size) => size,
            None => { return None; },
        };
        index_total = index_total + meshes[j].index_count as u64;
        vertex_total = vertex_total + size;
        if index_total > 0xFFFF_FFFF || vertex_total > 0xFFFF_FFFF {
            proof {
                lemma_totals_grow(meshes@, first as int, j + 1, end as int);
            }
            return None;
        }
        j = j + 1;
    }
    let size: u64 = 2 * index_total;
    let padding: u64 = if size % 16 == 0 {
        0
    } else {
        16 - size % 16
    };
    if size + padding > 0xFFFF_FFFF {
        return None;
    }
    let mut sized: MeshLod = *lod;
    sized.vertex_buffer_size = vertex_total as u32;
    sized.index_buffer_size = (size + padding) as u32;
    Some(sized)
}

/// Every level of detail with the sizes of its data.
pub fn size_lods(meshes: &[Mesh], lods: &[MeshLod]) -> (sized: Option<Vec<MeshLod>>)
    ensures
        match sized {
            Some(sized) => spec_size_lods(meshes@, lods@) == Some(sized@),
            None => spec_size_lods(meshes@, lods@).is_none(),
        },
{
    let count: usize = lods.len();
    let mut sized: Vec<MeshLod> = Vec::new();
    let mut i: usize = 0;
    while i < count
        invariant
            i <= count,
            count == lods@.len(),
            sized@.len() == i,
            forall|t: int|
                0 <= t < i ==> spec_size_lod(meshes@, lods@[t]) == Some(#[trigger] sized@[t]),
        decreases count - i,
    {
        match size_lod(meshes, &lods[i]) {
            Some(lod) => {
                sized.push(lod);
            },
            None => {
                assert(spec_size_lod(meshes@, lods@[i as int]).is_none());
                return None;
            },
        }
        i = i + 1;
    }
    proof {
        assert forall|t: int| 0 <= t < lods@.len() implies spec_size_lod(
            meshes@,
            #[trigger] lods@[t],
        ).is_some() by {
            assert(spec_size_lod(meshes@, lods@[t]) == Some(sized@[t]));
        }
        assert(sized@ =~= Seq::new(
            lods@.len(),
            |t: int| spec_size_lod(meshes@, lods@[t]).unwrap(),
        ));
    }
    Some(sized)
}

/// The data of a later level of detail does not begin before that of an
/// earlier one.
pub proof fn lemma_lod_start_grows(lods: Seq<MeshLod>, start: int, mid: int, upto: int)
    requires
        0 <= mid <= upto,
    ensures
        spec_lod_start(lods, start, mid) <= spec_lod_start(lods, start, upto),
    decreases upto,
{
    if mid < upto {
        lemma_lod_start_grows(lods, start, mid, upto - 1);
    }
}

/// Gives every level of detail the offsets of its data, the first one
/// starting at `start`.
fn offset_lods(lods: &mut Vec<MeshLod>, start: u32) -> (done: bool)
    ensures
        done == spec_offset_lods(old(lods)@, start as int).is_some(),
        done ==> final(lods)@ == spec_offset_lods(old(lods)@, start as int).unwrap(),
        final(lods)@.len() == old(lods)@.len(),
{
    let ghost before = lods@;
    let count: usize = lods.len();
    let mut position: u64 = start as u64;
    let mut i: usize = 0;
    while i < count
        invariant
            i <= count,
            before == old(lods)@,
            count == before.len(),
            lods@.len() == before.len(),
            position == spec_lod_start(before, start as int, i as int),
            position <= u32::MAX,
            forall|t: int|
                0 <= t < before.len() ==> #[trigger] lods@[t] == if t < i {
                    spec_offset_lod(before, start as int, t)
                } else {
                    before[t]
                },
        decreases count - i,
    {
        let mut lod: MeshLod = lods[i];
        let index_data_offset: u64 = position + lod.vertex_buffer_size as u64;
        let next: u64 = index_data_offset + lod.index_buffer_size as u64;
        if next > 0xFFFF_FFFF {
            proof {
                lemma_lod_start_grows(before, start as int, i + 1, count as int);
            }
            return false;
        }
        lod.vertex_data_offset = position as u32;
        lod.index_data_offset = index_data_offset as u32;
        lod.edge_geometry_data_offset = index_data_offset as u32;
        lods[i] = lod;
        position = next;
        i = i + 1;
    }
    assert(lods@ =~= spec_offset_lods(before, start as int).unwrap());
    true
}

/// The smaller of two numbers.
pub open spec fn spec_min(a: int, b: int) -> int {
    if a <= b {
        a
    } else {
        b
    }
}

/// The data block has a record for each of the first `runs` submeshes of a part.
pub open spec fn spec_runs_valid(records: Seq<Submesh>, part_submeshes: Seq<SubMesh>, runs: int) -> bool {
    forall|j: int| 0 <= j < runs ==> (#[trigger] part_submeshes[j]).submesh_index < records.len()
}

/// The submesh records after the records of the first `runs` submeshes of a
/// part have taken the offset and the count of the given runs, one by one.
pub open spec fn spec_update_submeshes(
    records: Seq<Submesh>,
    part_submeshes: Seq<SubMesh>,
    given: Seq<SubMesh>,
    runs: int,
) -> Seq<Submesh>
    decreases runs,
{
    if runs <= 0 {
        records
    } else {
        let before = spec_update_submeshes(records, part_submeshes, given, runs - 1);
        let at = part_submeshes[runs - 1].submesh_index as int;
        before.update(
            at,
            Submesh {
                index_offset: given[runs - 1].index_offset,
                index_count: given[runs - 1].index_count,
                ..before[at]
            },
        )
    }
}

/// The value for level `i` of one of the header's tables: that of the level of
/// detail for the first `count` levels, the old one after them.
pub open spec fn spec_mirror_value(old_values: [u32; 3], new_values: Seq<u32>, count: int, i: int) -> u32 {
    if i < count {
        new_values[i]
    } else {
        old_values[i]
    }
}

/// One of the header's tables after the values of the first `count` levels of
/// detail have been copied into it.
pub open spec fn spec_mirror(old_values: [u32; 3], new_values: Seq<u32>, count: int) -> [u32; 3] {
    [
        spec_mirror_value(old_values, new_values, count, 0),
        spec_mirror_value(old_values, new_values, count, 1),
        spec_mirror_value(old_values, new_values, count, 2),
    ]
}

/// The file header after a change of the geometry: the stack size and the
/// runtime size, and for the first `count` levels of detail their offsets and
/// sizes.
pub open spec fn spec_mirror_header(
    header: ModelFileHeaderView,
    stack_size: u32,
    runtime_size: u32,
    lods: Seq<MeshLod>,
    count: int,
) -> ModelFileHeaderView {
    ModelFileHeaderView {
        stack_size,
        runtime_size,
        vertex_offsets: spec_mirror(
            header.vertex_offsets,
            Seq::new(lods.len(), |i: int| lods[i].vertex_data_offset),
            count,
        ),
        index_offsets: spec_mirror(
            header.index_offsets,
            Seq::new(lods.len(), |i: int| lods[i].index_data_offset),
            count,
        ),
        vertex_buffer_size: spec_mirror(
            header.vertex_buffer_size,
            Seq::new(lods.len(), |i: int| lods[i].vertex_buffer_size),
            count,
        ),
        index_buffer_size: spec_mirror(
            header.index_buffer_size,
            Seq::new(lods.len(), |i: int| lods[i].index_buffer_size),
            count,
        ),
        ..header
    }
}

/// The model after the vertices and indices of one part have been replaced.
///
/// The part takes the new vertices and indices. The records of its submeshes
/// take the given runs, as far as there are both. Its mesh takes the new
/// counts. Then, for each level of detail that the file header counts, the
/// meshes get their places; every level of detail gets the sizes of its data;
/// the file header gets its stack and runtime size; every level gets its
/// offsets, the first one starting after the file header's 68 bytes, the
/// stack size and the runtime size; and the file header takes the offsets and
/// sizes of as many levels as the model has geometry for.
///
/// There is no such model where the part does not exist, a count does not fit
/// in its field, a record, a mesh or a level of detail is missing, or a size
/// or an offset does not fit in 32 bits.
pub open spec fn spec_replace_vertices(
    model: MDLView,
    lod_index: int,
    part_index: int,
    vertices: Seq<Vertex>,
    indices: Seq<u16>,
    submeshes: Seq<SubMesh>,
) -> Option<MDLView> {
    if !(0 <= lod_index < model.lods.len() && 0 <= part_index < model.lods[lod_index].len()) {
        None
    } else {
        let header = model.file_header;
        let data = model.model_data;
        let part = model.lods[lod_index][part_index];
        let runs = spec_min(part.submeshes.len() as int, submeshes.len() as int);
        let stack = spec_stack_size(header.vertex_declaration_count);
        let runtime = spec_runtime_size(data);
        if vertices.len() > 0xFFFF || indices.len() > 0xFFFF_FFFF || part.mesh_index
            >= data.meshes.len() || !spec_runs_valid(data.submeshes, part.submeshes, runs)
            || header.lod_count > data.lods.len() || model.lods.len() > 3 || model.lods.len()
            > data.lods.len() || runtime + 68 + stack > u32::MAX {
            None
        } else {
            let counted = data.meshes.update(
                part.mesh_index as int,
                Mesh {
                    vertex_count: vertices.len() as u16,
                    index_count: indices.len() as u32,
                    ..data.meshes[part.mesh_index as int]
                },
            );
            match spec_place_meshes(counted, data.lods, header.lod_count as int) {
                None => None,
                Some(meshes) => match spec_size_lods(meshes, data.lods) {
                    None => None,
                    Some(sized) => match spec_offset_lods(sized, runtime + 68 + stack) {
                        None => None,
                        Some(lods) => Some(
                            MDLView {
                                file_header: spec_mirror_header(
                                    header,
                                    stack as u32,
                                    runtime as u32,
                                    lods,
                                    model.lods.len() as int,
                                ),
                                model_data: ModelDataView {
                                    submeshes: spec_update_submeshes(
                                        data.submeshes,
                                        part.submeshes,
                                        submeshes,
                                        runs,
                                    ),
                                    meshes,
                                    lods,
                                    ..data
                                },
                                lods: model.lods.update(
                                    lod_index,
                                    model.lods[lod_index].update(
                                        part_index,
                                        PartView { vertices, indices, ..part },
                                    ),
                                ),
                                ..model
                            },
                        ),
                    },
                },
            }
        }
    }
}

/// A copy of a list.
pub fn copy_list<T: Copy>(list: &[T]) -> (copy: Vec<T>)
    ensures
        copy@ == list@,
{
    let mut copy: Vec<T> = Vec::new();
    let mut i: usize = 0;
    while i < list.len()
        invariant
            i <= list@.len(),
            copy@ == list@.subrange(0, i as int),
        decreases list@.len() - i,
    {
        copy.push(list[i]);
        i = i + 1;
        assert(copy@ =~= list@.subrange(0, i as int));
    }
    assert(list@.subrange(0, list@.len() as int) =~= list@);
    copy
}

/// The submesh records after the records of a part's submeshes have taken the
/// given runs.
pub fn update_submeshes(records: &[Submesh], part_submeshes: &[SubMesh], given: &[SubMesh]) -> (updated:
    Option<Vec<Submesh>>)
    ensures
        ({
            let runs = spec_min(part_submeshes@.len() as int, given@.len() as int);
            match updated {
                Some(updated) => spec_runs_valid(records@, part_submeshes@, runs) && updated@
                    == spec_update_submeshes(records@, part_submeshes@, given@, runs),
                None => !spec_runs_valid(records@, part_submeshes@, runs),
            }
        }),
{
    let runs: usize = if part_submeshes.len() <= given.len() {
        part_submeshes.len()
    } else {
        given.len()
    };
    let mut updated = copy_list(records);
    let mut j: usize = 0;
    while j < runs
        invariant
            j <= runs,
            runs == spec_min(part_submeshes@.len() as int, given@.len() as int),
            updated@.len() == records@.len(),
            spec_runs_valid(records@, part_submeshes@, j as int),
            updated@ == spec_update_submeshes(records@, part_submeshes@, given@, j as int),
        decreases runs - j,
    {
        let at: usize = part_submeshes[j].submesh_index;
        if at >= updated.len() {
            assert(part_submeshes@[j as int].submesh_index >= records@.len());
            return None;
        }
        let mut record: Submesh = updated[at];
        record.index_offset = given[j].index_offset;
        record.index_count = given[j].index_count;
        updated[at] = record;
        j = j + 1;
    }
    Some(updated)
}

fn mirror(values: &mut [u32; 3], lods: &[MeshLod], count: usize, which: u8)
    requires
        count <= 3,
        count <= lods@.len(),
        which < 4,
    ensures
        which == 0 ==> *final(values) == spec_mirror(
            *old(values),
            Seq::new(lods@.len(), |i: int| lods@[i].vertex_data_offset),
            count as int,
        ),
        which == 1 ==> *final(values) == spec_mirror(
            *old(values),
            Seq::new(lods@.len(), |i: int| lods@[i].index_data_offset),
            count as int,
        ),
        which == 2 ==> *final(values) == spec_mirror(
            *old(values),
            Seq::new(lods@.len(), |i: int| lods@[i].vertex_buffer_size),
            count as int,
        ),
        which == 3 ==> *final(values) == spec_mirror(
            *old(values),
            Seq::new(lods@.len(), |i: int| lods@[i].index_buffer_size),
            count as int,
        ),
{
    let ghost before = *values;
    let mut i: usize = 0;
    while i < count
        invariant
            i <= count <= 3,
            count <= lods@.len(),
            which < 4,
            forall|t: int|
                0 <= t < 3 ==> #[trigger] values[t] == if t < i {
                    if which == 0 {
                        lods@[t].vertex_data_offset
                    } else if which == 1 {
                        lods@[t].index_data_offset
                    } else if which == 2 {
                        lods@[t].vertex_buffer_size
                    } else {
                        lods@[t].index_buffer_size
                    }
                } else {
                    before[t]
                },
        decreases count - i,
    {
        let value: u32 = if which == 0 {
            lods[i].vertex_data_offset
        } else if which == 1 {
            lods[i].index_data_offset
        } else if which == 2 {
            lods[i].vertex_buffer_size
        } else {
            lods[i].index_buffer_size
        };
        values[i] = value;
        i = i + 1;
    }
    proof {
        if which == 0 {
            assert(*values =~= spec_mirror(
                before,
                Seq::new(lods@.len(), |i: int| lods@[i].vertex_data_offset),
                count as int,
            ));
        } else if which == 1 {
            assert(*values =~= spec_mirror(
                before,
                Seq::new(lods@.len(), |i: int| lods@[i].index_data_offset),
                count as int,
            ));
        } else if which == 2 {
            assert(*values =~= spec_mirror(
                before,
                Seq::new(lods@.len(), |i: int| lods@[i].vertex_buffer_size),
                count as int,
            ));
        } else {
            assert(*values =~= spec_mirror(
                before,
                Seq::new(lods@.len(), |i: int| lods@[i].index_buffer_size),
                count as int,
            ));
        }
    }
}

impl MDL {
    /// Replaces the vertices and indices of one part, and lays the model out
    /// anew: the counts of the part's mesh, the places of the meshes, the
    /// sizes and offsets of the levels of detail, and the file header's sizes
    /// and tables.
    ///
    /// Returns whether the model was changed. It is left as it was where the
    /// part does not exist, a count does not fit in its field, a record, a
    /// mesh or a level of detail is missing, or a size or an offset does not
    /// fit in 32 bits.
    pub fn replace_vertices(
        &mut self,
        lod_index: usize,
        part_index: usize,
        vertices: &[Vertex],
        indices: &[u16],
        submeshes: &[SubMesh],
    ) -> (done: bool)
        ensures
            match spec_replace_vertices(
                old(self)@,
                lod_index as int,
                part_index as int,
                vertices@,
                indices@,
                submeshes@,
            ) {
                Some(model) => done && final(self)@ == model,
                None => !done && final(self)@ == old(self)@,
            },
    {
        let levels: usize = self.lods.len();
        if lod_index >= levels || part_index >= self.lods[lod_index].parts.len() {
            return false;
        }
        let ghost model = self@;
        let ghost part_view = self.lods@[lod_index as int].parts@[part_index as int]@;
        assert(model.lods[lod_index as int][part_index as int] == part_view);
        let mesh_index: usize = self.lods[lod_index].parts[part_index].mesh_index as usize;
        if vertices.len() > 0xFFFF || indices.len() > 0xFFFF_FFFF || mesh_index
            >= self.model_data.meshes.len() || self.file_header.lod_count as usize
            > self.model_data.lods.len() || levels > 3 || levels > self.model_data.lods.len() {
            return false;
        }
        let records = match update_submeshes(
            self.model_data.submeshes.as_slice(),
            self.lods[lod_index].parts[part_index].submeshes.as_slice(),
            submeshes,
        ) {
            Some(records) => records,
            None => { return false; },
        };
        let stack: u32 = self.file_header.calculate_stack_size();
        let runtime: u32 = match self.model_data.checked_runtime_size() {
            Some(runtime) => runtime,
            None => { return false; },
        };
        if runtime as u64 + 68 + stack as u64 > 0xFFFF_FFFF {
            return false;
        }
        let start: u32 = runtime + 68 + stack;
        let mut meshes = copy_list(self.model_data.meshes.as_slice());
        let mut mesh: Mesh = meshes[mesh_index];
        mesh.vertex_count = vertices.len() as u16;
        mesh.index_count = indices.len() as u32;
        meshes[mesh_index] = mesh;
        if !place_meshes(
            &mut meshes,
            self.model_data.lods.as_slice(),
            self.file_header.lod_count as usize,
        ) {
            return false;
        }
        let mut lods = match size_lods(meshes.as_slice(), self.model_data.lods.as_slice()) {
            Some(lods) => lods,
            None => { return false; },
        };
        if !offset_lods(&mut lods, start) {
            return false;
        }
        self.file_header.stack_size = stack;
        self.file_header.runtime_size = runtime;
        mirror(&mut self.file_header.vertex_offsets, lods.as_slice(), levels, 0);
        mirror(&mut self.file_header.index_offsets, lods.as_slice(), levels, 1);
        mirror(&mut self.file_header.vertex_buffer_size, lods.as_slice(), levels, 2);
        mirror(&mut self.file_header.index_buffer_size, lods.as_slice(), levels, 3);
        self.model_data.submeshes = records;
        self.model_data.meshes = meshes;
        self.model_data.lods = lods;
        self.lods[lod_index].parts[part_index].vertices = copy_list(vertices);
        self.lods[lod_index].parts[part_index].indices = copy_list(indices);
        proof {
            let expected = spec_replace_vertices(
                model,
                lod_index as int,
                part_index as int,
                vertices@,
                indices@,
                submeshes@,
            ).unwrap();
            assert(spec_lod_views(self.lods@) =~~= expected.lods);
            assert(self@.model_data == expected.model_data);
            assert(self@.file_header == expected.file_header);
            assert(self@.affected_bone_names =~= expected.affected_bone_names);
            assert(self@.material_names =~= expected.material_names);
        }
        true
    }
}

} // verus!
