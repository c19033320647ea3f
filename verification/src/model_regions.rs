//! Where the pieces of a model lie when its meshes have been given their
//! places: the regions of the levels of detail, meshes and streams, and why
//! no piece changes what another one has written.

use vstd::prelude::*;
use crate::model::{spec_model, MDLView, ModelDataView, ModelFileHeaderView, PartView};
use crate::model_layout::{
    lemma_streams_size_grows, lemma_totals_grow, spec_index_total, spec_streams_size,
    spec_vertex_total,
};
use crate::model_pieces::{
    lemma_apart_agree, lemma_has_piece_popped, lemma_has_piece_split, spec_has_piece,
    spec_pieces_agree, Piece,
};
use crate::model_records::{Mesh, MeshLod};
use crate::model_roundtrip::{
    lemma_model_base_len, lemma_model_roundtrip, lemma_model_written, spec_element_piece,
    spec_element_writable, spec_indices_piece, spec_lod_shaped, spec_lods_pieces,
    spec_model_all_pieces, spec_model_base, spec_model_consistent, spec_model_floor,
    spec_model_pieces, spec_model_settled, spec_model_shaped, spec_part_pieces, spec_part_shaped,
    spec_part_writable, spec_parts_pieces, spec_parts_writable, spec_vertex_pieces,
    spec_vertex_writable, spec_vertices_pieces,
};
use crate::model_vertex::{lemma_encoded_width, spec_element_width, Vertex};
use crate::model_vertex_declarations::VertexElement;
use crate::model_writable::spec_pieces_fit;
use crate::model_write::spec_write_model;
use crate::records::lemma_records_bytes_len;

verus! {

/// The mesh of part `p` of level of detail `i`.
pub open spec fn spec_part_mesh(model: MDLView, i: int, p: int) -> Mesh {
    model.model_data.meshes[model.lods[i][p].mesh_index as int]
}

/// The declaration of part `p` of level of detail `i`.
pub open spec fn spec_part_declaration(model: MDLView, i: int, p: int) -> Seq<VertexElement> {
    model.file_header.vertex_declarations[model.lods[i][p].mesh_index as int]
}

/// The model has element `j` of vertex `k` of part `p` of level of detail `i`.
pub open spec fn spec_element_origin(model: MDLView, i: int, p: int, k: int, j: int) -> bool {
    &&& 0 <= i < model.lods.len()
    &&& 0 <= p < model.lods[i].len()
    &&& 0 <= k < model.lods[i][p].vertices.len()
    &&& 0 <= j < spec_part_declaration(model, i, p).len()
}

/// The piece that element `j` makes of vertex `k` of part `p` of level of
/// detail `i`.
pub open spec fn spec_model_element_piece(model: MDLView, i: int, p: int, k: int, j: int) -> Piece {
    spec_element_piece(
        model.model_data.lods[i],
        spec_part_mesh(model, i, p),
        spec_part_declaration(model, i, p)[j],
        model.lods[i][p].vertices[k],
        k,
    )
}

/// The model has part `p` of level of detail `i`.
pub open spec fn spec_indices_origin(model: MDLView, i: int, p: int) -> bool {
    &&& 0 <= i < model.lods.len()
    &&& 0 <= p < model.lods[i].len()
}

/// The piece that the indices of part `p` of level of detail `i` make.
pub open spec fn spec_model_indices_piece(model: MDLView, i: int, p: int) -> Piece {
    spec_indices_piece(
        model.file_header,
        i,
        spec_part_mesh(model, i, p),
        model.lods[i][p].indices,
    )
}

/// The piece is that of an element of a vertex of the model.
pub open spec fn spec_known_element(model: MDLView, piece: Piece) -> bool {
    exists|i: int, p: int, k: int, j: int|
        spec_element_origin(model, i, p, k, j) && #[trigger] spec_model_element_piece(
            model,
            i,
            p,
            k,
            j,
        ) == piece
}

/// The piece is that of the indices of a part of the model.
pub open spec fn spec_known_indices(model: MDLView, piece: Piece) -> bool {
    exists|i: int, p: int|
        spec_indices_origin(model, i, p) && #[trigger] spec_model_indices_piece(model, i, p)
            == piece
}

proof fn lemma_vertex_origin(
    lod: MeshLod,
    mesh: Mesh,
    elements: Seq<VertexElement>,
    vertex: Vertex,
    k: int,
    n: int,
    piece: Piece,
) -> (j: int)
    requires
        spec_has_piece(spec_vertex_pieces(lod, mesh, elements, vertex, k, n), piece),
    ensures
        0 <= j < n,
        piece == spec_element_piece(lod, mesh, elements[j], vertex, k),
    decreases n,
{
    if n <= 0 {
        let empty = spec_vertex_pieces(lod, mesh, elements, vertex, k, n);
        let t = choose|t: int| 0 <= t < empty.len() && #[trigger] empty[t] == piece;
        0
    } else {
        let before = spec_vertex_pieces(lod, mesh, elements, vertex, k, n - 1);
        let last = spec_element_piece(lod, mesh, elements[n - 1], vertex, k);
        lemma_has_piece_popped(before, last, piece);
        if piece == last {
            n - 1
        } else {
            lemma_vertex_origin(lod, mesh, elements, vertex, k, n - 1, piece)
        }
    }
}

proof fn lemma_vertices_origin(
    lod: MeshLod,
    mesh: Mesh,
    elements: Seq<VertexElement>,
    vertices: Seq<Vertex>,
    n: int,
    piece: Piece,
) -> (at: (int, int))
    requires
        spec_has_piece(spec_vertices_pieces(lod, mesh, elements, vertices, n), piece),
    ensures
        0 <= at.0 < n,
        0 <= at.1 < elements.len(),
        piece == spec_element_piece(lod, mesh, elements[at.1], vertices[at.0], at.0),
    decreases n,
{
    if n <= 0 {
        let empty = spec_vertices_pieces(lod, mesh, elements, vertices, n);
        let t = choose|t: int| 0 <= t < empty.len() && #[trigger] empty[t] == piece;
        (0, 0)
    } else {
        let before = spec_vertices_pieces(lod, mesh, elements, vertices, n - 1);
        let last = spec_vertex_pieces(
            lod,
            mesh,
            elements,
            vertices[n - 1],
            n - 1,
            elements.len() as int,
        );
        lemma_has_piece_split(before, last, piece);
        if spec_has_piece(last, piece) {
            let j = lemma_vertex_origin(
                lod,
                mesh,
                elements,
                vertices[n - 1],
                n - 1,
                elements.len() as int,
                piece,
            );
            (n - 1, j)
        } else {
            lemma_vertices_origin(lod, mesh, elements, vertices, n - 1, piece)
        }
    }
}

proof fn lemma_parts_origin(
    header: ModelFileHeaderView,
    data: ModelDataView,
    lod_index: int,
    parts: Seq<PartView>,
    n: int,
    piece: Piece,
) -> (p: int)
    requires
        spec_has_piece(spec_parts_pieces(header, data, lod_index, parts, n), piece),
    ensures
        0 <= p < n,
        spec_has_piece(spec_part_pieces(header, data, lod_index, parts[p]), piece),
    decreases n,
{
    if n <= 0 {
        let empty = spec_parts_pieces(header, data, lod_index, parts, n);
        let t = choose|t: int| 0 <= t < empty.len() && #[trigger] empty[t] == piece;
        0
    } else {
        let before = spec_parts_pieces(header, data, lod_index, parts, n - 1);
        let last = spec_part_pieces(header, data, lod_index, parts[n - 1]);
        lemma_has_piece_split(before, last, piece);
        if spec_has_piece(last, piece) {
            n - 1
        } else {
            lemma_parts_origin(header, data, lod_index, parts, n - 1, piece)
        }
    }
}

proof fn lemma_lods_origin(
    header: ModelFileHeaderView,
    data: ModelDataView,
    lods: Seq<Seq<PartView>>,
    n: int,
    piece: Piece,
) -> (i: int)
    requires
        spec_has_piece(spec_lods_pieces(header, data, lods, n), piece),
    ensures
        0 <= i < n,
        spec_has_piece(spec_parts_pieces(header, data, i, lods[i], lods[i].len() as int), piece),
    decreases n,
{
    if n <= 0 {
        let empty = spec_lods_pieces(header, data, lods, n);
        let t = choose|t: int| 0 <= t < empty.len() && #[trigger] empty[t] == piece;
        0
    } else {
        let before = spec_lods_pieces(header, data, lods, n - 1);
        let last = spec_parts_pieces(header, data, n - 1, lods[n - 1], lods[n - 1].len() as int);
        lemma_has_piece_split(before, last, piece);
        if spec_has_piece(last, piece) {
            n - 1
        } else {
            lemma_lods_origin(header, data, lods, n - 1, piece)
        }
    }
}

/// Every piece of a model is that of an element of one of its vertices or
/// that of the indices of one of its parts.
pub proof fn lemma_piece_known(model: MDLView, piece: Piece)
    requires
        spec_has_piece(spec_model_pieces(model), piece),
    ensures
        spec_known_element(model, piece) || spec_known_indices(model, piece),
{
    let header = model.file_header;
    let data = model.model_data;
    let i = lemma_lods_origin(header, data, model.lods, model.lods.len() as int, piece);
    let parts = model.lods[i];
    let p = lemma_parts_origin(header, data, i, parts, parts.len() as int, piece);
    let part = parts[p];
    let mesh = spec_part_mesh(model, i, p);
    let elements = spec_part_declaration(model, i, p);
    let own = spec_vertices_pieces(
        data.lods[i],
        mesh,
        elements,
        part.vertices,
        part.vertices.len() as int,
    );
    let last = spec_indices_piece(header, i, mesh, part.indices);
    lemma_has_piece_popped(own, last, piece);
    if piece == last {
        assert(spec_indices_origin(model, i, p));
        assert(spec_model_indices_piece(model, i, p) == piece);
    } else {
        let at = lemma_vertices_origin(
            data.lods[i],
            mesh,
            elements,
            part.vertices,
            part.vertices.len() as int,
            piece,
        );
        assert(spec_element_origin(model, i, p, at.0, at.1));
        assert(spec_model_element_piece(model, i, p, at.0, at.1) == piece);
    }
}

/// Mesh `j` has the place that follows from the meshes before it in the
/// level of detail that begins with mesh `first`: its indices come after
/// theirs, and each of its streams after their vertex data and the streams
/// of the mesh before it.
pub open spec fn spec_mesh_placed(meshes: Seq<Mesh>, first: int, j: int) -> bool {
    let mesh = meshes[j];
    &&& mesh.vertex_stream_count <= 3
    &&& mesh.start_index == spec_index_total(meshes, first, j)
    &&& forall|t: int|
        0 <= t < mesh.vertex_stream_count ==> #[trigger] mesh.vertex_buffer_offsets[t]
            == spec_vertex_total(meshes, first, j) + spec_streams_size(mesh, t)
}

/// Where the data of level of detail `i` ends: behind its indices.
pub open spec fn spec_lod_end(model: MDLView, i: int) -> int {
    let lod = model.model_data.lods[i];
    model.file_header.index_offsets[i] + 2 * spec_index_total(
        model.model_data.meshes,
        lod.mesh_index as int,
        lod.mesh_index + lod.mesh_count,
    )
}

/// Where the data of level of detail `i` may begin: behind the data block
/// for the first level, behind the level before it for the others.
pub open spec fn spec_lod_floor(model: MDLView, i: int) -> int {
    if i <= 0 {
        spec_model_floor(model)
    } else {
        spec_lod_end(model, i - 1)
    }
}

/// Level of detail `i` is laid out: the model has its meshes, each of them
/// has its place, the vertex data begins where it may, and the index data
/// follows the vertex data.
pub open spec fn spec_lod_laid_out(model: MDLView, i: int) -> bool {
    let lod = model.model_data.lods[i];
    let meshes = model.model_data.meshes;
    let first = lod.mesh_index as int;
    let end = lod.mesh_index + lod.mesh_count;
    &&& end <= meshes.len()
    &&& spec_lod_floor(model, i) <= lod.vertex_data_offset
    &&& model.file_header.index_offsets[i] == lod.vertex_data_offset + spec_vertex_total(
        meshes,
        first,
        end,
    )
    &&& forall|j: int| first <= j < end ==> #[trigger] spec_mesh_placed(meshes, first, j)
}

/// The model is laid out: each of its levels of detail is, one behind the
/// other, the first one behind the data block.
pub open spec fn spec_model_laid_out(model: MDLView) -> bool {
    &&& model.lods.len() <= 3
    &&& model.lods.len() <= model.model_data.lods.len()
    &&& forall|i: int| 0 <= i < model.lods.len() ==> #[trigger] spec_lod_laid_out(model, i)
}

/// The element lies inside one vertex of its stream: the mesh has the
/// stream, and the element ends before the stride does.
pub open spec fn spec_element_fits(mesh: Mesh, element: VertexElement) -> bool {
    &&& element.stream < mesh.vertex_stream_count
    &&& element.offset + spec_element_width(element.vertex_type)
        <= mesh.vertex_buffer_strides[element.stream as int]
}

/// The two elements share no byte of a vertex.
pub open spec fn spec_elements_apart(a: VertexElement, b: VertexElement) -> bool {
    a.stream != b.stream || a.offset + spec_element_width(a.vertex_type) <= b.offset || b.offset
        + spec_element_width(b.vertex_type) <= a.offset
}

/// The declaration fits the mesh: each element lies inside one vertex of its
/// stream, and no two elements share a byte.
pub open spec fn spec_declaration_fits(mesh: Mesh, elements: Seq<VertexElement>) -> bool {
    &&& forall|j: int| 0 <= j < elements.len() ==> spec_element_fits(mesh, #[trigger] elements[j])
    &&& forall|a: int, b: int|
        0 <= a < b < elements.len() ==> spec_elements_apart(
            #[trigger] elements[a],
            #[trigger] elements[b],
        )
}

/// The declaration of part `p` of level of detail `i` fits its mesh.
pub open spec fn spec_part_fitted(model: MDLView, i: int, p: int) -> bool {
    spec_declaration_fits(spec_part_mesh(model, i, p), spec_part_declaration(model, i, p))
}

/// The declaration of every part of the model fits the part's mesh.
pub open spec fn spec_model_fitted(model: MDLView) -> bool {
    forall|i: int, p: int|
        0 <= i < model.lods.len() && 0 <= p < model.lods[i].len() ==> #[trigger] spec_part_fitted(
            model,
            i,
            p,
        )
}

/// Part `p` of level of detail `i` can be written, and its declaration fits
/// its mesh.
pub open spec fn spec_part_arranged(model: MDLView, i: int, p: int) -> bool {
    &&& spec_part_writable(model.file_header, model.model_data, model.lods[i][p])
    &&& spec_part_fitted(model, i, p)
}

/// Every part of the model can be written, and its declaration fits its mesh.
pub open spec fn spec_model_arranged(model: MDLView) -> bool {
    forall|i: int, p: int|
        0 <= i < model.lods.len() && 0 <= p < model.lods[i].len() ==> #[trigger] spec_part_arranged(
            model,
            i,
            p,
        )
}

/// A model whose pieces have their places: its parts have the shapes that
/// the data block gives them, it is laid out, and every part can be written
/// with a declaration that fits its mesh.
pub open spec fn spec_model_ready(model: MDLView) -> bool {
    &&& spec_model_shaped(model)
    &&& spec_model_laid_out(model)
    &&& spec_model_arranged(model)
}

/// The first place of the vertex data of level of detail `i`.
pub open spec fn spec_lod_vertices_at(model: MDLView, i: int) -> int {
    model.model_data.lods[i].vertex_data_offset as int
}

/// The first place of the index data of level of detail `i`.
pub open spec fn spec_lod_indices_at(model: MDLView, i: int) -> int {
    model.file_header.index_offsets[i] as int
}

/// The first mesh of level of detail `i`.
pub open spec fn spec_lod_first(model: MDLView, i: int) -> int {
    model.model_data.lods[i].mesh_index as int
}

proof fn lemma_part_facts(model: MDLView, i: int, p: int)
    requires
        spec_model_ready(model),
        spec_indices_origin(model, i, p),
    ensures
        spec_part_shaped(model.file_header, model.model_data, i, p, model.lods[i][p]),
        spec_part_arranged(model, i, p),
        spec_lod_laid_out(model, i),
        model.lods[i][p].mesh_index == spec_lod_first(model, i) + p,
        spec_lod_first(model, i) + p < model.model_data.lods[i].mesh_index
            + model.model_data.lods[i].mesh_count <= model.model_data.meshes.len(),
        spec_mesh_placed(
            model.model_data.meshes,
            spec_lod_first(model, i),
            spec_lod_first(model, i) + p,
        ),
        0 <= i < 3,
{
    assert(spec_lod_shaped(model.file_header, model.model_data, i, model.lods[i]));
    assert(spec_part_shaped(model.file_header, model.model_data, i, p, model.lods[i][p]));
    assert(spec_part_arranged(model, i, p));
    assert(spec_lod_laid_out(model, i));
}

/// The levels of detail of a model that is laid out lie one behind the
/// other, all behind the data block.
proof fn lemma_lods_ordered(model: MDLView, i: int, later: int)
    requires
        spec_model_laid_out(model),
        0 <= i <= later < model.lods.len(),
    ensures
        spec_model_floor(model) <= spec_lod_vertices_at(model, i),
        spec_lod_vertices_at(model, i) <= spec_lod_indices_at(model, i) <= spec_lod_end(model, i),
        i < later ==> spec_lod_end(model, i) <= spec_lod_vertices_at(model, later),
    decreases later,
{
    let lod = model.model_data.lods[i];
    assert(spec_lod_laid_out(model, i));
    lemma_totals_grow(
        model.model_data.meshes,
        lod.mesh_index as int,
        lod.mesh_index + lod.mesh_count,
        lod.mesh_index + lod.mesh_count,
    );
    if i > 0 {
        lemma_lods_ordered(model, i - 1, i - 1);
        assert(spec_lod_laid_out(model, i - 1));
    }
    if i < later {
        assert(spec_lod_laid_out(model, later));
        if i < later - 1 {
            lemma_lods_ordered(model, i, later - 1);
            lemma_lods_ordered(model, later - 1, later - 1);
        }
    }
}

/// Where the piece of an element lies: inside vertex `k` of its stream,
/// inside the stream of its mesh, inside the vertex data of its mesh, inside
/// the vertex data of its level of detail.
proof fn lemma_element_cell(model: MDLView, i: int, p: int, k: int, j: int)
    requires
        spec_model_ready(model),
        spec_element_origin(model, i, p, k, j),
    ensures
        ({
            let piece = spec_model_element_piece(model, i, p, k, j);
            let meshes = model.model_data.meshes;
            let first = spec_lod_first(model, i);
            let mesh = meshes[first + p];
            let element = spec_part_declaration(model, i, p)[j];
            let t = element.stream as int;
            let stride = mesh.vertex_buffer_strides[t] as int;
            let stream_at = spec_lod_vertices_at(model, i) + spec_vertex_total(
                meshes,
                first,
                first + p,
            ) + spec_streams_size(mesh, t);
            &&& spec_part_mesh(model, i, p) == mesh
            &&& 0 <= t < mesh.vertex_stream_count <= 3
            &&& k < mesh.vertex_count
            &&& piece.at == stream_at + stride * k + element.offset
            &&& piece.bytes.len() == spec_element_width(element.vertex_type)
            &&& element.offset + spec_element_width(element.vertex_type) <= stride
            &&& stream_at + stride * (k + 1) <= spec_lod_vertices_at(model, i) + spec_vertex_total(
                meshes,
                first,
                first + p,
            ) + spec_streams_size(mesh, t + 1)
            &&& spec_streams_size(mesh, t + 1) <= spec_streams_size(
                mesh,
                mesh.vertex_stream_count as int,
            )
            &&& spec_vertex_total(meshes, first, first + p + 1) == spec_vertex_total(
                meshes,
                first,
                first + p,
            ) + spec_streams_size(mesh, mesh.vertex_stream_count as int)
            &&& spec_lod_vertices_at(model, i) + spec_vertex_total(meshes, first, first + p + 1)
                <= spec_lod_indices_at(model, i)
            &&& 0 <= spec_vertex_total(meshes, first, first + p)
            &&& 0 <= spec_streams_size(mesh, t)
            &&& 0 <= stride * k
            &&& stream_at + stride * k <= piece.at
            &&& piece.at + piece.bytes.len() <= stream_at + stride * (k + 1)
            &&& spec_lod_vertices_at(model, i) <= piece.at
            &&& piece.at + piece.bytes.len() <= spec_lod_indices_at(model, i)
        }),
{
    lemma_part_facts(model, i, p);
    let meshes = model.model_data.meshes;
    let lod = model.model_data.lods[i];
    let first = spec_lod_first(model, i);
    let end = lod.mesh_index + lod.mesh_count;
    let mesh = meshes[first + p];
    let part = model.lods[i][p];
    let elements = spec_part_declaration(model, i, p);
    let element = elements[j];
    let t = element.stream as int;
    let stride = mesh.vertex_buffer_strides[t] as int;
    let vertex = part.vertices[k];
    assert(spec_element_fits(mesh, element));
    assert(spec_vertex_writable(elements, vertex));
    assert(spec_element_writable(element, vertex));
    lemma_encoded_width(vertex, element);
    assert(mesh.vertex_buffer_offsets[t] == spec_vertex_total(meshes, first, first + p)
        + spec_streams_size(mesh, t));
    lemma_streams_size_grows(mesh, t + 1, mesh.vertex_stream_count as int);
    lemma_streams_size_grows(mesh, t, t);
    lemma_totals_grow(meshes, first, first + p, first + p);
    lemma_totals_grow(meshes, first, first + p + 1, end);
    assert(stride * (k + 1) <= mesh.vertex_count * stride && 0 <= stride * k && stride * (k + 1)
        == stride * k + stride) by (nonlinear_arith)
        requires
            0 <= k < mesh.vertex_count,
            0 <= stride,
    ;
}

/// Where the piece of the indices of a part lies: behind the indices of the
/// meshes before it, inside the index data of its level of detail.
proof fn lemma_indices_cell(model: MDLView, i: int, p: int)
    requires
        spec_model_ready(model),
        spec_indices_origin(model, i, p),
    ensures
        ({
            let piece = spec_model_indices_piece(model, i, p);
            let meshes = model.model_data.meshes;
            let first = spec_lod_first(model, i);
            &&& piece.at == spec_lod_indices_at(model, i) + 2 * spec_index_total(
                meshes,
                first,
                first + p,
            )
            &&& piece.at + piece.bytes.len() == spec_lod_indices_at(model, i) + 2
                * spec_index_total(meshes, first, first + p + 1)
            &&& piece.at + piece.bytes.len() <= spec_lod_end(model, i)
            &&& 0 <= spec_index_total(meshes, first, first + p)
            &&& spec_lod_indices_at(model, i) <= piece.at
        }),
{
    lemma_part_facts(model, i, p);
    let meshes = model.model_data.meshes;
    let lod = model.model_data.lods[i];
    let first = spec_lod_first(model, i);
    let end = lod.mesh_index + lod.mesh_count;
    lemma_records_bytes_len(model.lods[i][p].indices);
    lemma_totals_grow(meshes, first, first + p, first + p);
    lemma_totals_grow(meshes, first, first + p + 1, end);
}

proof fn lemma_elements_agree(
    model: MDLView,
    i: int,
    p: int,
    k: int,
    j: int,
    other_i: int,
    other_p: int,
    other_k: int,
    other_j: int,
)
    requires
        spec_model_ready(model),
        spec_element_origin(model, i, p, k, j),
        spec_element_origin(model, other_i, other_p, other_k, other_j),
    ensures
        spec_pieces_agree(
            spec_model_element_piece(model, i, p, k, j),
            spec_model_element_piece(model, other_i, other_p, other_k, other_j),
        ),
{
    let a = spec_model_element_piece(model, i, p, k, j);
    let b = spec_model_element_piece(model, other_i, other_p, other_k, other_j);
    let meshes = model.model_data.meshes;
    lemma_element_cell(model, i, p, k, j);
    lemma_element_cell(model, other_i, other_p, other_k, other_j);
    if i < other_i {
        lemma_lods_ordered(model, i, other_i);
        lemma_lods_ordered(model, other_i, other_i);
        lemma_apart_agree(a, b);
    } else if other_i < i {
        lemma_lods_ordered(model, other_i, i);
        lemma_lods_ordered(model, i, i);
        lemma_apart_agree(a, b);
    } else {
        let first = spec_lod_first(model, i);
        if p < other_p {
            lemma_totals_grow(meshes, first, first + p + 1, first + other_p);
            lemma_apart_agree(a, b);
        } else if other_p < p {
            lemma_totals_grow(meshes, first, first + other_p + 1, first + p);
            lemma_apart_agree(a, b);
        } else {
            let mesh = meshes[first + p];
            let elements = spec_part_declaration(model, i, p);
            let t = elements[j].stream as int;
            let other_t = elements[other_j].stream as int;
            let stride = mesh.vertex_buffer_strides[t] as int;
            if t < other_t {
                lemma_streams_size_grows(mesh, t + 1, other_t);
                lemma_apart_agree(a, b);
            } else if other_t < t {
                lemma_streams_size_grows(mesh, other_t + 1, t);
                lemma_apart_agree(a, b);
            } else if k < other_k {
                assert(stride * (k + 1) <= stride * other_k) by (nonlinear_arith)
                    requires
                        k + 1 <= other_k,
                        0 <= stride,
                ;
                lemma_apart_agree(a, b);
            } else if other_k < k {
                assert(stride * (other_k + 1) <= stride * k) by (nonlinear_arith)
                    requires
                        other_k + 1 <= k,
                        0 <= stride,
                ;
                lemma_apart_agree(a, b);
            } else if j < other_j {
                lemma_part_facts(model, i, p);
                assert(spec_elements_apart(elements[j], elements[other_j]));
                lemma_apart_agree(a, b);
            } else if other_j < j {
                lemma_part_facts(model, i, p);
                assert(spec_elements_apart(elements[other_j], elements[j]));
                lemma_apart_agree(a, b);
            }
        }
    }
}

proof fn lemma_element_indices_agree(
    model: MDLView,
    i: int,
    p: int,
    k: int,
    j: int,
    other_i: int,
    other_p: int,
)
    requires
        spec_model_ready(model),
        spec_element_origin(model, i, p, k, j),
        spec_indices_origin(model, other_i, other_p),
    ensures
        spec_pieces_agree(
            spec_model_element_piece(model, i, p, k, j),
            spec_model_indices_piece(model, other_i, other_p),
        ),
        spec_pieces_agree(
            spec_model_indices_piece(model, other_i, other_p),
            spec_model_element_piece(model, i, p, k, j),
        ),
{
    let a = spec_model_element_piece(model, i, p, k, j);
    let b = spec_model_indices_piece(model, other_i, other_p);
    lemma_element_cell(model, i, p, k, j);
    lemma_indices_cell(model, other_i, other_p);
    if i < other_i {
        lemma_lods_ordered(model, i, other_i);
        lemma_lods_ordered(model, other_i, other_i);
    } else if other_i < i {
        lemma_lods_ordered(model, other_i, i);
        lemma_lods_ordered(model, i, i);
    }
    lemma_apart_agree(a, b);
    lemma_apart_agree(b, a);
}

proof fn lemma_indices_agree(model: MDLView, i: int, p: int, other_i: int, other_p: int)
    requires
        spec_model_ready(model),
        spec_indices_origin(model, i, p),
        spec_indices_origin(model, other_i, other_p),
    ensures
        spec_pieces_agree(
            spec_model_indices_piece(model, i, p),
            spec_model_indices_piece(model, other_i, other_p),
        ),
{
    let a = spec_model_indices_piece(model, i, p);
    let b = spec_model_indices_piece(model, other_i, other_p);
    let meshes = model.model_data.meshes;
    lemma_indices_cell(model, i, p);
    lemma_indices_cell(model, other_i, other_p);
    if i < other_i {
        lemma_lods_ordered(model, i, other_i);
        lemma_lods_ordered(model, other_i, other_i);
        lemma_apart_agree(a, b);
    } else if other_i < i {
        lemma_lods_ordered(model, other_i, i);
        lemma_lods_ordered(model, i, i);
        lemma_apart_agree(a, b);
    } else {
        let first = spec_lod_first(model, i);
        if p < other_p {
            lemma_totals_grow(meshes, first, first + p + 1, first + other_p);
            lemma_apart_agree(a, b);
        } else if other_p < p {
            lemma_totals_grow(meshes, first, first + other_p + 1, first + p);
            lemma_apart_agree(a, b);
        }
    }
}

proof fn lemma_known_agree(model: MDLView, a: Piece, b: Piece)
    requires
        spec_model_ready(model),
        spec_known_element(model, a) || spec_known_indices(model, a),
        spec_known_element(model, b) || spec_known_indices(model, b),
    ensures
        spec_pieces_agree(a, b),
{
    if spec_known_element(model, a) {
        let (i, p, k, j) = choose|i: int, p: int, k: int, j: int|
            spec_element_origin(model, i, p, k, j) && #[trigger] spec_model_element_piece(
                model,
                i,
                p,
                k,
                j,
            ) == a;
        if spec_known_element(model, b) {
            let (other_i, other_p, other_k, other_j) = choose|i: int, p: int, k: int, j: int|
                spec_element_origin(model, i, p, k, j) && #[trigger] spec_model_element_piece(
                    model,
                    i,
                    p,
                    k,
                    j,
                ) == b;
            lemma_elements_agree(model, i, p, k, j, other_i, other_p, other_k, other_j);
        } else {
            let (other_i, other_p) = choose|i: int, p: int|
                spec_indices_origin(model, i, p) && #[trigger] spec_model_indices_piece(
                    model,
                    i,
                    p,
                ) == b;
            lemma_element_indices_agree(model, i, p, k, j, other_i, other_p);
        }
    } else {
        let (i, p) = choose|i: int, p: int|
            spec_indices_origin(model, i, p) && #[trigger] spec_model_indices_piece(model, i, p)
                == a;
        if spec_known_element(model, b) {
            let (other_i, other_p, other_k, other_j) = choose|i: int, p: int, k: int, j: int|
                spec_element_origin(model, i, p, k, j) && #[trigger] spec_model_element_piece(
                    model,
                    i,
                    p,
                    k,
                    j,
                ) == b;
            lemma_element_indices_agree(model, other_i, other_p, other_k, other_j, i, p);
        } else {
            let (other_i, other_p) = choose|i: int, p: int|
                spec_indices_origin(model, i, p) && #[trigger] spec_model_indices_piece(
                    model,
                    i,
                    p,
                ) == b;
            lemma_indices_agree(model, i, p, other_i, other_p);
        }
    }
}

proof fn lemma_known_floor(model: MDLView, a: Piece)
    requires
        spec_model_ready(model),
        spec_known_element(model, a) || spec_known_indices(model, a),
    ensures
        spec_model_floor(model) <= a.at,
{
    if spec_known_element(model, a) {
        let (i, p, k, j) = choose|i: int, p: int, k: int, j: int|
            spec_element_origin(model, i, p, k, j) && #[trigger] spec_model_element_piece(
                model,
                i,
                p,
                k,
                j,
            ) == a;
        lemma_element_cell(model, i, p, k, j);
        lemma_lods_ordered(model, i, i);
    } else {
        let (i, p) = choose|i: int, p: int|
            spec_indices_origin(model, i, p) && #[trigger] spec_model_indices_piece(model, i, p)
                == a;
        lemma_indices_cell(model, i, p);
        lemma_lods_ordered(model, i, i);
    }
}

/// In a model whose pieces have their places, nothing that is written
/// changes what was written before it.
pub proof fn lemma_ready_model_settled(model: MDLView)
    requires
        spec_model_ready(model),
    ensures
        spec_model_settled(model),
{
    let base = spec_model_base(model);
    let start = Piece { at: 0, bytes: base };
    let first = seq![start];
    let pieces = spec_model_pieces(model);
    let all = spec_model_all_pieces(model);
    lemma_model_base_len(model);
    assert forall|a: int, b: int| 0 <= a < b < all.len() implies spec_pieces_agree(
        #[trigger] all[a],
        #[trigger] all[b],
    ) by {
        assert(all[b] == pieces[b - 1]);
        assert(spec_has_piece(pieces, pieces[b - 1]));
        lemma_piece_known(model, pieces[b - 1]);
        if a == 0 {
            assert(all[a] == start);
            lemma_known_floor(model, pieces[b - 1]);
            lemma_apart_agree(start, pieces[b - 1]);
        } else {
            assert(all[a] == pieces[a - 1]);
            assert(spec_has_piece(pieces, pieces[a - 1]));
            lemma_piece_known(model, pieces[a - 1]);
            lemma_known_agree(model, pieces[a - 1], pieces[b - 1]);
        }
    }
    assert forall|t: int| 0 <= t < all.len() implies 0 <= (#[trigger] all[t]).at by {
        if t > 0 {
            assert(all[t] == pieces[t - 1]);
            assert(spec_has_piece(pieces, pieces[t - 1]));
            lemma_piece_known(model, pieces[t - 1]);
            lemma_known_floor(model, pieces[t - 1]);
        }
    }
}

/// In a model whose pieces have their places, every piece ends where the
/// machine can still address it, if the data of every level of detail does.
pub proof fn lemma_ready_pieces_fit(model: MDLView)
    requires
        spec_model_ready(model),
        forall|i: int| 0 <= i < model.lods.len() ==> #[trigger] spec_lod_end(model, i) <= usize::MAX,
    ensures
        spec_pieces_fit(spec_model_pieces(model)),
{
    let pieces = spec_model_pieces(model);
    assert forall|piece: Piece| #[trigger] spec_has_piece(pieces, piece) implies piece.at
        + piece.bytes.len() <= usize::MAX by {
        lemma_piece_known(model, piece);
        if spec_known_element(model, piece) {
            let (i, p, k, j) = choose|i: int, p: int, k: int, j: int|
                spec_element_origin(model, i, p, k, j) && #[trigger] spec_model_element_piece(
                    model,
                    i,
                    p,
                    k,
                    j,
                ) == piece;
            lemma_element_cell(model, i, p, k, j);
            lemma_lods_ordered(model, i, i);
            assert(spec_lod_end(model, i) <= usize::MAX);
        } else {
            let (i, p) = choose|i: int, p: int|
                spec_indices_origin(model, i, p) && #[trigger] spec_model_indices_piece(
                    model,
                    i,
                    p,
                ) == piece;
            lemma_indices_cell(model, i, p);
            assert(spec_lod_end(model, i) <= usize::MAX);
        }
    }
}

/// A model that is laid out is the same model when it is written and read
/// again.
///
/// This holds of every model whose parts agree with its data block, as
/// those of a model that was read do, whose levels of detail, meshes and
/// streams lie one behind the other behind the data block, whose
/// declarations fit its meshes, and that can be written.
pub proof fn lemma_laid_out_model_roundtrip(model: MDLView)
    requires
        spec_model_consistent(model),
        spec_model_laid_out(model),
        spec_model_fitted(model),
        spec_write_model(model).is_some(),
    ensures
        spec_model(spec_write_model(model).unwrap()) == Some(model),
{
    lemma_model_written(model);
    assert forall|i: int, p: int|
        0 <= i < model.lods.len() && 0 <= p < model.lods[i].len() implies #[trigger] spec_part_arranged(
        model,
        i,
        p,
    ) by {
        assert(spec_parts_writable(model.file_header, model.model_data, model.lods[i]));
        assert(spec_part_writable(model.file_header, model.model_data, model.lods[i][p]));
        assert(spec_part_fitted(model, i, p));
    }
    lemma_ready_model_settled(model);
    lemma_model_roundtrip(model);
}

} // verus!
