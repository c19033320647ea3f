//! A model that is written and read again is the same model: the pieces that
//! writing puts into the file, and what reading finds where they stand.

use vstd::prelude::*;
use crate::binary::{
    lemma_holds, lemma_holds_end, lemma_holds_extended, lemma_holds_inside, lemma_holds_whole,
    spec_holds,
};
use crate::model::{
    spec_element_position, spec_element_readable, spec_file_header, spec_file_header_bytes,
    spec_file_header_size, spec_lod_part, spec_model, spec_model_data, spec_model_data_bytes,
    spec_names, spec_part_submeshes, spec_read_indices, spec_read_lod, spec_read_lods,
    spec_read_part, spec_read_vertex, spec_read_vertices, MDLView, ModelDataView,
    ModelFileHeaderView, PartView,
};
use crate::model_pieces::{
    lemma_has_piece_joined, lemma_has_piece_pushed, lemma_pieces_stand, lemma_write_pieces_given,
    lemma_write_pieces_joined, lemma_write_pieces_pushed, lemma_write_pieces_started,
    spec_has_piece, spec_only_pieces, spec_pieces_settled, spec_pieces_stand, spec_write_pieces,
    Piece,
};
use crate::model_records::{Mesh, MeshLod};
use crate::model_stored::{
    lemma_file_header_held, lemma_model_data_held, spec_file_header_wf, spec_model_data_size,
    spec_model_data_wf,
};
use crate::model_vertex::{
    lemma_element_roundtrip, lemma_encoded_width, spec_decode_element, spec_default_vertex,
    spec_element_supported, spec_encode_element, spec_same_attribute, Vertex,
};
use crate::model_vertex_declarations::{
    lemma_end_slot_bounds, spec_declaration, spec_declaration_at, spec_declaration_wf,
    spec_end_slot, spec_slot, spec_slot_stream, END_OF_STREAM, VertexElement, VertexUsage,
};
use crate::model_write::{
    spec_indices_position, spec_write_lods, spec_write_model, spec_write_part, spec_write_parts,
    spec_write_vertex, spec_write_vertices,
};
use crate::records::{lemma_records_bytes_len, lemma_records_held, spec_records, spec_records_bytes};

verus! {

/// The piece that an element of a declaration makes of vertex `k`: the bytes
/// of the element's attribute, at the element's place.
pub open spec fn spec_element_piece(
    lod: MeshLod,
    mesh: Mesh,
    element: VertexElement,
    vertex: Vertex,
    k: int,
) -> Piece {
    Piece {
        at: spec_element_position(lod, mesh, element, k),
        bytes: spec_encode_element(vertex, element).unwrap(),
    }
}

/// The pieces of the first `n` elements of vertex `k`.
pub open spec fn spec_vertex_pieces(
    lod: MeshLod,
    mesh: Mesh,
    elements: Seq<VertexElement>,
    vertex: Vertex,
    k: int,
    n: int,
) -> Seq<Piece>
    decreases n,
{
    if n <= 0 {
        Seq::empty()
    } else {
        spec_vertex_pieces(lod, mesh, elements, vertex, k, n - 1).push(
            spec_element_piece(lod, mesh, elements[n - 1], vertex, k),
        )
    }
}

/// The pieces of the first `n` vertices of a mesh.
pub open spec fn spec_vertices_pieces(
    lod: MeshLod,
    mesh: Mesh,
    elements: Seq<VertexElement>,
    vertices: Seq<Vertex>,
    n: int,
) -> Seq<Piece>
    decreases n,
{
    if n <= 0 {
        Seq::empty()
    } else {
        spec_vertices_pieces(lod, mesh, elements, vertices, n - 1) + spec_vertex_pieces(
            lod,
            mesh,
            elements,
            vertices[n - 1],
            n - 1,
            elements.len() as int,
        )
    }
}

/// The piece that the indices of a part make.
pub open spec fn spec_indices_piece(
    header: ModelFileHeaderView,
    lod_index: int,
    mesh: Mesh,
    indices: Seq<u16>,
) -> Piece {
    Piece {
        at: spec_indices_position(header, lod_index, mesh),
        bytes: spec_records_bytes(indices),
    }
}

/// The pieces of a part of level of detail `lod_index`: those of its
/// vertices, then its indices.
pub open spec fn spec_part_pieces(
    header: ModelFileHeaderView,
    data: ModelDataView,
    lod_index: int,
    part: PartView,
) -> Seq<Piece> {
    let mesh = data.meshes[part.mesh_index as int];
    spec_vertices_pieces(
        data.lods[lod_index],
        mesh,
        header.vertex_declarations[part.mesh_index as int],
        part.vertices,
        part.vertices.len() as int,
    ).push(spec_indices_piece(header, lod_index, mesh, part.indices))
}

/// The pieces of the first `n` parts of a level of detail.
pub open spec fn spec_parts_pieces(
    header: ModelFileHeaderView,
    data: ModelDataView,
    lod_index: int,
    parts: Seq<PartView>,
    n: int,
) -> Seq<Piece>
    decreases n,
{
    if n <= 0 {
        Seq::empty()
    } else {
        spec_parts_pieces(header, data, lod_index, parts, n - 1) + spec_part_pieces(
            header,
            data,
            lod_index,
            parts[n - 1],
        )
    }
}

/// The pieces of the first `n` levels of detail.
pub open spec fn spec_lods_pieces(
    header: ModelFileHeaderView,
    data: ModelDataView,
    lods: Seq<Seq<PartView>>,
    n: int,
) -> Seq<Piece>
    decreases n,
{
    if n <= 0 {
        Seq::empty()
    } else {
        spec_lods_pieces(header, data, lods, n - 1) + spec_parts_pieces(
            header,
            data,
            n - 1,
            lods[n - 1],
            lods[n - 1].len() as int,
        )
    }
}

/// The pieces that writing a model puts behind the file header and the data
/// block: the elements of every vertex and the indices of every part, in the
/// order in which they are written.
pub open spec fn spec_model_pieces(model: MDLView) -> Seq<Piece> {
    spec_lods_pieces(model.file_header, model.model_data, model.lods, model.lods.len() as int)
}

/// The element can be written for the vertex: its stream is one of the three,
/// its combination of attribute and encoding is supported, and the lanes of
/// the vertex fit.
pub open spec fn spec_element_writable(element: VertexElement, vertex: Vertex) -> bool {
    &&& element.stream < 3
    &&& spec_element_supported(element)
    &&& spec_encode_element(vertex, element).is_some()
}

/// Every element of the declaration can be written for the vertex.
pub open spec fn spec_vertex_writable(elements: Seq<VertexElement>, vertex: Vertex) -> bool {
    forall|j: int| 0 <= j < elements.len() ==> spec_element_writable(#[trigger] elements[j], vertex)
}

/// The part belongs to a mesh and a declaration of the model, and every one
/// of its vertices can be written.
pub open spec fn spec_part_writable(
    header: ModelFileHeaderView,
    data: ModelDataView,
    part: PartView,
) -> bool {
    &&& part.mesh_index < header.vertex_declarations.len()
    &&& part.mesh_index < data.meshes.len()
    &&& forall|k: int|
        0 <= k < part.vertices.len() ==> spec_vertex_writable(
            header.vertex_declarations[part.mesh_index as int],
            #[trigger] part.vertices[k],
        )
}

/// Every part of the level of detail can be written.
pub open spec fn spec_parts_writable(
    header: ModelFileHeaderView,
    data: ModelDataView,
    parts: Seq<PartView>,
) -> bool {
    forall|p: int| 0 <= p < parts.len() ==> spec_part_writable(header, data, #[trigger] parts[p])
}

proof fn lemma_vertex_flat(
    buffer: Seq<u8>,
    lod: MeshLod,
    mesh: Mesh,
    elements: Seq<VertexElement>,
    vertex: Vertex,
    k: int,
    n: int,
)
    requires
        0 <= n <= elements.len(),
        spec_write_vertex(buffer, lod, mesh, elements, vertex, k, n).is_some(),
    ensures
        spec_write_vertex(buffer, lod, mesh, elements, vertex, k, n).unwrap() == spec_write_pieces(
            buffer,
            spec_vertex_pieces(lod, mesh, elements, vertex, k, n),
        ),
        forall|j: int| 0 <= j < n ==> spec_element_writable(#[trigger] elements[j], vertex),
    decreases n,
{
    if n > 0 {
        lemma_vertex_flat(buffer, lod, mesh, elements, vertex, k, n - 1);
        lemma_write_pieces_pushed(
            buffer,
            spec_vertex_pieces(lod, mesh, elements, vertex, k, n - 1),
            spec_element_piece(lod, mesh, elements[n - 1], vertex, k),
        );
    }
}

proof fn lemma_vertices_flat(
    buffer: Seq<u8>,
    lod: MeshLod,
    mesh: Mesh,
    elements: Seq<VertexElement>,
    vertices: Seq<Vertex>,
    n: int,
)
    requires
        0 <= n <= vertices.len(),
        spec_write_vertices(buffer, lod, mesh, elements, vertices, n).is_some(),
    ensures
        spec_write_vertices(buffer, lod, mesh, elements, vertices, n).unwrap()
            == spec_write_pieces(
            buffer,
            spec_vertices_pieces(lod, mesh, elements, vertices, n),
        ),
        forall|k: int| 0 <= k < n ==> spec_vertex_writable(elements, #[trigger] vertices[k]),
    decreases n,
{
    if n > 0 {
        lemma_vertices_flat(buffer, lod, mesh, elements, vertices, n - 1);
        let before = spec_write_vertices(buffer, lod, mesh, elements, vertices, n - 1).unwrap();
        lemma_vertex_flat(
            before,
            lod,
            mesh,
            elements,
            vertices[n - 1],
            n - 1,
            elements.len() as int,
        );
        lemma_write_pieces_joined(
            buffer,
            spec_vertices_pieces(lod, mesh, elements, vertices, n - 1),
            spec_vertex_pieces(lod, mesh, elements, vertices[n - 1], n - 1, elements.len() as int),
        );
    }
}

proof fn lemma_part_flat(
    buffer: Seq<u8>,
    header: ModelFileHeaderView,
    data: ModelDataView,
    lod_index: int,
    part: PartView,
)
    requires
        spec_write_part(buffer, header, data, lod_index, part).is_some(),
    ensures
        spec_write_part(buffer, header, data, lod_index, part).unwrap() == spec_write_pieces(
            buffer,
            spec_part_pieces(header, data, lod_index, part),
        ),
        spec_part_writable(header, data, part),
        0 <= lod_index < 3,
{
    let mesh = data.meshes[part.mesh_index as int];
    let elements = header.vertex_declarations[part.mesh_index as int];
    lemma_vertices_flat(
        buffer,
        data.lods[lod_index],
        mesh,
        elements,
        part.vertices,
        part.vertices.len() as int,
    );
    lemma_write_pieces_pushed(
        buffer,
        spec_vertices_pieces(
            data.lods[lod_index],
            mesh,
            elements,
            part.vertices,
            part.vertices.len() as int,
        ),
        spec_indices_piece(header, lod_index, mesh, part.indices),
    );
}

proof fn lemma_parts_flat(
    buffer: Seq<u8>,
    header: ModelFileHeaderView,
    data: ModelDataView,
    lod_index: int,
    parts: Seq<PartView>,
    n: int,
)
    requires
        0 <= n <= parts.len(),
        spec_write_parts(buffer, header, data, lod_index, parts, n).is_some(),
    ensures
        spec_write_parts(buffer, header, data, lod_index, parts, n).unwrap() == spec_write_pieces(
            buffer,
            spec_parts_pieces(header, data, lod_index, parts, n),
        ),
        forall|p: int| 0 <= p < n ==> spec_part_writable(header, data, #[trigger] parts[p]),
        n > 0 ==> 0 <= lod_index < 3,
    decreases n,
{
    if n > 0 {
        lemma_parts_flat(buffer, header, data, lod_index, parts, n - 1);
        let before = spec_write_parts(buffer, header, data, lod_index, parts, n - 1).unwrap();
        lemma_part_flat(before, header, data, lod_index, parts[n - 1]);
        lemma_write_pieces_joined(
            buffer,
            spec_parts_pieces(header, data, lod_index, parts, n - 1),
            spec_part_pieces(header, data, lod_index, parts[n - 1]),
        );
    }
}

proof fn lemma_lods_flat(
    buffer: Seq<u8>,
    header: ModelFileHeaderView,
    data: ModelDataView,
    lods: Seq<Seq<PartView>>,
    n: int,
)
    requires
        0 <= n <= lods.len(),
        spec_write_lods(buffer, header, data, lods, n).is_some(),
    ensures
        spec_write_lods(buffer, header, data, lods, n).unwrap() == spec_write_pieces(
            buffer,
            spec_lods_pieces(header, data, lods, n),
        ),
        forall|i: int| 0 <= i < n ==> spec_parts_writable(header, data, #[trigger] lods[i]),
    decreases n,
{
    if n > 0 {
        lemma_lods_flat(buffer, header, data, lods, n - 1);
        let before = spec_write_lods(buffer, header, data, lods, n - 1).unwrap();
        lemma_parts_flat(before, header, data, n - 1, lods[n - 1], lods[n - 1].len() as int);
        lemma_write_pieces_joined(
            buffer,
            spec_lods_pieces(header, data, lods, n - 1),
            spec_parts_pieces(header, data, n - 1, lods[n - 1], lods[n - 1].len() as int),
        );
    }
}

/// The piece of each of the first `n` elements of a vertex is one of the
/// pieces of the vertex.
pub proof fn lemma_vertex_has(
    lod: MeshLod,
    mesh: Mesh,
    elements: Seq<VertexElement>,
    vertex: Vertex,
    k: int,
    n: int,
    j: int,
)
    requires
        0 <= j < n,
    ensures
        spec_has_piece(
            spec_vertex_pieces(lod, mesh, elements, vertex, k, n),
            spec_element_piece(lod, mesh, elements[j], vertex, k),
        ),
    decreases n,
{
    let before = spec_vertex_pieces(lod, mesh, elements, vertex, k, n - 1);
    let last = spec_element_piece(lod, mesh, elements[n - 1], vertex, k);
    let piece = spec_element_piece(lod, mesh, elements[j], vertex, k);
    if j < n - 1 {
        lemma_vertex_has(lod, mesh, elements, vertex, k, n - 1, j);
    }
    lemma_has_piece_pushed(before, last, piece);
}

/// A piece of one of the first `n` vertices of a mesh is one of their pieces.
pub proof fn lemma_vertices_has(
    lod: MeshLod,
    mesh: Mesh,
    elements: Seq<VertexElement>,
    vertices: Seq<Vertex>,
    n: int,
    k: int,
    piece: Piece,
)
    requires
        0 <= k < n,
        spec_has_piece(
            spec_vertex_pieces(lod, mesh, elements, vertices[k], k, elements.len() as int),
            piece,
        ),
    ensures
        spec_has_piece(spec_vertices_pieces(lod, mesh, elements, vertices, n), piece),
    decreases n,
{
    let before = spec_vertices_pieces(lod, mesh, elements, vertices, n - 1);
    let last = spec_vertex_pieces(
        lod,
        mesh,
        elements,
        vertices[n - 1],
        n - 1,
        elements.len() as int,
    );
    if k < n - 1 {
        lemma_vertices_has(lod, mesh, elements, vertices, n - 1, k, piece);
    }
    lemma_has_piece_joined(before, last, piece);
}

/// A piece of one of the first `n` parts of a level of detail is one of
/// their pieces.
pub proof fn lemma_parts_has(
    header: ModelFileHeaderView,
    data: ModelDataView,
    lod_index: int,
    parts: Seq<PartView>,
    n: int,
    p: int,
    piece: Piece,
)
    requires
        0 <= p < n,
        spec_has_piece(spec_part_pieces(header, data, lod_index, parts[p]), piece),
    ensures
        spec_has_piece(spec_parts_pieces(header, data, lod_index, parts, n), piece),
    decreases n,
{
    let before = spec_parts_pieces(header, data, lod_index, parts, n - 1);
    let last = spec_part_pieces(header, data, lod_index, parts[n - 1]);
    if p < n - 1 {
        lemma_parts_has(header, data, lod_index, parts, n - 1, p, piece);
    }
    lemma_has_piece_joined(before, last, piece);
}

/// A piece of one of the first `n` levels of detail is one of their pieces.
pub proof fn lemma_lods_has(
    header: ModelFileHeaderView,
    data: ModelDataView,
    lods: Seq<Seq<PartView>>,
    n: int,
    i: int,
    piece: Piece,
)
    requires
        0 <= i < n,
        spec_has_piece(
            spec_parts_pieces(header, data, i, lods[i], lods[i].len() as int),
            piece,
        ),
    ensures
        spec_has_piece(spec_lods_pieces(header, data, lods, n), piece),
    decreases n,
{
    let before = spec_lods_pieces(header, data, lods, n - 1);
    let last = spec_parts_pieces(header, data, n - 1, lods[n - 1], lods[n - 1].len() as int);
    if i < n - 1 {
        lemma_lods_has(header, data, lods, n - 1, i, piece);
    }
    lemma_has_piece_joined(before, last, piece);
}

/// One of the first `n` elements of the declaration holds the attribute.
pub open spec fn spec_usage_among(elements: Seq<VertexElement>, n: int, usage: VertexUsage) -> bool {
    exists|j: int| 0 <= j < n && (#[trigger] elements[j]).vertex_usage == usage
}

/// The vertex has in the attribute the lanes of `vertex` where one of the
/// first `n` elements holds the attribute, and zeros where none does.
pub open spec fn spec_attribute_settled(
    read: Vertex,
    vertex: Vertex,
    elements: Seq<VertexElement>,
    n: int,
    usage: VertexUsage,
) -> bool {
    spec_same_attribute(
        read,
        if spec_usage_among(elements, n, usage) {
            vertex
        } else {
            spec_default_vertex()
        },
        usage,
    )
}

/// The vertex has zeros in every attribute that no element of the
/// declaration holds: it is a vertex that reading by the declaration can give.
pub open spec fn spec_vertex_declared(vertex: Vertex, elements: Seq<VertexElement>) -> bool {
    forall|usage: VertexUsage|
        !spec_usage_among(elements, elements.len() as int, usage) ==> #[trigger] spec_same_attribute(
            vertex,
            spec_default_vertex(),
            usage,
        )
}

proof fn lemma_vertex_equal(a: Vertex, b: Vertex)
    requires
        forall|usage: VertexUsage| #[trigger] spec_same_attribute(a, b, usage),
    ensures
        a == b,
{
    assert(spec_same_attribute(a, b, VertexUsage::Position));
    assert(spec_same_attribute(a, b, VertexUsage::Normal));
    assert(spec_same_attribute(a, b, VertexUsage::UV));
    assert(spec_same_attribute(a, b, VertexUsage::BiTangent));
    assert(spec_same_attribute(a, b, VertexUsage::BlendWeights));
    assert(spec_same_attribute(a, b, VertexUsage::BlendIndices));
    assert(spec_same_attribute(a, b, VertexUsage::Color));
}

proof fn lemma_vertex_read_prefix(
    s: Seq<u8>,
    lod: MeshLod,
    mesh: Mesh,
    elements: Seq<VertexElement>,
    vertex: Vertex,
    k: int,
    n: int,
)
    requires
        0 <= n <= elements.len(),
        spec_vertex_writable(elements, vertex),
        spec_pieces_stand(
            s,
            spec_vertex_pieces(lod, mesh, elements, vertex, k, elements.len() as int),
        ),
    ensures
        spec_read_vertex(s, lod, mesh, elements.subrange(0, n), k).is_some(),
        forall|usage: VertexUsage| #[trigger]
            spec_attribute_settled(
                spec_read_vertex(s, lod, mesh, elements.subrange(0, n), k).unwrap(),
                vertex,
                elements,
                n,
                usage,
            ),
    decreases n,
{
    let prefix = elements.subrange(0, n);
    if n == 0 {
        assert forall|usage: VertexUsage| #[trigger]
            spec_attribute_settled(spec_default_vertex(), vertex, elements, 0, usage) by {
            assert(!spec_usage_among(elements, 0, usage));
        }
    } else {
        lemma_vertex_read_prefix(s, lod, mesh, elements, vertex, k, n - 1);
        assert(prefix.drop_last() =~= elements.subrange(0, n - 1));
        let element = elements[n - 1];
        assert(prefix.last() == element);
        let before = spec_read_vertex(s, lod, mesh, elements.subrange(0, n - 1), k).unwrap();
        let at = spec_element_position(lod, mesh, element, k);
        let piece = spec_element_piece(lod, mesh, element, vertex, k);
        assert(spec_element_writable(element, vertex));
        lemma_encoded_width(vertex, element);
        lemma_vertex_has(lod, mesh, elements, vertex, k, elements.len() as int, n - 1);
        assert(spec_holds(s, piece.at, piece.bytes));
        lemma_holds(s, at, piece.bytes);
        assert(spec_element_readable(s, lod, mesh, element, k));
        lemma_element_roundtrip(vertex, before, element, s, at);
        let read = spec_decode_element(before, s, at, element);
        assert(spec_read_vertex(s, lod, mesh, prefix, k) == Some(read));
        assert forall|usage: VertexUsage| #[trigger]
            spec_attribute_settled(read, vertex, elements, n, usage) by {
            if usage == element.vertex_usage {
                assert(spec_usage_among(elements, n, usage));
            } else {
                assert(spec_same_attribute(read, before, usage));
                assert(spec_attribute_settled(before, vertex, elements, n - 1, usage));
                if spec_usage_among(elements, n, usage) {
                    let j = choose|j: int|
                        0 <= j < n && (#[trigger] elements[j]).vertex_usage == usage;
                    assert(j < n - 1);
                    assert(spec_usage_among(elements, n - 1, usage));
                } else {
                    assert(!spec_usage_among(elements, n - 1, usage)) by {
                        if spec_usage_among(elements, n - 1, usage) {
                            let j = choose|j: int|
                                0 <= j < n - 1 && (#[trigger] elements[j]).vertex_usage == usage;
                            assert(elements[j].vertex_usage == usage);
                        }
                    }
                }
            }
        }
    }
}

/// A vertex whose elements stand at their places is read from them, where
/// it has nothing but zeros in the attributes that the declaration leaves out.
pub proof fn lemma_vertex_read(
    s: Seq<u8>,
    lod: MeshLod,
    mesh: Mesh,
    elements: Seq<VertexElement>,
    vertex: Vertex,
    k: int,
)
    requires
        spec_vertex_writable(elements, vertex),
        spec_vertex_declared(vertex, elements),
        spec_pieces_stand(
            s,
            spec_vertex_pieces(lod, mesh, elements, vertex, k, elements.len() as int),
        ),
    ensures
        spec_read_vertex(s, lod, mesh, elements, k) == Some(vertex),
{
    let n = elements.len() as int;
    lemma_vertex_read_prefix(s, lod, mesh, elements, vertex, k, n);
    assert(elements.subrange(0, n) =~= elements);
    let read = spec_read_vertex(s, lod, mesh, elements, k).unwrap();
    assert forall|usage: VertexUsage| #[trigger] spec_same_attribute(read, vertex, usage) by {
        assert(spec_attribute_settled(read, vertex, elements, n, usage));
        if !spec_usage_among(elements, n, usage) {
            assert(spec_same_attribute(vertex, spec_default_vertex(), usage));
        }
    }
    lemma_vertex_equal(read, vertex);
}

proof fn lemma_vertices_read(
    s: Seq<u8>,
    lod: MeshLod,
    mesh: Mesh,
    elements: Seq<VertexElement>,
    vertices: Seq<Vertex>,
)
    requires
        vertices.len() == mesh.vertex_count,
        forall|k: int| 0 <= k < vertices.len() ==> spec_vertex_writable(elements, #[trigger] vertices[k]),
        forall|k: int| 0 <= k < vertices.len() ==> spec_vertex_declared(#[trigger] vertices[k], elements),
        spec_pieces_stand(
            s,
            spec_vertices_pieces(lod, mesh, elements, vertices, vertices.len() as int),
        ),
    ensures
        spec_read_vertices(s, lod, mesh, elements) == Some(vertices),
{
    let n = vertices.len() as int;
    assert forall|k: int| 0 <= k < n implies #[trigger] spec_read_vertex(
        s,
        lod,
        mesh,
        elements,
        k,
    ) == Some(vertices[k]) by {
        let own = spec_vertex_pieces(lod, mesh, elements, vertices[k], k, elements.len() as int);
        assert(spec_vertex_writable(elements, vertices[k]));
        assert(spec_vertex_declared(vertices[k], elements));
        assert forall|piece: Piece| #[trigger]
            spec_has_piece(own, piece) && piece.bytes.len() > 0 implies spec_holds(
            s,
            piece.at,
            piece.bytes,
        ) by {
            lemma_vertices_has(lod, mesh, elements, vertices, n, k, piece);
        }
        lemma_vertex_read(s, lod, mesh, elements, vertices[k], k);
    }
    assert(spec_read_vertices(s, lod, mesh, elements).unwrap() =~= vertices);
}

/// The part has the shape that the data block gives mesh `p` of level of
/// detail `lod_index`: it has the mesh's index and material, as many vertices
/// and indices as the mesh counts, and vertices that reading by the mesh's
/// declaration can give; and the data block has the records of the mesh's
/// submeshes.
pub open spec fn spec_part_shaped(
    header: ModelFileHeaderView,
    data: ModelDataView,
    lod_index: int,
    p: int,
    part: PartView,
) -> bool {
    let mesh_index = data.lods[lod_index].mesh_index + p;
    let mesh = data.meshes[mesh_index];
    &&& mesh_index <= 0xFFFF
    &&& mesh_index < header.vertex_declarations.len()
    &&& mesh_index < data.meshes.len()
    &&& part.mesh_index == mesh_index
    &&& part.material_index == mesh.material_index
    &&& part.vertices.len() == mesh.vertex_count
    &&& part.indices.len() == mesh.index_count
    &&& spec_part_submeshes(mesh, data.submeshes).is_some()
    &&& forall|k: int|
        0 <= k < part.vertices.len() ==> spec_vertex_declared(
            #[trigger] part.vertices[k],
            header.vertex_declarations[mesh_index],
        )
}

/// The parts have the shapes that the data block gives the meshes of level
/// of detail `lod_index`.
pub open spec fn spec_lod_shaped(
    header: ModelFileHeaderView,
    data: ModelDataView,
    lod_index: int,
    parts: Seq<PartView>,
) -> bool {
    &&& parts.len() == data.lods[lod_index].mesh_count
    &&& forall|p: int|
        0 <= p < parts.len() ==> spec_part_shaped(header, data, lod_index, p, #[trigger] parts[p])
}

/// A model whose parts have the shapes that its data block gives them: the
/// file header and the data block can be stored, the names are those at the
/// offsets that the data block lists, there are as many levels of detail as
/// the data block counts, and each has the parts that the data block gives it.
pub open spec fn spec_model_shaped(model: MDLView) -> bool {
    let data = model.model_data;
    &&& spec_file_header_wf(model.file_header)
    &&& spec_model_data_wf(data)
    &&& spec_names(data.header.strings, data.bone_name_offsets) == Some(model.affected_bone_names)
    &&& spec_names(data.header.strings, data.material_name_offsets) == Some(model.material_names)
    &&& model.lods.len() == data.header.info.lod_count
    &&& model.lods.len() <= 3
    &&& forall|i: int|
        0 <= i < model.lods.len() ==> spec_lod_shaped(
            model.file_header,
            data,
            i,
            #[trigger] model.lods[i],
        )
}

/// The part with the submeshes that the data block records for its mesh.
pub open spec fn spec_described_part(data: ModelDataView, part: PartView) -> PartView {
    PartView {
        submeshes: spec_part_submeshes(data.meshes[part.mesh_index as int], data.submeshes).unwrap(),
        ..part
    }
}

/// The parts, each with the submeshes that the data block records for it.
pub open spec fn spec_described_parts(data: ModelDataView, parts: Seq<PartView>) -> Seq<PartView> {
    Seq::new(parts.len(), |p: int| spec_described_part(data, parts[p]))
}

/// The model with the submeshes of every part as its data block records them.
pub open spec fn spec_described_model(model: MDLView) -> MDLView {
    MDLView {
        lods: Seq::new(
            model.lods.len(),
            |i: int| spec_described_parts(model.model_data, model.lods[i]),
        ),
        ..model
    }
}

/// Every part of the model has the submeshes that the data block records
/// for its mesh.
pub open spec fn spec_submeshes_described(model: MDLView) -> bool {
    forall|i: int, p: int|
        0 <= i < model.lods.len() && 0 <= p < model.lods[i].len() ==> spec_described_part(
            model.model_data,
            #[trigger] model.lods[i][p],
        ) == model.lods[i][p]
}

/// A model whose parts agree with its data block, as those of a model that
/// was read do: they have the shapes that the data block gives them, and the
/// submeshes that it records for them.
pub open spec fn spec_model_consistent(model: MDLView) -> bool {
    spec_model_shaped(model) && spec_submeshes_described(model)
}

proof fn lemma_part_read(
    s: Seq<u8>,
    header: ModelFileHeaderView,
    data: ModelDataView,
    lod_index: int,
    p: int,
    part: PartView,
)
    requires
        0 <= lod_index < 3,
        0 <= p,
        spec_part_writable(header, data, part),
        spec_part_shaped(header, data, lod_index, p, part),
        spec_pieces_stand(s, spec_part_pieces(header, data, lod_index, part)),
    ensures
        spec_lod_part(s, header, data, lod_index, p) == Some(spec_described_part(data, part)),
{
    let mesh_index = data.lods[lod_index].mesh_index + p;
    let lod = data.lods[lod_index];
    let mesh = data.meshes[mesh_index];
    let elements = header.vertex_declarations[mesh_index];
    let n = part.vertices.len() as int;
    let own = spec_vertices_pieces(lod, mesh, elements, part.vertices, n);
    let last = spec_indices_piece(header, lod_index, mesh, part.indices);
    let all = spec_part_pieces(header, data, lod_index, part);
    assert(all == own.push(last));
    assert forall|piece: Piece| #[trigger] spec_has_piece(own, piece) && piece.bytes.len()
        > 0 implies spec_holds(s, piece.at, piece.bytes) by {
        lemma_has_piece_pushed(own, last, piece);
    }
    lemma_vertices_read(s, lod, mesh, elements, part.vertices);
    lemma_has_piece_pushed(own, last, last);
    lemma_records_bytes_len(part.indices);
    let at = header.index_offsets[lod_index] + mesh.start_index * 2;
    assert(last.at == at);
    if part.indices.len() > 0 {
        assert(spec_has_piece(all, last));
        assert(spec_holds(s, last.at, last.bytes));
        lemma_records_held(s, at, part.indices);
        lemma_holds(s, at, last.bytes);
    } else {
        assert(spec_records::<u16>(s, at, 0) =~= part.indices);
    }
    assert(spec_read_indices(s, at, mesh.index_count as int) == Some(part.indices));
    let read = spec_read_part(s, header, data, lod_index, mesh_index);
    assert(read.is_some());
    assert(read.unwrap() == spec_described_part(data, part));
}

proof fn lemma_lod_read(
    s: Seq<u8>,
    header: ModelFileHeaderView,
    data: ModelDataView,
    lod_index: int,
    parts: Seq<PartView>,
)
    requires
        0 <= lod_index < 3,
        spec_parts_writable(header, data, parts),
        spec_lod_shaped(header, data, lod_index, parts),
        spec_pieces_stand(
            s,
            spec_parts_pieces(header, data, lod_index, parts, parts.len() as int),
        ),
    ensures
        spec_read_lod(s, header, data, lod_index) == Some(spec_described_parts(data, parts)),
{
    let n = parts.len() as int;
    assert forall|p: int| 0 <= p < n implies #[trigger] spec_lod_part(
        s,
        header,
        data,
        lod_index,
        p,
    ) == Some(spec_described_part(data, parts[p])) by {
        let own = spec_part_pieces(header, data, lod_index, parts[p]);
        assert(spec_part_writable(header, data, parts[p]));
        assert(spec_part_shaped(header, data, lod_index, p, parts[p]));
        assert forall|piece: Piece| #[trigger] spec_has_piece(own, piece) && piece.bytes.len()
            > 0 implies spec_holds(s, piece.at, piece.bytes) by {
            lemma_parts_has(header, data, lod_index, parts, n, p, piece);
        }
        lemma_part_read(s, header, data, lod_index, p, parts[p]);
    }
    assert(spec_read_lod(s, header, data, lod_index).unwrap() =~= spec_described_parts(
        data,
        parts,
    ));
}

proof fn lemma_lods_read(s: Seq<u8>, model: MDLView)
    requires
        spec_model_shaped(model),
        forall|i: int|
            0 <= i < model.lods.len() ==> spec_parts_writable(
                model.file_header,
                model.model_data,
                #[trigger] model.lods[i],
            ),
        spec_pieces_stand(s, spec_model_pieces(model)),
    ensures
        spec_read_lods(s, model.file_header, model.model_data) == Some(
            spec_described_model(model).lods,
        ),
{
    let header = model.file_header;
    let data = model.model_data;
    let lods = model.lods;
    let n = lods.len() as int;
    assert forall|i: int| 0 <= i < n implies #[trigger] spec_read_lod(s, header, data, i) == Some(
        spec_described_parts(data, lods[i]),
    ) by {
        let own = spec_parts_pieces(header, data, i, lods[i], lods[i].len() as int);
        assert(spec_parts_writable(header, data, lods[i]));
        assert(spec_lod_shaped(header, data, i, lods[i]));
        assert forall|piece: Piece| #[trigger] spec_has_piece(own, piece) && piece.bytes.len()
            > 0 implies spec_holds(s, piece.at, piece.bytes) by {
            lemma_lods_has(header, data, lods, n, i, piece);
        }
        lemma_lod_read(s, header, data, i, lods[i]);
    }
    assert(spec_read_lods(s, header, data).unwrap() =~= spec_described_model(model).lods);
}

/// Where the file header and the data block end in a model file.
pub open spec fn spec_model_floor(model: MDLView) -> int {
    spec_file_header_size(model.file_header.vertex_declaration_count as int)
        + spec_model_data_size(model.model_data)
}

/// The bytes of the file header followed by those of the data block.
pub open spec fn spec_model_base(model: MDLView) -> Seq<u8> {
    spec_file_header_bytes(model.file_header) + spec_model_data_bytes(model.model_data)
}

/// The file header and the data block of a model that can be stored have as
/// many bytes together as the place says at which they end.
pub proof fn lemma_model_base_len(model: MDLView)
    requires
        spec_file_header_wf(model.file_header),
        spec_model_data_wf(model.model_data),
    ensures
        spec_model_base(model).len() == spec_model_floor(model),
        0 <= spec_model_floor(model),
{
    lemma_holds_whole(spec_model_base(model));
    lemma_model_base_held(spec_model_base(model), model);
}

proof fn lemma_model_base_held(s: Seq<u8>, model: MDLView)
    requires
        spec_file_header_wf(model.file_header),
        spec_model_data_wf(model.model_data),
        spec_holds(s, 0, spec_model_base(model)),
    ensures
        spec_model_base(model).len() == spec_model_floor(model),
        spec_file_header(s) == Some(model.file_header),
        spec_model_data(
            s,
            spec_file_header_size(model.file_header.vertex_declaration_count as int),
        ) == Some(model.model_data),
{
    let head = spec_file_header_bytes(model.file_header);
    let block = spec_model_data_bytes(model.model_data);
    lemma_holds_whole(head);
    lemma_holds_extended(head, block, 0, head);
    lemma_holds_end(head, block);
    lemma_holds_inside(s, 0, head + block, 0, head);
    lemma_holds_inside(s, 0, head + block, head.len() as int, block);
    lemma_file_header_held(s, model.file_header);
    lemma_model_data_held(s, head.len() as int, model.model_data);
}

/// What is written of a model is its file header and data block with its
/// pieces written behind them, and every part of it can be written.
pub proof fn lemma_model_written(model: MDLView)
    requires
        spec_write_model(model).is_some(),
    ensures
        spec_write_model(model).unwrap() == spec_write_pieces(
            spec_model_base(model),
            spec_model_pieces(model),
        ),
        forall|i: int|
            0 <= i < model.lods.len() ==> spec_parts_writable(
                model.file_header,
                model.model_data,
                #[trigger] model.lods[i],
            ),
{
    lemma_lods_flat(
        spec_model_base(model),
        model.file_header,
        model.model_data,
        model.lods,
        model.lods.len() as int,
    );
}

proof fn lemma_model_assembled(s: Seq<u8>, model: MDLView)
    requires
        spec_file_header(s) == Some(model.file_header),
        spec_model_data(
            s,
            spec_file_header_size(model.file_header.vertex_declaration_count as int),
        ) == Some(model.model_data),
        spec_names(model.model_data.header.strings, model.model_data.bone_name_offsets) == Some(
            model.affected_bone_names,
        ),
        spec_names(model.model_data.header.strings, model.model_data.material_name_offsets)
            == Some(model.material_names),
        spec_read_lods(s, model.file_header, model.model_data) == Some(model.lods),
    ensures
        spec_model(s) == Some(model),
{
}

/// Everything that writing a model puts into the file, in the order in which
/// it is written: the file header with the data block at the start, then the
/// pieces of the vertices and indices.
pub open spec fn spec_model_all_pieces(model: MDLView) -> Seq<Piece> {
    seq![Piece { at: 0, bytes: spec_model_base(model) }] + spec_model_pieces(model)
}

/// Nothing that is written of the model changes what was written before it:
/// where a piece of the vertices or indices lies on the file header, the data
/// block or another piece, it has the same bytes there.
pub open spec fn spec_model_settled(model: MDLView) -> bool {
    spec_pieces_settled(spec_model_all_pieces(model), 0)
}

/// What is read from a model that was written: the model, with the submeshes
/// of every part as the data block records them.
///
/// This holds of every model whose parts have the shapes that its data block
/// gives them, that can be written, and of which nothing that is written
/// changes what was written before it.
pub proof fn lemma_model_reread(model: MDLView)
    requires
        spec_model_shaped(model),
        spec_write_model(model).is_some(),
        spec_model_settled(model),
    ensures
        spec_model(spec_write_model(model).unwrap()) == Some(spec_described_model(model)),
{
    let base = spec_model_base(model);
    let start = Piece { at: 0, bytes: base };
    let pieces = spec_model_pieces(model);
    let all = spec_model_all_pieces(model);
    let written = spec_write_model(model).unwrap();
    lemma_model_written(model);
    lemma_model_base_len(model);
    lemma_write_pieces_started(base, pieces);
    lemma_pieces_stand(Seq::empty(), all, 0, start);
    lemma_model_base_held(written, model);
    assert forall|piece: Piece| #[trigger] spec_has_piece(pieces, piece) && piece.bytes.len()
        > 0 implies spec_holds(written, piece.at, piece.bytes) by {
        assert(spec_has_piece(all, piece));
        lemma_pieces_stand(Seq::empty(), all, 0, piece);
    }
    lemma_lods_read(written, model);
    lemma_model_assembled(written, spec_described_model(model));
}

/// A model that is written and read again is the same model.
///
/// This holds of every model whose parts agree with its data block, as
/// those of a model that was read do, that can be written, and of which
/// nothing that is written changes what was written before it.
pub proof fn lemma_model_roundtrip(model: MDLView)
    requires
        spec_model_consistent(model),
        spec_write_model(model).is_some(),
        spec_model_settled(model),
    ensures
        spec_model(spec_write_model(model).unwrap()) == Some(model),
{
    lemma_model_reread(model);
    let described = spec_described_model(model);
    assert forall|i: int| 0 <= i < model.lods.len() implies described.lods[i]
        == model.lods[i] by {
        assert forall|p: int| 0 <= p < model.lods[i].len() implies described.lods[i][p]
            == model.lods[i][p] by {
            assert(spec_described_part(model.model_data, model.lods[i][p]) == model.lods[i][p]);
        }
        assert(described.lods[i] =~= model.lods[i]);
    }
    assert(described.lods =~= model.lods);
}

/// A file that holds nothing but what writing puts into it of the model
/// that is read from it is written back byte for byte: everything that is
/// written of the model stands in the file already, every other byte of the
/// file is zero, and the file ends with a byte that is written.
pub proof fn lemma_model_file_kept(s: Seq<u8>)
    requires
        spec_model(s).is_some(),
        spec_write_model(spec_model(s).unwrap()).is_some(),
        spec_only_pieces(s, spec_model_all_pieces(spec_model(s).unwrap())),
    ensures
        spec_write_model(spec_model(s).unwrap()) == Some(s),
{
    let model = spec_model(s).unwrap();
    lemma_model_written(model);
    lemma_write_pieces_started(spec_model_base(model), spec_model_pieces(model));
    lemma_write_pieces_given(s, spec_model_all_pieces(model));
}

/// The bytes of a model that was written stay the same when they are read
/// and written again.
pub proof fn lemma_written_model_kept(model: MDLView)
    requires
        spec_model_consistent(model),
        spec_write_model(model).is_some(),
        spec_model_settled(model),
    ensures
        spec_model(spec_write_model(model).unwrap()).is_some(),
        spec_write_model(spec_model(spec_write_model(model).unwrap()).unwrap())
            == spec_write_model(model),
{
    lemma_model_roundtrip(model);
}

proof fn lemma_no_end_before(s: Seq<u8>, at: int, from: int, i: int)
    requires
        1 <= from <= i < spec_end_slot(s, at, from),
        from <= 17,
    ensures
        spec_slot_stream(s, at, i) != END_OF_STREAM,
    decreases 17 - from,
{
    if from < 17 && spec_slot_stream(s, at, from) != END_OF_STREAM && from < i {
        lemma_no_end_before(s, at, from + 1, i);
    }
}

/// A declaration that was read can be stored.
pub proof fn lemma_read_declaration_wf(s: Seq<u8>, at: int)
    requires
        spec_declaration(s, at).is_some(),
    ensures
        spec_declaration_wf(spec_declaration(s, at).unwrap()),
{
    let elements = spec_declaration(s, at).unwrap();
    let end = spec_end_slot(s, at, 1);
    lemma_end_slot_bounds(s, at, 1);
    assert forall|i: int| 1 <= i < elements.len() implies (#[trigger] elements[i]).stream
        != END_OF_STREAM by {
        lemma_no_end_before(s, at, 1, i);
        assert(spec_slot(s, at, i).is_some());
        assert(elements[i].stream == spec_slot_stream(s, at, i));
    }
}

/// A file header that was read can be stored.
pub proof fn lemma_read_file_header_wf(s: Seq<u8>)
    requires
        spec_file_header(s).is_some(),
    ensures
        spec_file_header_wf(spec_file_header(s).unwrap()),
{
    let header = spec_file_header(s).unwrap();
    assert forall|i: int| 0 <= i < header.vertex_declarations.len() implies spec_declaration_wf(
        #[trigger] header.vertex_declarations[i],
    ) by {
        assert(spec_declaration_at(s, 68, i).is_some());
        lemma_read_declaration_wf(s, 68 + 136 * i);
    }
}

/// A data block that was read can be stored.
pub proof fn lemma_read_model_data_wf(s: Seq<u8>, at: int)
    requires
        spec_model_data(s, at).is_some(),
    ensures
        spec_model_data_wf(spec_model_data(s, at).unwrap()),
{
}

proof fn lemma_read_vertex_declared(
    s: Seq<u8>,
    lod: MeshLod,
    mesh: Mesh,
    elements: Seq<VertexElement>,
    k: int,
    n: int,
)
    requires
        0 <= n <= elements.len(),
        spec_read_vertex(s, lod, mesh, elements.subrange(0, n), k).is_some(),
    ensures
        forall|usage: VertexUsage|
            !spec_usage_among(elements, n, usage) ==> #[trigger] spec_same_attribute(
                spec_read_vertex(s, lod, mesh, elements.subrange(0, n), k).unwrap(),
                spec_default_vertex(),
                usage,
            ),
    decreases n,
{
    let prefix = elements.subrange(0, n);
    if n > 0 {
        assert(prefix.drop_last() =~= elements.subrange(0, n - 1));
        assert(prefix.last() == elements[n - 1]);
        lemma_read_vertex_declared(s, lod, mesh, elements, k, n - 1);
        let before = spec_read_vertex(s, lod, mesh, elements.subrange(0, n - 1), k).unwrap();
        let read = spec_read_vertex(s, lod, mesh, prefix, k).unwrap();
        let element = elements[n - 1];
        assert forall|usage: VertexUsage|
            !spec_usage_among(elements, n, usage) implies #[trigger] spec_same_attribute(
            read,
            spec_default_vertex(),
            usage,
        ) by {
            assert(element.vertex_usage != usage);
            assert(!spec_usage_among(elements, n - 1, usage)) by {
                if spec_usage_among(elements, n - 1, usage) {
                    let j = choose|j: int|
                        0 <= j < n - 1 && (#[trigger] elements[j]).vertex_usage == usage;
                    assert(elements[j].vertex_usage == usage);
                }
            }
            assert(spec_same_attribute(before, spec_default_vertex(), usage));
        }
    }
}

/// A model that was read has parts that agree with its data block.
pub proof fn lemma_read_model_consistent(s: Seq<u8>)
    requires
        spec_model(s).is_some(),
    ensures
        spec_model_consistent(spec_model(s).unwrap()),
{
    let model = spec_model(s).unwrap();
    let header = model.file_header;
    let data = model.model_data;
    lemma_read_file_header_wf(s);
    lemma_read_model_data_wf(
        s,
        spec_file_header_size(spec_file_header(s).unwrap().vertex_declaration_count as int),
    );
    assert forall|i: int| 0 <= i < model.lods.len() implies spec_lod_shaped(
        header,
        data,
        i,
        #[trigger] model.lods[i],
    ) by {
        let parts = model.lods[i];
        assert(spec_read_lod(s, header, data, i) == Some(parts));
        assert forall|p: int| 0 <= p < parts.len() implies spec_part_shaped(
            header,
            data,
            i,
            p,
            #[trigger] parts[p],
        ) by {
            lemma_read_part_shaped(s, header, data, i, p);
        }
    }
    assert forall|i: int, p: int|
        0 <= i < model.lods.len() && 0 <= p < model.lods[i].len() implies spec_described_part(
        data,
        #[trigger] model.lods[i][p],
    ) == model.lods[i][p] by {
        assert(spec_read_lod(s, header, data, i) == Some(model.lods[i]));
        lemma_read_part_shaped(s, header, data, i, p);
    }
}

proof fn lemma_read_part_shaped(
    s: Seq<u8>,
    header: ModelFileHeaderView,
    data: ModelDataView,
    lod_index: int,
    p: int,
)
    requires
        0 <= p,
        spec_lod_part(s, header, data, lod_index, p).is_some(),
    ensures
        spec_part_shaped(
            header,
            data,
            lod_index,
            p,
            spec_lod_part(s, header, data, lod_index, p).unwrap(),
        ),
        spec_described_part(data, spec_lod_part(s, header, data, lod_index, p).unwrap())
            == spec_lod_part(s, header, data, lod_index, p).unwrap(),
{
    let part = spec_lod_part(s, header, data, lod_index, p).unwrap();
    let mesh_index = data.lods[lod_index].mesh_index + p;
    let lod = data.lods[lod_index];
    let mesh = data.meshes[mesh_index];
    let elements = header.vertex_declarations[mesh_index];
    assert(spec_read_part(s, header, data, lod_index, mesh_index) == Some(part));
    assert(spec_read_vertices(s, lod, mesh, elements) == Some(part.vertices));
    assert forall|k: int| 0 <= k < part.vertices.len() implies spec_vertex_declared(
        #[trigger] part.vertices[k],
        elements,
    ) by {
        assert(spec_read_vertex(s, lod, mesh, elements, k).is_some());
        assert(elements.subrange(0, elements.len() as int) =~= elements);
        lemma_read_vertex_declared(s, lod, mesh, elements, k, elements.len() as int);
    }
}

/// A model that was read, written, and read again is the same model.
///
/// This holds where the model can be written and nothing that is written of
/// it changes what was written before it.
pub proof fn lemma_read_model_roundtrip(s: Seq<u8>)
    requires
        spec_model(s).is_some(),
        spec_write_model(spec_model(s).unwrap()).is_some(),
        spec_model_settled(spec_model(s).unwrap()),
    ensures
        spec_model(spec_write_model(spec_model(s).unwrap()).unwrap()) == spec_model(s),
{
    lemma_read_model_consistent(s);
    lemma_model_roundtrip(spec_model(s).unwrap());
}

} // verus!
