//! When a model can be written: every element of every vertex can be
//! encoded, and every piece lies where the machine can address it.

use vstd::prelude::*;
use crate::model::{MDLView, ModelDataView, ModelFileHeaderView, PartView};
use crate::model_pieces::{lemma_has_piece_pushed, spec_has_piece, Piece};
use crate::model_records::{Mesh, MeshLod};
use crate::model_roundtrip::{
    lemma_lods_has, lemma_parts_has, lemma_vertex_has, lemma_vertices_has, spec_element_piece,
    spec_element_writable, spec_indices_piece, spec_lods_pieces, spec_model_pieces,
    spec_part_pieces, spec_part_writable, spec_parts_pieces, spec_parts_writable,
    spec_vertex_pieces, spec_vertex_writable, spec_vertices_pieces,
};
use crate::model_stored::spec_file_header_wf;
use crate::model_vertex::Vertex;
use crate::model_vertex_declarations::VertexElement;
use crate::model_write::{
    spec_declarations_fit, spec_write_lods, spec_write_model, spec_write_part, spec_write_parts,
    spec_write_vertex, spec_write_vertices,
};
use crate::records::lemma_records_bytes_len;

verus! {

/// Every piece ends where the machine can still address it.
pub open spec fn spec_pieces_fit(pieces: Seq<Piece>) -> bool {
    forall|piece: Piece|
        #[trigger] spec_has_piece(pieces, piece) ==> piece.at + piece.bytes.len() <= usize::MAX
}

/// Every part of the model can be written.
pub open spec fn spec_model_writable(model: MDLView) -> bool {
    forall|i: int|
        0 <= i < model.lods.len() ==> spec_parts_writable(
            model.file_header,
            model.model_data,
            #[trigger] model.lods[i],
        )
}

proof fn lemma_vertex_writes(
    buffer: Seq<u8>,
    lod: MeshLod,
    mesh: Mesh,
    elements: Seq<VertexElement>,
    vertex: Vertex,
    k: int,
    n: int,
)
    requires
        0 <= n <= elements.len(),
        spec_vertex_writable(elements, vertex),
        spec_pieces_fit(spec_vertex_pieces(lod, mesh, elements, vertex, k, elements.len() as int)),
    ensures
        spec_write_vertex(buffer, lod, mesh, elements, vertex, k, n).is_some(),
    decreases n,
{
    if n > 0 {
        lemma_vertex_writes(buffer, lod, mesh, elements, vertex, k, n - 1);
        let element = elements[n - 1];
        assert(spec_element_writable(element, vertex));
        lemma_vertex_has(lod, mesh, elements, vertex, k, elements.len() as int, n - 1);
        let piece = spec_element_piece(lod, mesh, element, vertex, k);
        assert(piece.at + piece.bytes.len() <= usize::MAX);
    }
}

proof fn lemma_vertices_write(
    buffer: Seq<u8>,
    lod: MeshLod,
    mesh: Mesh,
    elements: Seq<VertexElement>,
    vertices: Seq<Vertex>,
    n: int,
)
    requires
        0 <= n <= vertices.len(),
        forall|k: int| 0 <= k < vertices.len() ==> spec_vertex_writable(elements, #[trigger] vertices[k]),
        spec_pieces_fit(
            spec_vertices_pieces(lod, mesh, elements, vertices, vertices.len() as int),
        ),
    ensures
        spec_write_vertices(buffer, lod, mesh, elements, vertices, n).is_some(),
    decreases n,
{
    if n > 0 {
        lemma_vertices_write(buffer, lod, mesh, elements, vertices, n - 1);
        let before = spec_write_vertices(buffer, lod, mesh, elements, vertices, n - 1).unwrap();
        let own = spec_vertex_pieces(
            lod,
            mesh,
            elements,
            vertices[n - 1],
            n - 1,
            elements.len() as int,
        );
        assert(spec_vertex_writable(elements, vertices[n - 1]));
        assert forall|piece: Piece| #[trigger] spec_has_piece(own, piece) implies piece.at
            + piece.bytes.len() <= usize::MAX by {
            lemma_vertices_has(
                lod,
                mesh,
                elements,
                vertices,
                vertices.len() as int,
                n - 1,
                piece,
            );
        }
        lemma_vertex_writes(
            before,
            lod,
            mesh,
            elements,
            vertices[n - 1],
            n - 1,
            elements.len() as int,
        );
    }
}

proof fn lemma_part_writes(
    buffer: Seq<u8>,
    header: ModelFileHeaderView,
    data: ModelDataView,
    lod_index: int,
    part: PartView,
)
    requires
        0 <= lod_index < 3,
        lod_index < data.lods.len(),
        spec_part_writable(header, data, part),
        spec_pieces_fit(spec_part_pieces(header, data, lod_index, part)),
    ensures
        spec_write_part(buffer, header, data, lod_index, part).is_some(),
{
    let mesh = data.meshes[part.mesh_index as int];
    let elements = header.vertex_declarations[part.mesh_index as int];
    let lod = data.lods[lod_index];
    let n = part.vertices.len() as int;
    let own = spec_vertices_pieces(lod, mesh, elements, part.vertices, n);
    let last = spec_indices_piece(header, lod_index, mesh, part.indices);
    assert forall|piece: Piece| #[trigger] spec_has_piece(own, piece) implies piece.at
        + piece.bytes.len() <= usize::MAX by {
        lemma_has_piece_pushed(own, last, piece);
    }
    lemma_vertices_write(buffer, lod, mesh, elements, part.vertices, n);
    lemma_has_piece_pushed(own, last, last);
    lemma_records_bytes_len(part.indices);
    assert(last.at + last.bytes.len() <= usize::MAX);
}

proof fn lemma_parts_write(
    buffer: Seq<u8>,
    header: ModelFileHeaderView,
    data: ModelDataView,
    lod_index: int,
    parts: Seq<PartView>,
    n: int,
)
    requires
        0 <= n <= parts.len(),
        0 <= lod_index < 3,
        lod_index < data.lods.len(),
        spec_parts_writable(header, data, parts),
        spec_pieces_fit(spec_parts_pieces(header, data, lod_index, parts, parts.len() as int)),
    ensures
        spec_write_parts(buffer, header, data, lod_index, parts, n).is_some(),
    decreases n,
{
    if n > 0 {
        lemma_parts_write(buffer, header, data, lod_index, parts, n - 1);
        let before = spec_write_parts(buffer, header, data, lod_index, parts, n - 1).unwrap();
        let own = spec_part_pieces(header, data, lod_index, parts[n - 1]);
        assert(spec_part_writable(header, data, parts[n - 1]));
        assert forall|piece: Piece| #[trigger] spec_has_piece(own, piece) implies piece.at
            + piece.bytes.len() <= usize::MAX by {
            lemma_parts_has(header, data, lod_index, parts, parts.len() as int, n - 1, piece);
        }
        lemma_part_writes(before, header, data, lod_index, parts[n - 1]);
    }
}

proof fn lemma_lods_write(
    buffer: Seq<u8>,
    header: ModelFileHeaderView,
    data: ModelDataView,
    lods: Seq<Seq<PartView>>,
    n: int,
)
    requires
        0 <= n <= lods.len(),
        lods.len() <= 3,
        lods.len() <= data.lods.len(),
        forall|i: int| 0 <= i < lods.len() ==> spec_parts_writable(header, data, #[trigger] lods[i]),
        spec_pieces_fit(spec_lods_pieces(header, data, lods, lods.len() as int)),
    ensures
        spec_write_lods(buffer, header, data, lods, n).is_some(),
    decreases n,
{
    if n > 0 {
        lemma_lods_write(buffer, header, data, lods, n - 1);
        let before = spec_write_lods(buffer, header, data, lods, n - 1).unwrap();
        let own = spec_parts_pieces(header, data, n - 1, lods[n - 1], lods[n - 1].len() as int);
        assert(spec_parts_writable(header, data, lods[n - 1]));
        assert forall|piece: Piece| #[trigger] spec_has_piece(own, piece) implies piece.at
            + piece.bytes.len() <= usize::MAX by {
            lemma_lods_has(header, data, lods, lods.len() as int, n - 1, piece);
        }
        lemma_parts_write(before, header, data, n - 1, lods[n - 1], lods[n - 1].len() as int);
    }
}

/// A model can be written where its file header can be stored, it has at
/// most three levels of detail, each with a record in the data block, every
/// part of it can be written, and every piece ends where the machine can
/// still address it.
pub proof fn lemma_model_writes(model: MDLView)
    requires
        spec_file_header_wf(model.file_header),
        model.lods.len() <= 3,
        model.lods.len() <= model.model_data.lods.len(),
        spec_model_writable(model),
        spec_pieces_fit(spec_model_pieces(model)),
    ensures
        spec_write_model(model).is_some(),
{
    let header = model.file_header;
    assert(spec_declarations_fit(header)) by {
        assert forall|i: int| 0 <= i < header.vertex_declarations.len() implies (
        #[trigger] header.vertex_declarations[i]).len() <= 16 by {
            assert(crate::model_vertex_declarations::spec_declaration_wf(
                header.vertex_declarations[i],
            ));
        }
    }
    lemma_lods_write(
        crate::model_roundtrip::spec_model_base(model),
        header,
        model.model_data,
        model.lods,
        model.lods.len() as int,
    );
}

} // verus!
