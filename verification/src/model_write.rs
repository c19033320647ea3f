//! Writing a model back into the bytes of a model file.

use vstd::prelude::*;
use crate::binary::{push_zeros, spec_zeros};
use crate::model::{
    spec_element_position, spec_file_header_bytes, spec_lod_views, spec_model_data_bytes,
    spec_part_views, Lod, MDLView, ModelData, ModelDataView, ModelFileHeader,
    ModelFileHeaderView, Part, PartView, MDL,
};
use crate::records::{lemma_records_bytes_len, spec_records_bytes, write_records};
use crate::model_records::{Mesh, MeshLod};
use crate::model_vertex::{
    element_supported, encode_element, spec_element_supported, spec_encode_element, Vertex,
};
use crate::model_vertex_declarations::{VertexDeclaration, VertexElement};

verus! {

/// The buffer after `bytes` have been written at `at`: they replace what was
/// there, the buffer grows as far as they reach, and a gap between the end of
/// the buffer and `at` is filled with zeros. Writing nothing changes nothing.
pub open spec fn spec_write_at(buffer: Seq<u8>, at: int, bytes: Seq<u8>) -> Seq<u8> {
    if bytes.len() == 0 {
        buffer
    } else {
        let padded = if buffer.len() < at {
            buffer + spec_zeros(at - buffer.len())
        } else {
            buffer
        };
        Seq::new(
            if padded.len() < at + bytes.len() {
                (at + bytes.len()) as nat
            } else {
                padded.len()
            },
            |i: int|
                if at <= i < at + bytes.len() {
                    bytes[i - at]
                } else {
                    padded[i]
                },
        )
    }
}

/// The buffer after the first `n` elements of the declaration have been
/// written for vertex `k` of the mesh, each at its place. There is none where
/// an element's stream is not one of the three, its combination of attribute
/// and encoding is not supported, a half-precision lane does not fit in 16
/// bits, or the place lies beyond what the machine can address.
pub open spec fn spec_write_vertex(
    buffer: Seq<u8>,
    lod: MeshLod,
    mesh: Mesh,
    elements: Seq<VertexElement>,
    vertex: Vertex,
    k: int,
    n: int,
) -> Option<Seq<u8>>
    decreases n,
{
    if n <= 0 {
        Some(buffer)
    } else {
        let element = elements[n - 1];
        match (
            spec_write_vertex(buffer, lod, mesh, elements, vertex, k, n - 1),
            spec_encode_element(vertex, element),
        ) {
            (Some(before), Some(bytes)) => {
                let at = spec_element_position(lod, mesh, element, k);
                if element.stream < 3 && spec_element_supported(element) && at + bytes.len()
                    <= usize::MAX {
                    Some(spec_write_at(before, at, bytes))
                } else {
                    None
                }
            },
            _ => None,
        }
    }
}

/// The buffer after the first `n` vertices have been written.
pub open spec fn spec_write_vertices(
    buffer: Seq<u8>,
    lod: MeshLod,
    mesh: Mesh,
    elements: Seq<VertexElement>,
    vertices: Seq<Vertex>,
    n: int,
) -> Option<Seq<u8>>
    decreases n,
{
    if n <= 0 {
        Some(buffer)
    } else {
        match spec_write_vertices(buffer, lod, mesh, elements, vertices, n - 1) {
            None => None,
            Some(before) => spec_write_vertex(
                before,
                lod,
                mesh,
                elements,
                vertices[n - 1],
                n - 1,
                elements.len() as int,
            ),
        }
    }
}

/// Where the indices of a mesh lie: the start of the index data of the level
/// of detail in the file header, and two bytes for each index before the
/// mesh's first.
pub open spec fn spec_indices_position(
    header: ModelFileHeaderView,
    lod_index: int,
    mesh: Mesh,
) -> int {
    header.index_offsets[lod_index] + mesh.start_index * 2
}

/// The buffer after a part of level of detail `lod_index` has been written:
/// its vertices by the declaration with its mesh's index, then its indices.
/// There is none where the level is not one of the three, the model has no
/// mesh or no declaration with the part's index, a vertex cannot be written,
/// or the indices lie beyond what the machine can address.
pub open spec fn spec_write_part(
    buffer: Seq<u8>,
    header: ModelFileHeaderView,
    data: ModelDataView,
    lod_index: int,
    part: PartView,
) -> Option<Seq<u8>> {
    if 0 <= lod_index < 3 && lod_index < data.lods.len() && part.mesh_index
        < header.vertex_declarations.len() && part.mesh_index < data.meshes.len() {
        let mesh = data.meshes[part.mesh_index as int];
        match spec_write_vertices(
            buffer,
            data.lods[lod_index],
            mesh,
            header.vertex_declarations[part.mesh_index as int],
            part.vertices,
            part.vertices.len() as int,
        ) {
            None => None,
            Some(before) => {
                let at = spec_indices_position(header, lod_index, mesh);
                if at + 2 * part.indices.len() <= usize::MAX {
                    Some(spec_write_at(before, at, spec_records_bytes(part.indices)))
                } else {
                    None
                }
            },
        }
    } else {
        None
    }
}

/// The buffer after the first `n` parts of a level of detail have been written.
pub open spec fn spec_write_parts(
    buffer: Seq<u8>,
    header: ModelFileHeaderView,
    data: ModelDataView,
    lod_index: int,
    parts: Seq<PartView>,
    n: int,
) -> Option<Seq<u8>>
    decreases n,
{
    if n <= 0 {
        Some(buffer)
    } else {
        match spec_write_parts(buffer, header, data, lod_index, parts, n - 1) {
            None => None,
            Some(before) => spec_write_part(before, header, data, lod_index, parts[n - 1]),
        }
    }
}

/// The buffer after the first `n` levels of detail have been written.
pub open spec fn spec_write_lods(
    buffer: Seq<u8>,
    header: ModelFileHeaderView,
    data: ModelDataView,
    lods: Seq<Seq<PartView>>,
    n: int,
) -> Option<Seq<u8>>
    decreases n,
{
    if n <= 0 {
        Some(buffer)
    } else {
        match spec_write_lods(buffer, header, data, lods, n - 1) {
            None => None,
            Some(before) => spec_write_parts(
                before,
                header,
                data,
                n - 1,
                lods[n - 1],
                lods[n - 1].len() as int,
            ),
        }
    }
}

/// Every declaration of the header has at most sixteen elements, so that it
/// can be stored.
pub open spec fn spec_declarations_fit(header: ModelFileHeaderView) -> bool {
    forall|i: int|
        0 <= i < header.vertex_declarations.len() ==> (
        #[trigger] header.vertex_declarations[i]).len() <= 16
}

/// The bytes of a model file that store the model: the file header, the data
/// block, and then, written at the places that the model gives them, the
/// vertices and indices of every part of every level of detail, in their
/// order. There are none where a declaration cannot be stored or a part
/// cannot be written.
pub open spec fn spec_write_model(model: MDLView) -> Option<Seq<u8>> {
    if spec_declarations_fit(model.file_header) {
        spec_write_lods(
            spec_file_header_bytes(model.file_header) + spec_model_data_bytes(model.model_data),
            model.file_header,
            model.model_data,
            model.lods,
            model.lods.len() as int,
        )
    } else {
        None
    }
}

/// Writes `bytes` into the buffer at `at`.
pub fn write_at(buffer: &mut Vec<u8>, at: usize, bytes: &[u8])
    requires
        at + bytes@.len() <= usize::MAX,
    ensures
        final(buffer)@ == spec_write_at(old(buffer)@, at as int, bytes@),
{
    let count: usize = bytes.len();
    if count == 0 {
        return ;
    }
    if buffer.len() < at {
        push_zeros(buffer, at - buffer.len());
    }
    let ghost padded = buffer@;
    let mut i: usize = 0;
    while i < count
        invariant
            i <= count,
            count == bytes@.len(),
            at + count <= usize::MAX,
            at <= padded.len(),
            buffer@.len() == if padded.len() < at + i {
                (at + i) as nat
            } else {
                padded.len()
            },
            forall|j: int|
                0 <= j < buffer@.len() ==> #[trigger] buffer@[j] == if at <= j < at + i {
                    bytes@[j - at]
                } else {
                    padded[j]
                },
        decreases count - i,
    {
        let position: usize = at + i;
        if position < buffer.len() {
            buffer[position] = bytes[i];
        } else {
            buffer.push(bytes[i]);
        }
        i = i + 1;
    }
    assert(buffer@ =~= spec_write_at(old(buffer)@, at as int, bytes@));
}

proof fn lemma_write_vertex_fails(
    buffer: Seq<u8>,
    lod: MeshLod,
    mesh: Mesh,
    elements: Seq<VertexElement>,
    vertex: Vertex,
    k: int,
    n: int,
    count: int,
)
    requires
        0 <= n <= count,
        spec_write_vertex(buffer, lod, mesh, elements, vertex, k, n).is_none(),
    ensures
        spec_write_vertex(buffer, lod, mesh, elements, vertex, k, count).is_none(),
    decreases count - n,
{
    if n < count {
        lemma_write_vertex_fails(buffer, lod, mesh, elements, vertex, k, n, count - 1);
    }
}

proof fn lemma_write_vertices_fails(
    buffer: Seq<u8>,
    lod: MeshLod,
    mesh: Mesh,
    elements: Seq<VertexElement>,
    vertices: Seq<Vertex>,
    n: int,
    count: int,
)
    requires
        0 <= n <= count,
        spec_write_vertices(buffer, lod, mesh, elements, vertices, n).is_none(),
    ensures
        spec_write_vertices(buffer, lod, mesh, elements, vertices, count).is_none(),
    decreases count - n,
{
    if n < count {
        lemma_write_vertices_fails(buffer, lod, mesh, elements, vertices, n, count - 1);
    }
}

proof fn lemma_write_parts_fails(
    buffer: Seq<u8>,
    header: ModelFileHeaderView,
    data: ModelDataView,
    lod_index: int,
    parts: Seq<PartView>,
    n: int,
    count: int,
)
    requires
        0 <= n <= count,
        spec_write_parts(buffer, header, data, lod_index, parts, n).is_none(),
    ensures
        spec_write_parts(buffer, header, data, lod_index, parts, count).is_none(),
    decreases count - n,
{
    if n < count {
        lemma_write_parts_fails(buffer, header, data, lod_index, parts, n, count - 1);
    }
}

proof fn lemma_write_lods_fails(
    buffer: Seq<u8>,
    header: ModelFileHeaderView,
    data: ModelDataView,
    lods: Seq<Seq<PartView>>,
    n: int,
    count: int,
)
    requires
        0 <= n <= count,
        spec_write_lods(buffer, header, data, lods, n).is_none(),
    ensures
        spec_write_lods(buffer, header, data, lods, count).is_none(),
    decreases count - n,
{
    if n < count {
        lemma_write_lods_fails(buffer, header, data, lods, n, count - 1);
    }
}

/// Writes the elements of the declaration for vertex `k` of the mesh.
fn write_vertex(
    buffer: &mut Vec<u8>,
    lod: &MeshLod,
    mesh: &Mesh,
    declaration: &VertexDeclaration,
    vertex: &Vertex,
    k: usize,
) -> (done: bool)
    ensures
        match spec_write_vertex(
            old(buffer)@,
            *lod,
            *mesh,
            declaration@,
            *vertex,
            k as int,
            declaration@.len() as int,
        ) {
            Some(written) => done && final(buffer)@ == written,
            None => !done,
        },
{
    let count: usize = declaration.elements.len();
    let mut e: usize = 0;
    while e < count
        invariant
            e <= count,
            count == declaration@.len(),
            spec_write_vertex(old(buffer)@, *lod, *mesh, declaration@, *vertex, k as int, e as int)
                == Some(buffer@),
        decreases count - e,
    {
        let element = &declaration.elements[e];
        let stream: usize = element.stream as usize;
        let bytes = match encode_element(vertex, element) {
            Some(bytes) => bytes,
            None => {
                proof {
                    lemma_write_vertex_fails(
                        old(buffer)@,
                        *lod,
                        *mesh,
                        declaration@,
                        *vertex,
                        k as int,
                        e + 1,
                        count as int,
                    );
                }
                return false;
            },
        };
        if stream >= 3 || !element_supported(element) {
            proof {
                lemma_write_vertex_fails(
                    old(buffer)@,
                    *lod,
                    *mesh,
                    declaration@,
                    *vertex,
                    k as int,
                    e + 1,
                    count as int,
                );
            }
            return false;
        }
        let stride: u128 = mesh.vertex_buffer_strides[stream] as u128;
        assert(stride * (k as u128) <= 255 * 0xFFFF_FFFF_FFFF_FFFF) by (nonlinear_arith)
            requires
                stride <= 255,
                k <= 0xFFFF_FFFF_FFFF_FFFF,
        ;
        let position: u128 = lod.vertex_data_offset as u128
            + mesh.vertex_buffer_offsets[stream] as u128 + element.offset as u128 + stride * (
        k as u128);
        if position + bytes.len() as u128 > usize::MAX as u128 {
            proof {
                lemma_write_vertex_fails(
                    old(buffer)@,
                    *lod,
                    *mesh,
                    declaration@,
                    *vertex,
                    k as int,
                    e + 1,
                    count as int,
                );
            }
            return false;
        }
        write_at(buffer, position as usize, bytes.as_slice());
        e = e + 1;
    }
    true
}

/// Writes the vertices of a mesh by its declaration.
fn write_vertices(
    buffer: &mut Vec<u8>,
    lod: &MeshLod,
    mesh: &Mesh,
    declaration: &VertexDeclaration,
    vertices: &[Vertex],
) -> (done: bool)
    ensures
        match spec_write_vertices(
            old(buffer)@,
            *lod,
            *mesh,
            declaration@,
            vertices@,
            vertices@.len() as int,
        ) {
            Some(written) => done && final(buffer)@ == written,
            None => !done,
        },
{
    let count: usize = vertices.len();
    let mut k: usize = 0;
    while k < count
        invariant
            k <= count,
            count == vertices@.len(),
            spec_write_vertices(old(buffer)@, *lod, *mesh, declaration@, vertices@, k as int)
                == Some(buffer@),
        decreases count - k,
    {
        if !write_vertex(buffer, lod, mesh, declaration, &vertices[k], k) {
            proof {
                lemma_write_vertices_fails(
                    old(buffer)@,
                    *lod,
                    *mesh,
                    declaration@,
                    vertices@,
                    k + 1,
                    count as int,
                );
            }
            return false;
        }
        k = k + 1;
    }
    true
}

/// Writes a part of level of detail `lod_index`.
fn write_part(
    buffer: &mut Vec<u8>,
    header: &ModelFileHeader,
    block: &ModelData,
    lod_index: usize,
    part: &Part,
) -> (done: bool)
    ensures
        match spec_write_part(old(buffer)@, header@, block@, lod_index as int, part@) {
            Some(written) => done && final(buffer)@ == written,
            None => !done,
        },
{
    let mesh_index: usize = part.mesh_index as usize;
    if lod_index >= 3 || lod_index >= block.lods.len() || mesh_index
        >= header.vertex_declarations.len() || mesh_index >= block.meshes.len() {
        return false;
    }
    let mesh = &block.meshes[mesh_index];
    if !write_vertices(
        buffer,
        &block.lods[lod_index],
        mesh,
        &header.vertex_declarations[mesh_index],
        part.vertices.as_slice(),
    ) {
        return false;
    }
    let at: u128 = header.index_offsets[lod_index] as u128 + mesh.start_index as u128 * 2;
    if at + 2 * part.indices.len() as u128 > usize::MAX as u128 {
        return false;
    }
    let mut bytes: Vec<u8> = Vec::new();
    write_records(&mut bytes, part.indices.as_slice());
    proof {
        lemma_records_bytes_len(part.indices@);
        assert(bytes@ =~= spec_records_bytes(part.indices@));
    }
    write_at(buffer, at as usize, bytes.as_slice());
    true
}

/// Writes the parts of level of detail `lod_index`.
fn write_parts(
    buffer: &mut Vec<u8>,
    header: &ModelFileHeader,
    block: &ModelData,
    lod_index: usize,
    parts: &Vec<Part>,
) -> (done: bool)
    ensures
        match spec_write_parts(
            old(buffer)@,
            header@,
            block@,
            lod_index as int,
            spec_part_views(parts@),
            parts@.len() as int,
        ) {
            Some(written) => done && final(buffer)@ == written,
            None => !done,
        },
{
    let count: usize = parts.len();
    let ghost views = spec_part_views(parts@);
    let mut p: usize = 0;
    while p < count
        invariant
            p <= count,
            count == parts@.len(),
            views == spec_part_views(parts@),
            spec_write_parts(old(buffer)@, header@, block@, lod_index as int, views, p as int)
                == Some(buffer@),
        decreases count - p,
    {
        assert(views[p as int] == parts@[p as int]@);
        if !write_part(buffer, header, block, lod_index, &parts[p]) {
            proof {
                lemma_write_parts_fails(
                    old(buffer)@,
                    header@,
                    block@,
                    lod_index as int,
                    views,
                    p + 1,
                    count as int,
                );
            }
            return false;
        }
        p = p + 1;
    }
    true
}

/// Writes the parts of every level of detail.
fn write_lods(
    buffer: &mut Vec<u8>,
    header: &ModelFileHeader,
    block: &ModelData,
    lods: &Vec<Lod>,
) -> (done: bool)
    ensures
        match spec_write_lods(
            old(buffer)@,
            header@,
            block@,
            spec_lod_views(lods@),
            lods@.len() as int,
        ) {
            Some(written) => done && final(buffer)@ == written,
            None => !done,
        },
{
    let count: usize = lods.len();
    let ghost views = spec_lod_views(lods@);
    let mut l: usize = 0;
    while l < count
        invariant
            l <= count,
            count == lods@.len(),
            views == spec_lod_views(lods@),
            spec_write_lods(old(buffer)@, header@, block@, views, l as int) == Some(buffer@),
        decreases count - l,
    {
        assert(views[l as int] == lods@[l as int]@);
        if !write_parts(buffer, header, block, l, &lods[l].parts) {
            proof {
                lemma_write_lods_fails(old(buffer)@, header@, block@, views, l + 1, count as int);
            }
            return false;
        }
        l = l + 1;
    }
    true
}

impl MDL {
    /// Writes the model into the bytes of a model file.
    ///
    /// Returns nothing where a declaration has more than sixteen elements, a
    /// part refers to a level of detail, a mesh or a declaration that the
    /// model does not have, an element uses a combination of attribute and
    /// encoding that is not supported, a half-precision lane does not fit in
    /// 16 bits, or a place lies beyond what the machine can address.
    pub fn write_to_buffer(&self) -> (bytes: Option<Vec<u8>>)
        ensures
            match bytes {
                Some(bytes) => spec_write_model(self@) == Some(bytes@),
                None => spec_write_model(self@).is_none(),
            },
    {
        let declarations: usize = self.file_header.vertex_declarations.len();
        let mut d: usize = 0;
        while d < declarations
            invariant
                d <= declarations,
                declarations == self.file_header.vertex_declarations@.len(),
                forall|i: int|
                    0 <= i < d ==> (#[trigger] self.file_header.vertex_declarations@[i])@.len()
                        <= 16,
            decreases declarations - d,
        {
            if self.file_header.vertex_declarations[d].elements.len() > 16 {
                assert(self@.file_header.vertex_declarations[d as int].len() > 16);
                return None;
            }
            d = d + 1;
        }
        assert forall|i: int|
            0 <= i < self@.file_header.vertex_declarations.len() implies (
        #[trigger] self@.file_header.vertex_declarations[i]).len() <= 16 by {
            assert(self.file_header.vertex_declarations@[i]@.len() <= 16);
        }
        let mut buffer: Vec<u8> = Vec::new();
        self.file_header.write(&mut buffer);
        self.model_data.write(&mut buffer);
        let ghost start = buffer@;
        assert(start =~= spec_file_header_bytes(self@.file_header) + spec_model_data_bytes(
            self@.model_data,
        ));
        if !write_lods(&mut buffer, &self.file_header, &self.model_data, &self.lods) {
            return None;
        }
        Some(buffer)
    }
}

} // verus!
