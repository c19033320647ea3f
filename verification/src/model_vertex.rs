//! One vertex, and how the elements of a declaration store its attributes.
//!
//! A vertex keeps each lane as the unsigned integer that the file stores: a
//! half-precision lane as its 16 bits, a single-precision lane as its 32 bits,
//! a byte lane as its byte. The declaration of the mesh says which it is.

use vstd::prelude::*;
use crate::binary::{
    lemma_piece_at, lemma_u16_le_at, lemma_u32_le_at, push_u16_le, push_u32_le, read_u16_le, read_u32_le,
    spec_u16_le, spec_u16_le_bytes, spec_u32_le, spec_u32_le_bytes,
};
use crate::model_vertex_declarations::{VertexElement, VertexType, VertexUsage};

verus! {

/// The bits of the number one in half precision: the fourth lane that is
/// stored after a three-lane attribute.
pub const HALF_ONE: u16 = 0x3C00;

/// The attributes of one vertex, lane by lane.
#[derive(Clone, Copy, Debug, PartialEq, Eq)]
pub struct Vertex {
    pub position: [u32; 3],
    pub uv0: [u32; 2],
    pub uv1: [u32; 2],
    pub normal: [u32; 3],
    pub bitangent: [u8; 4],
    pub color: [u8; 4],
    pub bone_weight: [u8; 4],
    pub bone_id: [u8; 4],
}

/// The vertex whose lanes are all zero.
pub open spec fn spec_default_vertex() -> Vertex {
    Vertex {
        position: [0u32, 0u32, 0u32],
        uv0: [0u32, 0u32],
        uv1: [0u32, 0u32],
        normal: [0u32, 0u32, 0u32],
        bitangent: [0u8, 0u8, 0u8, 0u8],
        color: [0u8, 0u8, 0u8, 0u8],
        bone_weight: [0u8, 0u8, 0u8, 0u8],
        bone_id: [0u8, 0u8, 0u8, 0u8],
    }
}

impl Default for Vertex {
    fn default() -> (vertex: Vertex)
        ensures
            vertex == spec_default_vertex(),
    {
        Vertex {
            position: [0u32, 0u32, 0u32],
            uv0: [0u32, 0u32],
            uv1: [0u32, 0u32],
            normal: [0u32, 0u32, 0u32],
            bitangent: [0u8, 0u8, 0u8, 0u8],
            color: [0u8, 0u8, 0u8, 0u8],
            bone_weight: [0u8, 0u8, 0u8, 0u8],
            bone_id: [0u8, 0u8, 0u8, 0u8],
        }
    }
}

/// The combinations of attribute and encoding that a model may use.
pub open spec fn spec_element_supported(element: VertexElement) -> bool {
    match element.vertex_usage {
        VertexUsage::Position | VertexUsage::Normal => element.vertex_type == VertexType::Half4
            || element.vertex_type == VertexType::Single3,
        VertexUsage::UV => element.vertex_type == VertexType::Half4 || element.vertex_type
            == VertexType::Single4,
        VertexUsage::BiTangent | VertexUsage::BlendWeights | VertexUsage::Color =>
            element.vertex_type == VertexType::ByteFloat4,
        VertexUsage::BlendIndices => element.vertex_type == VertexType::UInt,
        VertexUsage::Tangent => false,
    }
}

/// The number of bytes that an element of a supported combination occupies.
pub open spec fn spec_element_width(vertex_type: VertexType) -> int {
    match vertex_type {
        VertexType::Half4 => 8,
        VertexType::Single3 => 12,
        VertexType::Single4 => 16,
        VertexType::ByteFloat4 => 4,
        VertexType::UInt => 4,
        _ => 0,
    }
}

/// Lane `lane` of the half-precision lanes stored from `at` on.
pub open spec fn spec_half_lane(s: Seq<u8>, at: int, lane: int) -> u32 {
    spec_u16_le(s, at + 2 * lane) as u32
}

/// Lane `lane` of the single-precision lanes stored from `at` on.
pub open spec fn spec_single_lane(s: Seq<u8>, at: int, lane: int) -> u32 {
    spec_u32_le(s, at + 4 * lane) as u32
}

/// Lane `lane` of the lanes of encoding `vertex_type` stored from `at` on.
pub open spec fn spec_lane(s: Seq<u8>, at: int, vertex_type: VertexType, lane: int) -> u32 {
    if vertex_type == VertexType::Half4 {
        spec_half_lane(s, at, lane)
    } else {
        spec_single_lane(s, at, lane)
    }
}

/// The four bytes stored from `at` on.
pub open spec fn spec_byte_lanes(s: Seq<u8>, at: int) -> [u8; 4] {
    [s[at], s[at + 1], s[at + 2], s[at + 3]]
}

/// The vertex after the element stored at `at` has been taken into it. A
/// position and a normal take the first three lanes, the texture coordinates
/// two lanes each, the others four bytes.
pub open spec fn spec_decode_element(
    vertex: Vertex,
    s: Seq<u8>,
    at: int,
    element: VertexElement,
) -> Vertex {
    let t = element.vertex_type;
    match element.vertex_usage {
        VertexUsage::Position => Vertex {
            position: [spec_lane(s, at, t, 0), spec_lane(s, at, t, 1), spec_lane(s, at, t, 2)],
            ..vertex
        },
        VertexUsage::Normal => Vertex {
            normal: [spec_lane(s, at, t, 0), spec_lane(s, at, t, 1), spec_lane(s, at, t, 2)],
            ..vertex
        },
        VertexUsage::UV => Vertex {
            uv0: [spec_lane(s, at, t, 0), spec_lane(s, at, t, 1)],
            uv1: [spec_lane(s, at, t, 2), spec_lane(s, at, t, 3)],
            ..vertex
        },
        VertexUsage::BiTangent => Vertex { bitangent: spec_byte_lanes(s, at), ..vertex },
        VertexUsage::BlendWeights => Vertex { bone_weight: spec_byte_lanes(s, at), ..vertex },
        VertexUsage::BlendIndices => Vertex { bone_id: spec_byte_lanes(s, at), ..vertex },
        VertexUsage::Color => Vertex { color: spec_byte_lanes(s, at), ..vertex },
        VertexUsage::Tangent => vertex,
    }
}

/// The bytes of four half-precision lanes, if each fits in 16 bits.
pub open spec fn spec_half_lanes_bytes(a: u32, b: u32, c: u32, d: u32) -> Option<Seq<u8>> {
    if a <= 0xFFFF && b <= 0xFFFF && c <= 0xFFFF && d <= 0xFFFF {
        Some(
            spec_u16_le_bytes(a as u16) + spec_u16_le_bytes(b as u16) + spec_u16_le_bytes(c as u16)
                + spec_u16_le_bytes(d as u16),
        )
    } else {
        None
    }
}

/// The bytes of three single-precision lanes.
pub open spec fn spec_single3_bytes(a: u32, b: u32, c: u32) -> Seq<u8> {
    spec_u32_le_bytes(a) + spec_u32_le_bytes(b) + spec_u32_le_bytes(c)
}

/// The bytes of four single-precision lanes.
pub open spec fn spec_single4_bytes(a: u32, b: u32, c: u32, d: u32) -> Seq<u8> {
    spec_u32_le_bytes(a) + spec_u32_le_bytes(b) + spec_u32_le_bytes(c) + spec_u32_le_bytes(d)
}

/// The bytes of three lanes in encoding `vertex_type`. In half precision a
/// fourth lane with the number one follows them.
pub open spec fn spec_three_lanes_bytes(lanes: [u32; 3], vertex_type: VertexType) -> Option<
    Seq<u8>,
> {
    if vertex_type == VertexType::Half4 {
        spec_half_lanes_bytes(lanes[0], lanes[1], lanes[2], HALF_ONE as u32)
    } else {
        Some(spec_single3_bytes(lanes[0], lanes[1], lanes[2]))
    }
}

/// The bytes of the two pairs of texture coordinates in encoding `vertex_type`.
pub open spec fn spec_uv_bytes(uv0: [u32; 2], uv1: [u32; 2], vertex_type: VertexType) -> Option<
    Seq<u8>,
> {
    if vertex_type == VertexType::Half4 {
        spec_half_lanes_bytes(uv0[0], uv0[1], uv1[0], uv1[1])
    } else {
        Some(spec_single4_bytes(uv0[0], uv0[1], uv1[0], uv1[1]))
    }
}

/// The bytes that store the attribute of `vertex` that a supported element
/// holds. There are none where a half-precision lane does not fit in 16 bits.
pub open spec fn spec_encode_element(vertex: Vertex, element: VertexElement) -> Option<Seq<u8>> {
    match element.vertex_usage {
        VertexUsage::Position => spec_three_lanes_bytes(vertex.position, element.vertex_type),
        VertexUsage::Normal => spec_three_lanes_bytes(vertex.normal, element.vertex_type),
        VertexUsage::UV => spec_uv_bytes(vertex.uv0, vertex.uv1, element.vertex_type),
        VertexUsage::BiTangent => Some(vertex.bitangent@),
        VertexUsage::BlendWeights => Some(vertex.bone_weight@),
        VertexUsage::BlendIndices => Some(vertex.bone_id@),
        VertexUsage::Color => Some(vertex.color@),
        VertexUsage::Tangent => None,
    }
}

/// Whether a model may use the element's combination of attribute and encoding.
pub fn element_supported(element: &VertexElement) -> (supported: bool)
    ensures
        supported == spec_element_supported(*element),
{
    match element.vertex_usage {
        VertexUsage::Position | VertexUsage::Normal => match element.vertex_type {
            VertexType::Half4 | VertexType::Single3 => true,
            _ => false,
        },
        VertexUsage::UV => match element.vertex_type {
            VertexType::Half4 | VertexType::Single4 => true,
            _ => false,
        },
        VertexUsage::BiTangent | VertexUsage::BlendWeights | VertexUsage::Color => match element.vertex_type {
            VertexType::ByteFloat4 => true,
            _ => false,
        },
        VertexUsage::BlendIndices => match element.vertex_type {
            VertexType::UInt => true,
            _ => false,
        },
        VertexUsage::Tangent => false,
    }
}

/// The number of bytes that an element of encoding `vertex_type` occupies.
pub fn element_width(vertex_type: VertexType) -> (width: usize)
    ensures
        width == spec_element_width(vertex_type),
{
    match vertex_type {
        VertexType::Half4 => 8,
        VertexType::Single3 => 12,
        VertexType::Single4 => 16,
        VertexType::ByteFloat4 => 4,
        VertexType::UInt => 4,
        _ => 0,
    }
}

fn read_lane(data: &[u8], at: usize, vertex_type: VertexType, lane: usize) -> (value: u32)
    requires
        lane < 4,
        vertex_type == VertexType::Half4 ==> at + 2 * lane + 2 <= data@.len(),
        vertex_type != VertexType::Half4 ==> at + 4 * lane + 4 <= data@.len(),
    ensures
        value == spec_lane(data@, at as int, vertex_type, lane as int),
{
    let len: usize = data.len();
    match vertex_type {
        VertexType::Half4 => read_u16_le(data, at + 2 * lane) as u32,
        _ => read_u32_le(data, at + 4 * lane),
    }
}

fn read_byte_lanes(data: &[u8], at: usize) -> (lanes: [u8; 4])
    requires
        at + 4 <= data@.len(),
    ensures
        lanes == spec_byte_lanes(data@, at as int),
{
    let len: usize = data.len();
    [data[at], data[at + 1], data[at + 2], data[at + 3]]
}

/// Takes the element stored at `at` into the vertex.
pub fn decode_element(vertex: &mut Vertex, data: &[u8], at: usize, element: &VertexElement)
    requires
        spec_element_supported(*element),
        at + spec_element_width(element.vertex_type) <= data@.len(),
    ensures
        *final(vertex) == spec_decode_element(*old(vertex), data@, at as int, *element),
{
    let t = element.vertex_type;
    match element.vertex_usage {
        VertexUsage::Position => {
            vertex.position = [
                read_lane(data, at, t, 0),
                read_lane(data, at, t, 1),
                read_lane(data, at, t, 2),
            ];
        },
        VertexUsage::Normal => {
            vertex.normal = [
                read_lane(data, at, t, 0),
                read_lane(data, at, t, 1),
                read_lane(data, at, t, 2),
            ];
        },
        VertexUsage::UV => {
            vertex.uv0 = [read_lane(data, at, t, 0), read_lane(data, at, t, 1)];
            vertex.uv1 = [read_lane(data, at, t, 2), read_lane(data, at, t, 3)];
        },
        VertexUsage::BiTangent => {
            vertex.bitangent = read_byte_lanes(data, at);
        },
        VertexUsage::BlendWeights => {
            vertex.bone_weight = read_byte_lanes(data, at);
        },
        VertexUsage::BlendIndices => {
            vertex.bone_id = read_byte_lanes(data, at);
        },
        VertexUsage::Color => {
            vertex.color = read_byte_lanes(data, at);
        },
        VertexUsage::Tangent => {},
    }
}

fn half_lanes_bytes(a: u32, b: u32, c: u32, d: u32) -> (bytes: Option<Vec<u8>>)
    ensures
        match bytes {
            Some(bytes) => spec_half_lanes_bytes(a, b, c, d) == Some(bytes@),
            None => spec_half_lanes_bytes(a, b, c, d).is_none(),
        },
{
    if a > 0xFFFF || b > 0xFFFF || c > 0xFFFF || d > 0xFFFF {
        return None;
    }
    let mut bytes: Vec<u8> = Vec::new();
    push_u16_le(&mut bytes, a as u16);
    push_u16_le(&mut bytes, b as u16);
    push_u16_le(&mut bytes, c as u16);
    push_u16_le(&mut bytes, d as u16);
    assert(bytes@ =~= spec_half_lanes_bytes(a, b, c, d).unwrap());
    Some(bytes)
}

fn single_lanes_bytes(a: u32, b: u32, c: u32) -> (bytes: Vec<u8>)
    ensures
        bytes@ == spec_single3_bytes(a, b, c),
{
    let mut bytes: Vec<u8> = Vec::new();
    push_u32_le(&mut bytes, a);
    push_u32_le(&mut bytes, b);
    push_u32_le(&mut bytes, c);
    assert(bytes@ =~= spec_single3_bytes(a, b, c));
    bytes
}

fn three_lanes_bytes(lanes: &[u32; 3], vertex_type: VertexType) -> (bytes: Option<Vec<u8>>)
    ensures
        match bytes {
            Some(bytes) => spec_three_lanes_bytes(*lanes, vertex_type) == Some(bytes@),
            None => spec_three_lanes_bytes(*lanes, vertex_type).is_none(),
        },
{
    match vertex_type {
        VertexType::Half4 => half_lanes_bytes(lanes[0], lanes[1], lanes[2], HALF_ONE as u32),
        _ => Some(single_lanes_bytes(lanes[0], lanes[1], lanes[2])),
    }
}

fn uv_bytes(uv0: &[u32; 2], uv1: &[u32; 2], vertex_type: VertexType) -> (bytes: Option<Vec<u8>>)
    ensures
        match bytes {
            Some(bytes) => spec_uv_bytes(*uv0, *uv1, vertex_type) == Some(bytes@),
            None => spec_uv_bytes(*uv0, *uv1, vertex_type).is_none(),
        },
{
    match vertex_type {
        VertexType::Half4 => half_lanes_bytes(uv0[0], uv0[1], uv1[0], uv1[1]),
        _ => {
            let mut bytes = single_lanes_bytes(uv0[0], uv0[1], uv1[0]);
            push_u32_le(&mut bytes, uv1[1]);
            assert(bytes@ =~= spec_single4_bytes(uv0[0], uv0[1], uv1[0], uv1[1]));
            Some(bytes)
        },
    }
}

fn byte_lanes_bytes(lanes: &[u8; 4]) -> (bytes: Vec<u8>)
    ensures
        bytes@ == lanes@,
{
    let mut bytes: Vec<u8> = Vec::new();
    bytes.push(lanes[0]);
    bytes.push(lanes[1]);
    bytes.push(lanes[2]);
    bytes.push(lanes[3]);
    assert(bytes@ =~= lanes@);
    bytes
}

/// The bytes that store the attribute of `vertex` that the element holds.
pub fn encode_element(vertex: &Vertex, element: &VertexElement) -> (bytes: Option<Vec<u8>>)
    ensures
        match bytes {
            Some(bytes) => spec_encode_element(*vertex, *element) == Some(bytes@),
            None => spec_encode_element(*vertex, *element).is_none(),
        },
{
    match element.vertex_usage {
        VertexUsage::Position => three_lanes_bytes(&vertex.position, element.vertex_type),
        VertexUsage::Normal => three_lanes_bytes(&vertex.normal, element.vertex_type),
        VertexUsage::UV => uv_bytes(&vertex.uv0, &vertex.uv1, element.vertex_type),
        VertexUsage::BiTangent => Some(byte_lanes_bytes(&vertex.bitangent)),
        VertexUsage::BlendWeights => Some(byte_lanes_bytes(&vertex.bone_weight)),
        VertexUsage::BlendIndices => Some(byte_lanes_bytes(&vertex.bone_id)),
        VertexUsage::Color => Some(byte_lanes_bytes(&vertex.color)),
        VertexUsage::Tangent => None,
    }
}

/// Two vertices have the same lanes in the attribute.
pub open spec fn spec_same_attribute(a: Vertex, b: Vertex, usage: VertexUsage) -> bool {
    match usage {
        VertexUsage::Position => a.position == b.position,
        VertexUsage::Normal => a.normal == b.normal,
        VertexUsage::UV => a.uv0 == b.uv0 && a.uv1 == b.uv1,
        VertexUsage::BiTangent => a.bitangent == b.bitangent,
        VertexUsage::BlendWeights => a.bone_weight == b.bone_weight,
        VertexUsage::BlendIndices => a.bone_id == b.bone_id,
        VertexUsage::Color => a.color == b.color,
        VertexUsage::Tangent => true,
    }
}

proof fn lemma_half_lanes_at(s: Seq<u8>, at: int, a: u32, b: u32, c: u32, d: u32)
    requires
        0 <= at,
        at + 8 <= s.len(),
        spec_half_lanes_bytes(a, b, c, d) == Some(s.subrange(at, at + 8)),
    ensures
        spec_half_lane(s, at, 0) == a,
        spec_half_lane(s, at, 1) == b,
        spec_half_lane(s, at, 2) == c,
        spec_half_lane(s, at, 3) == d,
{
    let pa = spec_u16_le_bytes(a as u16);
    let pb = spec_u16_le_bytes(b as u16);
    let pc = spec_u16_le_bytes(c as u16);
    let pd = spec_u16_le_bytes(d as u16);
    let empty = Seq::<u8>::empty();
    let whole = s.subrange(at, at + 8);
    assert(whole == pa + pb + pc + pd);
    assert(whole =~= empty + pa + (pb + pc + pd));
    lemma_piece_at(s, at, empty, pa, pb + pc + pd);
    assert(whole =~= pa + pb + (pc + pd));
    lemma_piece_at(s, at, pa, pb, pc + pd);
    assert(whole =~= (pa + pb) + pc + pd);
    lemma_piece_at(s, at, pa + pb, pc, pd);
    assert(whole =~= (pa + pb + pc) + pd + empty);
    lemma_piece_at(s, at, pa + pb + pc, pd, empty);
    lemma_u16_le_at(s, at, a as u16);
    lemma_u16_le_at(s, at + 2, b as u16);
    lemma_u16_le_at(s, at + 4, c as u16);
    lemma_u16_le_at(s, at + 6, d as u16);
}

proof fn lemma_single_lanes_at(s: Seq<u8>, at: int, lanes: Seq<u32>)
    requires
        0 <= at,
        3 <= lanes.len() <= 4,
        at + 4 * lanes.len() <= s.len(),
        s.subrange(at, at + 4 * lanes.len()) == if lanes.len() == 3 {
            spec_single3_bytes(lanes[0], lanes[1], lanes[2])
        } else {
            spec_single4_bytes(lanes[0], lanes[1], lanes[2], lanes[3])
        },
    ensures
        forall|lane: int| 0 <= lane < lanes.len() ==> spec_single_lane(s, at, lane) == lanes[lane],
{
    let pa = spec_u32_le_bytes(lanes[0]);
    let pb = spec_u32_le_bytes(lanes[1]);
    let pc = spec_u32_le_bytes(lanes[2]);
    let empty = Seq::<u8>::empty();
    let whole = s.subrange(at, at + 4 * lanes.len());
    let tail = if lanes.len() == 3 {
        empty
    } else {
        spec_u32_le_bytes(lanes[3])
    };
    assert(whole =~= pa + pb + pc + tail);
    assert(whole =~= empty + pa + (pb + pc + tail));
    lemma_piece_at(s, at, empty, pa, pb + pc + tail);
    assert(whole =~= pa + pb + (pc + tail));
    lemma_piece_at(s, at, pa, pb, pc + tail);
    assert(whole =~= (pa + pb) + pc + tail);
    lemma_piece_at(s, at, pa + pb, pc, tail);
    lemma_u32_le_at(s, at, lanes[0]);
    lemma_u32_le_at(s, at + 4, lanes[1]);
    lemma_u32_le_at(s, at + 8, lanes[2]);
    if lanes.len() == 4 {
        assert(whole =~= (pa + pb + pc) + tail + empty);
        lemma_piece_at(s, at, pa + pb + pc, tail, empty);
        lemma_u32_le_at(s, at + 12, lanes[3]);
    }
    assert forall|lane: int| 0 <= lane < lanes.len() implies spec_single_lane(s, at, lane)
        == lanes[lane] by {
        if lane == 0 {
        } else if lane == 1 {
        } else if lane == 2 {
        } else {
        }
    }
}

/// What an element stores of a vertex is read back. Where the bytes of the
/// element's attribute of `vertex` stand at `at`, taking the element into any
/// vertex gives it the lanes of `vertex` in that attribute, and leaves its
/// other attributes as they were. The bytes are as many as the element's
/// encoding takes.
pub proof fn lemma_element_roundtrip(
    vertex: Vertex,
    other: Vertex,
    element: VertexElement,
    s: Seq<u8>,
    at: int,
)
    requires
        spec_element_supported(element),
        spec_encode_element(vertex, element).is_some(),
        0 <= at,
        at + spec_element_width(element.vertex_type) <= s.len(),
        s.subrange(at, at + spec_element_width(element.vertex_type)) == spec_encode_element(
            vertex,
            element,
        ).unwrap(),
    ensures
        spec_encode_element(vertex, element).unwrap().len() == spec_element_width(
            element.vertex_type,
        ),
        spec_same_attribute(
            spec_decode_element(other, s, at, element),
            vertex,
            element.vertex_usage,
        ),
        forall|usage: VertexUsage|
            usage != element.vertex_usage ==> spec_same_attribute(
                spec_decode_element(other, s, at, element),
                other,
                usage,
            ),
{
    let read = spec_decode_element(other, s, at, element);
    let t = element.vertex_type;
    lemma_encoded_width(vertex, element);
    match element.vertex_usage {
        VertexUsage::Position => {
            if t == VertexType::Half4 {
                lemma_half_lanes_at(
                    s,
                    at,
                    vertex.position[0],
                    vertex.position[1],
                    vertex.position[2],
                    HALF_ONE as u32,
                );
            } else {
                lemma_single_lanes_at(s, at, vertex.position@);
            }
            assert(read.position =~= vertex.position);
        },
        VertexUsage::Normal => {
            if t == VertexType::Half4 {
                lemma_half_lanes_at(
                    s,
                    at,
                    vertex.normal[0],
                    vertex.normal[1],
                    vertex.normal[2],
                    HALF_ONE as u32,
                );
            } else {
                lemma_single_lanes_at(s, at, vertex.normal@);
            }
            assert(read.normal =~= vertex.normal);
        },
        VertexUsage::UV => {
            if t == VertexType::Half4 {
                lemma_half_lanes_at(
                    s,
                    at,
                    vertex.uv0[0],
                    vertex.uv0[1],
                    vertex.uv1[0],
                    vertex.uv1[1],
                );
            } else {
                lemma_single_lanes_at(
                    s,
                    at,
                    seq![vertex.uv0[0], vertex.uv0[1], vertex.uv1[0], vertex.uv1[1]],
                );
            }
            assert(read.uv0 =~= vertex.uv0);
            assert(read.uv1 =~= vertex.uv1);
        },
        VertexUsage::BiTangent => {
            lemma_byte_lanes_at(s, at, vertex.bitangent);
        },
        VertexUsage::BlendWeights => {
            lemma_byte_lanes_at(s, at, vertex.bone_weight);
        },
        VertexUsage::BlendIndices => {
            lemma_byte_lanes_at(s, at, vertex.bone_id);
        },
        VertexUsage::Color => {
            lemma_byte_lanes_at(s, at, vertex.color);
        },
        VertexUsage::Tangent => {},
    }
}

proof fn lemma_byte_lanes_at(s: Seq<u8>, at: int, lanes: [u8; 4])
    requires
        0 <= at,
        at + 4 <= s.len(),
        s.subrange(at, at + 4) == lanes@,
    ensures
        spec_byte_lanes(s, at) == lanes,
{
    let bytes = s.subrange(at, at + 4);
    assert forall|i: int| 0 <= i < 4 implies s[at + i] == lanes@[i] by {
        assert(s[at + i] == bytes[i]);
    }
    assert(spec_byte_lanes(s, at) =~= lanes);
}

/// The bytes that store an attribute are as many as the encoding takes.
pub proof fn lemma_encoded_width(vertex: Vertex, element: VertexElement)
    requires
        spec_element_supported(element),
        spec_encode_element(vertex, element).is_some(),
    ensures
        spec_encode_element(vertex, element).unwrap().len() == spec_element_width(
            element.vertex_type,
        ),
{
}

} // verus!
