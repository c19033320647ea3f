//! Vertex declarations: for each mesh, the list of elements that says where in
//! its vertex streams each attribute of a vertex lies, and how it is encoded.

use vstd::prelude::*;
use crate::binary::{
    lemma_holds_appended, lemma_holds_inside, push_zeros, spec_holds, spec_zeros,
};

verus! {

/// The stream byte that marks the end of a declaration.
pub const END_OF_STREAM: u8 = 0xFF;

/// The number of bytes of one element.
pub const ELEMENT_SIZE: usize = 8;

/// The number of element slots that a declaration occupies, the end marker included.
pub const DECLARATION_SLOTS: usize = 17;

/// The number of bytes that a declaration occupies.
pub const DECLARATION_SIZE: usize = 136;

/// How the lanes of an element are encoded.
#[derive(PartialEq, Eq, Structural, Clone, Copy, Debug)]
pub enum VertexType {
    Invalid,
    Single3,
    Single4,
    UInt,
    ByteFloat4,
    Half2,
    Half4,
}

/// The attribute of a vertex that an element holds.
#[derive(PartialEq, Eq, Structural, Clone, Copy, Debug)]
pub enum VertexUsage {
    Position,
    BlendWeights,
    BlendIndices,
    Normal,
    UV,
    Tangent,
    BiTangent,
    Color,
}

/// One element of a declaration.
#[derive(PartialEq, Eq, Structural, Clone, Copy, Debug)]
pub struct VertexElement {
    pub stream: u8,
    pub offset: u8,
    pub vertex_type: VertexType,
    pub vertex_usage: VertexUsage,
    pub usage_index: u8,
}

/// The elements of one mesh.
#[derive(Clone, Debug)]
pub struct VertexDeclaration {
    pub elements: Vec<VertexElement>,
}

impl View for VertexDeclaration {
    type V = Seq<VertexElement>;

    open spec fn view(&self) -> Seq<VertexElement> {
        self.elements@
    }
}

/// The encoding that a type byte stands for.
pub open spec fn spec_vertex_type(code: u8) -> Option<VertexType> {
    if code == 0 {
        Some(VertexType::Invalid)
    } else if code == 2 {
        Some(VertexType::Single3)
    } else if code == 3 {
        Some(VertexType::Single4)
    } else if code == 5 {
        Some(VertexType::UInt)
    } else if code == 8 {
        Some(VertexType::ByteFloat4)
    } else if code == 13 {
        Some(VertexType::Half2)
    } else if code == 14 {
        Some(VertexType::Half4)
    } else {
        None
    }
}

/// The type byte of an encoding.
pub open spec fn spec_vertex_type_code(vertex_type: VertexType) -> u8 {
    match vertex_type {
        VertexType::Invalid => 0,
        VertexType::Single3 => 2,
        VertexType::Single4 => 3,
        VertexType::UInt => 5,
        VertexType::ByteFloat4 => 8,
        VertexType::Half2 => 13,
        VertexType::Half4 => 14,
    }
}

/// The attribute that a usage byte stands for.
pub open spec fn spec_vertex_usage(code: u8) -> Option<VertexUsage> {
    if code == 0 {
        Some(VertexUsage::Position)
    } else if code == 1 {
        Some(VertexUsage::BlendWeights)
    } else if code == 2 {
        Some(VertexUsage::BlendIndices)
    } else if code == 3 {
        Some(VertexUsage::Normal)
    } else if code == 4 {
        Some(VertexUsage::UV)
    } else if code == 5 {
        Some(VertexUsage::Tangent)
    } else if code == 6 {
        Some(VertexUsage::BiTangent)
    } else if code == 7 {
        Some(VertexUsage::Color)
    } else {
        None
    }
}

/// The usage byte of an attribute.
pub open spec fn spec_vertex_usage_code(usage: VertexUsage) -> u8 {
    match usage {
        VertexUsage::Position => 0,
        VertexUsage::BlendWeights => 1,
        VertexUsage::BlendIndices => 2,
        VertexUsage::Normal => 3,
        VertexUsage::UV => 4,
        VertexUsage::Tangent => 5,
        VertexUsage::BiTangent => 6,
        VertexUsage::Color => 7,
    }
}

impl VertexType {
    /// The encoding that a type byte stands for, if it stands for one.
    pub fn from_code(code: u8) -> (r: Option<VertexType>)
        ensures
            r == spec_vertex_type(code),
    {
        match code {
            0 => Some(VertexType::Invalid),
            2 => Some(VertexType::Single3),
            3 => Some(VertexType::Single4),
            5 => Some(VertexType::UInt),
            8 => Some(VertexType::ByteFloat4),
            13 => Some(VertexType::Half2),
            14 => Some(VertexType::Half4),
            _ => None,
        }
    }

    /// The type byte of this encoding.
    pub fn code(self) -> (code: u8)
        ensures
            code == spec_vertex_type_code(self),
            spec_vertex_type(code) == Some(self),
    {
        match self {
            VertexType::Invalid => 0,
            VertexType::Single3 => 2,
            VertexType::Single4 => 3,
            VertexType::UInt => 5,
            VertexType::ByteFloat4 => 8,
            VertexType::Half2 => 13,
            VertexType::Half4 => 14,
        }
    }
}

impl VertexUsage {
    /// The attribute that a usage byte stands for, if it stands for one.
    pub fn from_code(code: u8) -> (r: Option<VertexUsage>)
        ensures
            r == spec_vertex_usage(code),
    {
        match code {
            0 => Some(VertexUsage::Position),
            1 => Some(VertexUsage::BlendWeights),
            2 => Some(VertexUsage::BlendIndices),
            3 => Some(VertexUsage::Normal),
            4 => Some(VertexUsage::UV),
            5 => Some(VertexUsage::Tangent),
            6 => Some(VertexUsage::BiTangent),
            7 => Some(VertexUsage::Color),
            _ => None,
        }
    }

    /// The usage byte of this attribute.
    pub fn code(self) -> (code: u8)
        ensures
            code == spec_vertex_usage_code(self),
            spec_vertex_usage(code) == Some(self),
    {
        match self {
            VertexUsage::Position => 0,
            VertexUsage::BlendWeights => 1,
            VertexUsage::BlendIndices => 2,
            VertexUsage::Normal => 3,
            VertexUsage::UV => 4,
            VertexUsage::Tangent => 5,
            VertexUsage::BiTangent => 6,
            VertexUsage::Color => 7,
        }
    }
}

/// The element stored in the eight bytes at `at`: stream, offset, type, usage,
/// usage index and three bytes of padding. There is none where the buffer ends
/// early or the type or usage byte stands for nothing.
pub open spec fn spec_element(s: Seq<u8>, at: int) -> Option<VertexElement> {
    if 0 <= at && at + 8 <= s.len() {
        match (spec_vertex_type(s[at + 2]), spec_vertex_usage(s[at + 3])) {
            (Some(vertex_type), Some(vertex_usage)) => Some(
                VertexElement {
                    stream: s[at],
                    offset: s[at + 1],
                    vertex_type,
                    vertex_usage,
                    usage_index: s[at + 4],
                },
            ),
            _ => None,
        }
    } else {
        None
    }
}

/// The element in slot `slot` of the declaration that starts at `at`.
pub open spec fn spec_slot(s: Seq<u8>, at: int, slot: int) -> Option<VertexElement> {
    spec_element(s, at + 8 * slot)
}

/// The eight bytes that store an element.
pub open spec fn spec_element_bytes(element: VertexElement) -> Seq<u8> {
    seq![
        element.stream,
        element.offset,
        spec_vertex_type_code(element.vertex_type),
        spec_vertex_usage_code(element.vertex_usage),
        element.usage_index,
        0u8,
        0u8,
        0u8,
    ]
}

/// The stream byte of slot `slot` of the declaration that starts at `at`.
pub open spec fn spec_slot_stream(s: Seq<u8>, at: int, slot: int) -> u8 {
    s[at + 8 * slot]
}

/// The first slot from `from` on whose stream byte is the end marker, or 17 if
/// no slot of the declaration has it.
pub open spec fn spec_end_slot(s: Seq<u8>, at: int, from: int) -> int
    decreases 17 - from,
{
    if from >= 17 {
        17
    } else if spec_slot_stream(s, at, from) == END_OF_STREAM {
        from
    } else {
        spec_end_slot(s, at, from + 1)
    }
}

/// Slots 0 to `upto` of the declaration at `at` all hold an element.
pub open spec fn spec_slots_valid(s: Seq<u8>, at: int, upto: int) -> bool {
    forall|slot: int| 0 <= slot <= upto ==> (#[trigger] spec_slot(s, at, slot)).is_some()
}

/// The declaration stored in the 136 bytes at `at`. Slot 0 always holds an
/// element; the elements end before the first later slot that holds the end
/// marker. There is no declaration where the buffer ends early, where none of
/// slots 1 to 16 holds the end marker, or where a slot up to the marker holds
/// no element.
pub open spec fn spec_declaration(s: Seq<u8>, at: int) -> Option<Seq<VertexElement>> {
    let end = spec_end_slot(s, at, 1);
    if 0 <= at && at + 136 <= s.len() && end < 17 && spec_slots_valid(s, at, end) {
        Some(Seq::new(end as nat, |slot: int| spec_slot(s, at, slot).unwrap()))
    } else {
        None
    }
}

/// The declaration with index `index` of those stored back to back from `at` on.
pub open spec fn spec_declaration_at(s: Seq<u8>, at: int, index: int) -> Option<
    Seq<VertexElement>,
> {
    spec_declaration(s, at + 136 * index)
}

/// The `count` declarations stored back to back from `at` on, if each of them
/// is one.
pub open spec fn spec_declarations(s: Seq<u8>, at: int, count: int) -> Option<
    Seq<Seq<VertexElement>>,
> {
    if forall|index: int|
        0 <= index < count ==> (#[trigger] spec_declaration_at(s, at, index)).is_some() {
        Some(Seq::new(count as nat, |index: int| spec_declaration_at(s, at, index).unwrap()))
    } else {
        None
    }
}

/// A declaration that can be stored: one to sixteen elements, of which only
/// the first may carry the end marker as its stream.
pub open spec fn spec_declaration_wf(elements: Seq<VertexElement>) -> bool {
    &&& 1 <= elements.len() <= 16
    &&& forall|i: int| 1 <= i < elements.len() ==> (#[trigger] elements[i]).stream != END_OF_STREAM
}

/// The bytes of the elements, one after the other.
pub open spec fn spec_elements_bytes(elements: Seq<VertexElement>) -> Seq<u8>
    decreases elements.len(),
{
    if elements.len() == 0 {
        Seq::empty()
    } else {
        spec_elements_bytes(elements.drop_last()) + spec_element_bytes(elements.last())
    }
}

/// The eight bytes of the end marker.
pub open spec fn spec_end_marker_bytes() -> Seq<u8> {
    seq![END_OF_STREAM, 0u8, 0u8, 0u8, 0u8, 0u8, 0u8, 0u8]
}

/// The 136 bytes that store a declaration: its elements, the end marker, and
/// zeros up to the end.
pub open spec fn spec_declaration_bytes(elements: Seq<VertexElement>) -> Seq<u8> {
    spec_elements_bytes(elements) + spec_end_marker_bytes() + spec_zeros(
        136 - 8 * (elements.len() + 1),
    )
}

/// The bytes of the declarations, one after the other.
pub open spec fn spec_declarations_bytes(declarations: Seq<Seq<VertexElement>>) -> Seq<u8>
    decreases declarations.len(),
{
    if declarations.len() == 0 {
        Seq::empty()
    } else {
        spec_declarations_bytes(declarations.drop_last()) + spec_declaration_bytes(
            declarations.last(),
        )
    }
}

/// The views of the declarations.
pub open spec fn spec_declaration_views(declarations: Seq<VertexDeclaration>) -> Seq<
    Seq<VertexElement>,
> {
    Seq::new(declarations.len(), |i: int| declarations[i]@)
}

/// Reads the element at `at`.
pub fn read_element(data: &[u8], at: usize) -> (r: Option<VertexElement>)
    ensures
        r == spec_element(data@, at as int),
{
    if data.len() < 8 || at > data.len() - 8 {
        return None;
    }
    let vertex_type = match VertexType::from_code(data[at + 2]) {
        Some(t) => t,
        None => { return None; },
    };
    let vertex_usage = match VertexUsage::from_code(data[at + 3]) {
        Some(u) => u,
        None => { return None; },
    };
    Some(
        VertexElement {
            stream: data[at],
            offset: data[at + 1],
            vertex_type,
            vertex_usage,
            usage_index: data[at + 4],
        },
    )
}

proof fn lemma_end_slot_found(s: Seq<u8>, at: int, from: int, slot: int)
    requires
        1 <= from <= slot < 17,
        spec_slot_stream(s, at, slot) == END_OF_STREAM,
        forall|i: int| from <= i < slot ==> spec_slot_stream(s, at, i) != END_OF_STREAM,
    ensures
        spec_end_slot(s, at, from) == slot,
    decreases slot - from,
{
    if from < slot {
        assert(spec_slot_stream(s, at, from) != END_OF_STREAM);
        lemma_end_slot_found(s, at, from + 1, slot);
    }
}

proof fn lemma_end_slot_missing(s: Seq<u8>, at: int, from: int)
    requires
        1 <= from <= 17,
        forall|i: int| from <= i < 17 ==> spec_slot_stream(s, at, i) != END_OF_STREAM,
    ensures
        spec_end_slot(s, at, from) == 17,
    decreases 17 - from,
{
    if from < 17 {
        assert(spec_slot_stream(s, at, from) != END_OF_STREAM);
        lemma_end_slot_missing(s, at, from + 1);
    }
}

/// The end marker is found at `from` or behind it, or not at all.
pub proof fn lemma_end_slot_bounds(s: Seq<u8>, at: int, from: int)
    requires
        from <= 17,
    ensures
        from <= spec_end_slot(s, at, from) <= 17,
    decreases 17 - from,
{
    if from < 17 && spec_slot_stream(s, at, from) != END_OF_STREAM {
        lemma_end_slot_bounds(s, at, from + 1);
    }
}

/// Reads the declaration at `at`.
pub fn read_declaration(data: &[u8], at: usize) -> (r: Option<VertexDeclaration>)
    ensures
        match r {
            Some(declaration) => spec_declaration(data@, at as int) == Some(declaration@),
            None => spec_declaration(data@, at as int).is_none(),
        },
{
    if data.len() < 136 || at > data.len() - 136 {
        return None;
    }
    let mut elements: Vec<VertexElement> = Vec::new();
    let mut slot: usize = 0;
    while slot < 17
        invariant
            slot <= 17,
            at + 136 <= data@.len() <= usize::MAX,
            elements@.len() == slot,
            forall|i: int| 0 <= i < slot ==> spec_slot(data@, at as int, i) == Some(#[trigger] elements@[i]),
            forall|i: int| 1 <= i < slot ==> spec_slot_stream(data@, at as int, i) != END_OF_STREAM,
        decreases 17 - slot,
    {
        let element = match read_element(data, at + 8 * slot) {
            Some(e) => e,
            None => {
                proof {
                    let end = spec_end_slot(data@, at as int, 1);
                    lemma_end_slot_bounds(data@, at as int, 1);
                    if end < 17 && spec_slots_valid(data@, at as int, end) {
                        if end < slot as int {
                            lemma_end_slot_before(data@, at as int, 1, slot as int);
                        } else {
                            assert(spec_slot(data@, at as int, slot as int).is_some());
                        }
                    }
                }
                return None;
            },
        };
        if slot >= 1 && element.stream == END_OF_STREAM {
            proof {
                lemma_end_slot_found(data@, at as int, 1, slot as int);
                assert forall|i: int| 0 <= i <= slot implies (#[trigger] spec_slot(
                    data@,
                    at as int,
                    i,
                )).is_some() by {
                    if i < slot {
                        assert(spec_slot(data@, at as int, i) == Some(elements@[i]));
                    }
                }
                assert(elements@ =~= Seq::new(
                    slot as nat,
                    |i: int| spec_slot(data@, at as int, i).unwrap(),
                ));
            }
            return Some(VertexDeclaration { elements });
        }
        elements.push(element);
        slot = slot + 1;
    }
    proof {
        lemma_end_slot_missing(data@, at as int, 1);
    }
    None
}

proof fn lemma_end_slot_before(s: Seq<u8>, at: int, from: int, bound: int)
    requires
        1 <= from <= bound <= 17,
        forall|i: int| from <= i < bound ==> spec_slot_stream(s, at, i) != END_OF_STREAM,
    ensures
        spec_end_slot(s, at, from) >= bound,
    decreases bound - from,
{
    if from < bound {
        assert(spec_slot_stream(s, at, from) != END_OF_STREAM);
        lemma_end_slot_before(s, at, from + 1, bound);
    } else {
        lemma_end_slot_bounds(s, at, from);
    }
}

/// Reads `count` declarations stored back to back from `at` on.
pub fn read_declarations(data: &[u8], at: usize, count: u16) -> (r: Option<Vec<VertexDeclaration>>)
    ensures
        match r {
            Some(declarations) => spec_declarations(data@, at as int, count as int) == Some(
                spec_declaration_views(declarations@),
            ),
            None => spec_declarations(data@, at as int, count as int).is_none(),
        },
{
    let mut declarations: Vec<VertexDeclaration> = Vec::new();
    let mut index: usize = 0;
    while index < count as usize
        invariant
            index <= count,
            declarations@.len() == index,
            forall|i: int|
                0 <= i < index ==> spec_declaration_at(data@, at as int, i) == Some(
                    (#[trigger] declarations@[i])@,
                ),
        decreases count - index,
    {
        if at > data.len() || 136 * index > data.len() - at {
            assert(spec_declaration_at(data@, at as int, index as int).is_none());
            return None;
        }
        match read_declaration(data, at + 136 * index) {
            Some(declaration) => {
                declarations.push(declaration);
            },
            None => {
                assert(spec_declaration_at(data@, at as int, index as int).is_none());
                return None;
            },
        }
        index = index + 1;
    }
    proof {
        assert forall|i: int| 0 <= i < count implies (#[trigger] spec_declaration_at(
            data@,
            at as int,
            i,
        )).is_some() by {
            assert(spec_declaration_at(data@, at as int, i) == Some(declarations@[i]@));
        }
        assert(spec_declaration_views(declarations@) =~= Seq::new(
            count as nat,
            |i: int| spec_declaration_at(data@, at as int, i).unwrap(),
        ));
    }
    Some(declarations)
}

/// Appends the eight bytes of an element.
pub fn write_element(out: &mut Vec<u8>, element: &VertexElement)
    ensures
        final(out)@ == old(out)@ + spec_element_bytes(*element),
{
    out.push(element.stream);
    out.push(element.offset);
    out.push(element.vertex_type.code());
    out.push(element.vertex_usage.code());
    out.push(element.usage_index);
    out.push(0u8);
    out.push(0u8);
    out.push(0u8);
    assert(out@ =~= old(out)@ + spec_element_bytes(*element));
}

/// Appends the 136 bytes of a declaration.
pub fn write_declaration(out: &mut Vec<u8>, declaration: &VertexDeclaration)
    requires
        declaration@.len() <= 16,
    ensures
        final(out)@ == old(out)@ + spec_declaration_bytes(declaration@),
{
    let count: usize = declaration.elements.len();
    let mut i: usize = 0;
    while i < count
        invariant
            i <= count,
            count == declaration@.len(),
            out@ == old(out)@ + spec_elements_bytes(declaration@.subrange(0, i as int)),
        decreases count - i,
    {
        write_element(out, &declaration.elements[i]);
        proof {
            let next = declaration@.subrange(0, i + 1);
            assert(next.drop_last() =~= declaration@.subrange(0, i as int));
            assert(out@ =~= old(out)@ + spec_elements_bytes(next));
        }
        i = i + 1;
    }
    assert(declaration@.subrange(0, count as int) =~= declaration@);
    out.push(END_OF_STREAM);
    push_zeros(out, 7);
    push_zeros(out, 136 - 8 * (count + 1));
    proof {
        assert(seq![END_OF_STREAM] + spec_zeros(7) =~= spec_end_marker_bytes());
        assert(out@ =~= old(out)@ + spec_declaration_bytes(declaration@));
    }
}

/// Appends the bytes of all the declarations.
pub fn write_declarations(out: &mut Vec<u8>, declarations: &Vec<VertexDeclaration>)
    requires
        forall|i: int| 0 <= i < declarations@.len() ==> (#[trigger] declarations@[i])@.len() <= 16,
    ensures
        final(out)@ == old(out)@ + spec_declarations_bytes(spec_declaration_views(declarations@)),
{
    let count: usize = declarations.len();
    let ghost views = spec_declaration_views(declarations@);
    let mut i: usize = 0;
    while i < count
        invariant
            i <= count,
            count == declarations@.len(),
            views == spec_declaration_views(declarations@),
            forall|i: int|
                0 <= i < declarations@.len() ==> (#[trigger] declarations@[i])@.len() <= 16,
            out@ == old(out)@ + spec_declarations_bytes(views.subrange(0, i as int)),
        decreases count - i,
    {
        write_declaration(out, &declarations[i]);
        proof {
            let next = views.subrange(0, i + 1);
            assert(next.drop_last() =~= views.subrange(0, i as int));
            assert(next.last() == declarations@[i as int]@);
            assert(out@ =~= old(out)@ + spec_declarations_bytes(next));
        }
        i = i + 1;
    }
    assert(views.subrange(0, count as int) =~= views);
}

/// The bytes of a list of elements are eight for each, and each element's
/// bytes stand at its place among them.
pub proof fn lemma_elements_bytes(elements: Seq<VertexElement>)
    ensures
        spec_elements_bytes(elements).len() == 8 * elements.len(),
        forall|i: int|
            0 <= i < elements.len() ==> spec_holds(
                spec_elements_bytes(elements),
                8 * i,
                spec_element_bytes(#[trigger] elements[i]),
            ),
    decreases elements.len(),
{
    if elements.len() > 0 {
        let front = elements.drop_last();
        lemma_elements_bytes(front);
        lemma_holds_appended(spec_elements_bytes(front), spec_element_bytes(elements.last()));
        assert forall|i: int| 0 <= i < elements.len() implies spec_holds(
            spec_elements_bytes(elements),
            8 * i,
            spec_element_bytes(#[trigger] elements[i]),
        ) by {
            if i < front.len() {
                assert(front[i] == elements[i]);
            }
        }
    }
}

/// Where the bytes of an element stand in a buffer, the element is read there.
pub proof fn lemma_element_held(s: Seq<u8>, at: int, element: VertexElement)
    requires
        spec_holds(s, at, spec_element_bytes(element)),
    ensures
        spec_element(s, at) == Some(element),
{
    reveal(spec_holds);
    let bytes = spec_element_bytes(element);
    assert forall|i: int| 0 <= i < 8 implies s[at + i] == bytes[i] by {
        assert(s.subrange(at, at + 8)[i] == s[at + i]);
    }
}

/// Where the 136 bytes of a declaration that can be stored stand in a buffer,
/// the declaration is read there.
pub proof fn lemma_declaration_held(s: Seq<u8>, at: int, elements: Seq<VertexElement>)
    requires
        spec_declaration_wf(elements),
        spec_holds(s, at, spec_declaration_bytes(elements)),
    ensures
        spec_declaration_bytes(elements).len() == 136,
        spec_declaration(s, at) == Some(elements),
{
    reveal(spec_holds);
    let count = elements.len() as int;
    let body = spec_elements_bytes(elements);
    let marker = spec_end_marker_bytes();
    let zeros = spec_zeros(136 - 8 * (count + 1));
    let bytes = spec_declaration_bytes(elements);
    lemma_elements_bytes(elements);
    lemma_holds_appended(body, marker);
    lemma_holds_appended(body + marker, zeros);
    assert(bytes.len() == 136);
    assert forall|i: int| 0 <= i < count implies spec_slot(s, at, i) == Some(
        elements[i],
    ) && spec_slot_stream(s, at, i) == elements[i].stream by {
        assert(spec_holds(body, 8 * i, spec_element_bytes(elements[i])));
        assert(spec_holds(body + marker, 8 * i, spec_element_bytes(elements[i])));
        assert(spec_holds(bytes, 8 * i, spec_element_bytes(elements[i])));
        lemma_holds_inside(s, at, bytes, 8 * i, spec_element_bytes(elements[i]));
        lemma_element_held(s, at + 8 * i, elements[i]);
        assert(s.subrange(at + 8 * i, at + 8 * i + 8)[0] == s[at + 8 * i]);
    }
    assert(spec_holds(bytes, 8 * count, marker));
    lemma_holds_inside(s, at, bytes, 8 * count, marker);
    assert forall|i: int| 0 <= i < 8 implies s[at + 8 * count + i] == marker[i] by {
        assert(s.subrange(at + 8 * count, at + 8 * count + 8)[i] == s[at + 8 * count + i]);
    }
    assert(spec_slot_stream(s, at, count) == END_OF_STREAM);
    assert(spec_slot(s, at, count).is_some());
    assert forall|i: int| 1 <= i < count implies spec_slot_stream(s, at, i) != END_OF_STREAM by {
        assert(spec_slot_stream(s, at, i) == elements[i].stream);
    }
    lemma_end_slot_found(s, at, 1, count);
    assert forall|slot: int| 0 <= slot <= count implies (#[trigger] spec_slot(
        s,
        at,
        slot,
    )).is_some() by {
        if slot < count {
            assert(spec_slot(s, at, slot) == Some(elements[slot]));
        }
    }
    assert(spec_declaration(s, at).unwrap() =~= elements);
}

/// The bytes of a list of declarations that can be stored are 136 for each,
/// and each declaration's bytes stand at its place among them.
pub proof fn lemma_declarations_bytes(declarations: Seq<Seq<VertexElement>>)
    requires
        forall|i: int|
            0 <= i < declarations.len() ==> spec_declaration_wf(#[trigger] declarations[i]),
    ensures
        spec_declarations_bytes(declarations).len() == 136 * declarations.len(),
        forall|i: int|
            0 <= i < declarations.len() ==> spec_holds(
                spec_declarations_bytes(declarations),
                136 * i,
                spec_declaration_bytes(#[trigger] declarations[i]),
            ),
    decreases declarations.len(),
{
    if declarations.len() > 0 {
        let front = declarations.drop_last();
        let last = declarations.last();
        assert forall|i: int| 0 <= i < front.len() implies spec_declaration_wf(
            #[trigger] front[i],
        ) by {
            assert(front[i] == declarations[i]);
        }
        lemma_declarations_bytes(front);
        assert(spec_declaration_wf(declarations[declarations.len() - 1]));
        lemma_elements_bytes(last);
        assert(spec_declaration_bytes(last).len() == 136);
        lemma_holds_appended(spec_declarations_bytes(front), spec_declaration_bytes(last));
        assert forall|i: int| 0 <= i < declarations.len() implies spec_holds(
            spec_declarations_bytes(declarations),
            136 * i,
            spec_declaration_bytes(#[trigger] declarations[i]),
        ) by {
            if i < front.len() {
                assert(front[i] == declarations[i]);
            }
        }
    }
}

/// Where the bytes of a list of declarations that can be stored stand in a
/// buffer, the declarations are read there.
pub proof fn lemma_declarations_held(s: Seq<u8>, at: int, declarations: Seq<Seq<VertexElement>>)
    requires
        forall|i: int|
            0 <= i < declarations.len() ==> spec_declaration_wf(#[trigger] declarations[i]),
        spec_holds(s, at, spec_declarations_bytes(declarations)),
    ensures
        spec_declarations_bytes(declarations).len() == 136 * declarations.len(),
        spec_declarations(s, at, declarations.len() as int) == Some(declarations),
{
    lemma_declarations_bytes(declarations);
    assert forall|i: int| 0 <= i < declarations.len() implies spec_declaration_at(s, at, i)
        == Some(declarations[i]) by {
        lemma_holds_inside(
            s,
            at,
            spec_declarations_bytes(declarations),
            136 * i,
            spec_declaration_bytes(declarations[i]),
        );
        lemma_declaration_held(s, at + 136 * i, declarations[i]);
    }
    assert(spec_declarations(s, at, declarations.len() as int).unwrap() =~= declarations);
}

} // verus!
