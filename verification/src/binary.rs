//! Little-endian and big-endian integers inside byte buffers.

use vstd::prelude::*;
use crate::text::push_char;

verus! {

/// The unsigned 16-bit integer stored little-endian at `at`.
pub open spec fn spec_u16_le(s: Seq<u8>, at: int) -> int {
    s[at] as int + 0x100 * (s[at + 1] as int)
}

/// The unsigned 32-bit integer stored little-endian at `at`.
pub open spec fn spec_u32_le(s: Seq<u8>, at: int) -> int {
    s[at] as int + 0x100 * (s[at + 1] as int) + 0x1_0000 * (s[at + 2] as int) + 0x100_0000 * (s[at
        + 3] as int)
}

/// The unsigned 64-bit integer stored little-endian at `at`.
pub open spec fn spec_u64_le(s: Seq<u8>, at: int) -> int {
    spec_u32_le(s, at) + 0x1_0000_0000 * spec_u32_le(s, at + 4)
}

/// The unsigned 16-bit integer stored big-endian at `at`.
pub open spec fn spec_u16_be(s: Seq<u8>, at: int) -> int {
    0x100 * (s[at] as int) + s[at + 1] as int
}

/// The unsigned 32-bit integer stored big-endian at `at`.
pub open spec fn spec_u32_be(s: Seq<u8>, at: int) -> int {
    0x100_0000 * (s[at] as int) + 0x1_0000 * (s[at + 1] as int) + 0x100 * (s[at + 2] as int) + s[at
        + 3] as int
}

/// The unsigned 64-bit integer stored big-endian at `at`.
pub open spec fn spec_u64_be(s: Seq<u8>, at: int) -> int {
    0x1_0000_0000 * spec_u32_be(s, at) + spec_u32_be(s, at + 4)
}

/// The two bytes that store `v` little-endian.
pub open spec fn spec_u16_le_bytes(v: u16) -> Seq<u8> {
    seq![(v % 0x100) as u8, (v / 0x100) as u8]
}

/// The four bytes that store `v` little-endian.
pub open spec fn spec_u32_le_bytes(v: u32) -> Seq<u8> {
    seq![
        (v % 0x100) as u8,
        (v / 0x100 % 0x100) as u8,
        (v / 0x1_0000 % 0x100) as u8,
        (v / 0x100_0000) as u8,
    ]
}

/// The eight bytes that store `v` little-endian.
pub open spec fn spec_u64_le_bytes(v: u64) -> Seq<u8> {
    spec_u32_le_bytes((v % 0x1_0000_0000) as u32) + spec_u32_le_bytes((v / 0x1_0000_0000) as u32)
}

/// `n` zero bytes.
pub open spec fn spec_zeros(n: int) -> Seq<u8> {
    Seq::new(
        if n < 0 {
            0
        } else {
            n as nat
        },
        |i: int| 0u8,
    )
}

/// Reads a little-endian `u16`.
pub fn read_u16_le(data: &[u8], at: usize) -> (v: u16)
    requires
        at + 2 <= data@.len(),
    ensures
        v == spec_u16_le(data@, at as int),
{
    let b0: u16 = data[at] as u16;
    let b1: u16 = data[at + 1] as u16;
    b0 + 0x100 * b1
}

/// Reads a little-endian `u32`.
pub fn read_u32_le(data: &[u8], at: usize) -> (v: u32)
    requires
        at + 4 <= data@.len(),
    ensures
        v == spec_u32_le(data@, at as int),
{
    let b0: u32 = data[at] as u32;
    let b1: u32 = data[at + 1] as u32;
    let b2: u32 = data[at + 2] as u32;
    let b3: u32 = data[at + 3] as u32;
    b0 + 0x100 * b1 + 0x1_0000 * b2 + 0x100_0000 * b3
}

/// Reads a little-endian `u64`.
pub fn read_u64_le(data: &[u8], at: usize) -> (v: u64)
    requires
        at + 8 <= data@.len(),
    ensures
        v == spec_u64_le(data@, at as int),
{
    let len: usize = data.len();
    let low: u64 = read_u32_le(data, at) as u64;
    let high: u64 = read_u32_le(data, at + 4) as u64;
    low + 0x1_0000_0000 * high
}

/// Reads a big-endian `u16`.
pub fn read_u16_be(data: &[u8], at: usize) -> (v: u16)
    requires
        at + 2 <= data@.len(),
    ensures
        v == spec_u16_be(data@, at as int),
{
    let b0: u16 = data[at] as u16;
    let b1: u16 = data[at + 1] as u16;
    0x100 * b0 + b1
}

/// Reads a big-endian `u32`.
pub fn read_u32_be(data: &[u8], at: usize) -> (v: u32)
    requires
        at + 4 <= data@.len(),
    ensures
        v == spec_u32_be(data@, at as int),
{
    let b0: u32 = data[at] as u32;
    let b1: u32 = data[at + 1] as u32;
    let b2: u32 = data[at + 2] as u32;
    let b3: u32 = data[at + 3] as u32;
    0x100_0000 * b0 + 0x1_0000 * b1 + 0x100 * b2 + b3
}

/// Reads a big-endian `u64`.
pub fn read_u64_be(data: &[u8], at: usize) -> (v: u64)
    requires
        at + 8 <= data@.len(),
    ensures
        v == spec_u64_be(data@, at as int),
{
    let len: usize = data.len();
    let high: u64 = read_u32_be(data, at) as u64;
    let low: u64 = read_u32_be(data, at + 4) as u64;
    0x1_0000_0000 * high + low
}

/// Appends `v` little-endian.
pub fn push_u16_le(out: &mut Vec<u8>, v: u16)
    ensures
        final(out)@ == old(out)@ + spec_u16_le_bytes(v),
{
    out.push((v % 0x100) as u8);
    out.push((v / 0x100) as u8);
    assert(out@ =~= old(out)@ + spec_u16_le_bytes(v));
}

/// Appends `v` little-endian.
pub fn push_u32_le(out: &mut Vec<u8>, v: u32)
    ensures
        final(out)@ == old(out)@ + spec_u32_le_bytes(v),
{
    out.push((v % 0x100) as u8);
    out.push((v / 0x100 % 0x100) as u8);
    out.push((v / 0x1_0000 % 0x100) as u8);
    out.push((v / 0x100_0000) as u8);
    assert(out@ =~= old(out)@ + spec_u32_le_bytes(v));
}

/// Appends `v` little-endian.
pub fn push_u64_le(out: &mut Vec<u8>, v: u64)
    ensures
        final(out)@ == old(out)@ + spec_u64_le_bytes(v),
{
    push_u32_le(out, (v % 0x1_0000_0000) as u32);
    push_u32_le(out, (v / 0x1_0000_0000) as u32);
    assert(out@ =~= old(out)@ + spec_u64_le_bytes(v));
}

/// Appends `n` zero bytes.
pub fn push_zeros(out: &mut Vec<u8>, n: usize)
    ensures
        final(out)@ == old(out)@ + spec_zeros(n as int),
{
    let mut i: usize = 0;
    while i < n
        invariant
            i <= n,
            out@ == old(out)@ + spec_zeros(i as int),
        decreases n - i,
    {
        out.push(0u8);
        i = i + 1;
        assert(out@ =~= old(out)@ + spec_zeros(i as int));
    }
}

/// Appends all of `bytes`.
pub fn push_bytes(out: &mut Vec<u8>, bytes: &[u8])
    ensures
        final(out)@ == old(out)@ + bytes@,
{
    let mut i: usize = 0;
    while i < bytes.len()
        invariant
            i <= bytes@.len(),
            out@ == old(out)@ + bytes@.subrange(0, i as int),
        decreases bytes@.len() - i,
    {
        out.push(bytes[i]);
        i = i + 1;
        assert(out@ =~= old(out)@ + bytes@.subrange(0, i as int));
    }
    assert(bytes@.subrange(0, bytes@.len() as int) =~= bytes@);
}

/// The bytes of `data` from `from` up to `to`, copied out.
pub fn copy_range(data: &[u8], from: usize, to: usize) -> (out: Vec<u8>)
    requires
        from <= to <= data@.len(),
    ensures
        out@ == data@.subrange(from as int, to as int),
{
    let mut out: Vec<u8> = Vec::new();
    let mut i: usize = from;
    while i < to
        invariant
            from <= i <= to <= data@.len(),
            out@ == data@.subrange(from as int, i as int),
        decreases to - i,
    {
        out.push(data[i]);
        i = i + 1;
        assert(out@ =~= data@.subrange(from as int, i as int));
    }
    out
}

/// What is stored little-endian is read back: 16 bits.
pub proof fn lemma_u16_le_roundtrip(v: u16, before: Seq<u8>, after: Seq<u8>)
    ensures
        spec_u16_le(before + spec_u16_le_bytes(v) + after, before.len() as int) == v,
{
    let s = before + spec_u16_le_bytes(v) + after;
    let at = before.len() as int;
    assert(s[at] == (v % 0x100) as u8);
    assert(s[at + 1] == (v / 0x100) as u8);
}

/// What is stored little-endian is read back: 32 bits.
pub proof fn lemma_u32_le_roundtrip(v: u32, before: Seq<u8>, after: Seq<u8>)
    ensures
        spec_u32_le(before + spec_u32_le_bytes(v) + after, before.len() as int) == v,
{
    let s = before + spec_u32_le_bytes(v) + after;
    let at = before.len() as int;
    assert(s[at] == (v % 0x100) as u8);
    assert(s[at + 1] == (v / 0x100 % 0x100) as u8);
    assert(s[at + 2] == (v / 0x1_0000 % 0x100) as u8);
    assert(s[at + 3] == (v / 0x100_0000) as u8);
}

/// Whether two lists of bytes are the same.
pub fn bytes_equal(a: &[u8], b: &[u8]) -> (same: bool)
    ensures
        same == (a@ == b@),
{
    if a.len() != b.len() {
        return false;
    }
    let mut i: usize = 0;
    while i < a.len()
        invariant
            i <= a@.len(),
            a@.len() == b@.len(),
            forall|j: int| 0 <= j < i ==> a@[j] == b@[j],
        decreases a@.len() - i,
    {
        if a[i] != b[i] {
            return false;
        }
        i = i + 1;
    }
    assert(a@ =~= b@);
    true
}

/// Appending in two steps is appending the two pieces joined.
pub proof fn lemma_append_twice(a: Seq<u8>, b: Seq<u8>, c: Seq<u8>)
    ensures
        (a + b) + c == a + (b + c),
{
    assert((a + b) + c =~= a + (b + c));
}

/// Where bytes stand at `at` that are made of three pieces, the middle piece
/// stands after the first.
pub proof fn lemma_piece_at(s: Seq<u8>, at: int, front: Seq<u8>, piece: Seq<u8>, rest: Seq<u8>)
    requires
        0 <= at,
        at + front.len() + piece.len() + rest.len() <= s.len(),
        s.subrange(at, at + front.len() + piece.len() + rest.len()) == front + piece + rest,
    ensures
        s.subrange(at + front.len(), at + front.len() + piece.len()) == piece,
{
    let whole = front + piece + rest;
    let total = front.len() + piece.len() + rest.len();
    assert forall|i: int| 0 <= i < piece.len() implies s[at + front.len() + i] == piece[i] by {
        assert(s.subrange(at, at + total)[front.len() + i] == s[at + front.len() + i]);
        assert(whole[front.len() + i] == piece[i]);
    }
    assert(s.subrange(at + front.len(), at + front.len() + piece.len()) =~= piece);
}

/// Where the two bytes at `at` are those of `v`, `v` is read there.
pub proof fn lemma_u16_le_at(s: Seq<u8>, at: int, v: u16)
    requires
        0 <= at,
        at + 2 <= s.len(),
        s.subrange(at, at + 2) == spec_u16_le_bytes(v),
    ensures
        spec_u16_le(s, at) == v,
{
    let piece = s.subrange(at, at + 2);
    assert(s[at] == piece[0]);
    assert(s[at + 1] == piece[1]);
}

/// Where the four bytes at `at` are those of `v`, `v` is read there.
pub proof fn lemma_u32_le_at(s: Seq<u8>, at: int, v: u32)
    requires
        0 <= at,
        at + 4 <= s.len(),
        s.subrange(at, at + 4) == spec_u32_le_bytes(v),
    ensures
        spec_u32_le(s, at) == v,
{
    let piece = s.subrange(at, at + 4);
    assert(s[at] == piece[0]);
    assert(s[at + 1] == piece[1]);
    assert(s[at + 2] == piece[2]);
    assert(s[at + 3] == piece[3]);
}

/// Where the eight bytes at `at` are those of `v`, `v` is read there.
pub proof fn lemma_u64_le_at(s: Seq<u8>, at: int, v: u64)
    requires
        0 <= at,
        at + 8 <= s.len(),
        s.subrange(at, at + 8) == spec_u64_le_bytes(v),
    ensures
        spec_u64_le(s, at) == v,
{
    let piece = s.subrange(at, at + 8);
    let low = (v % 0x1_0000_0000) as u32;
    let high = (v / 0x1_0000_0000) as u32;
    let first = spec_u32_le_bytes(low);
    let second = spec_u32_le_bytes(high);
    assert(piece == first + second);
    assert forall|i: int| 0 <= i < 4 implies s[at + i] == first[i] && s[at + 4 + i]
        == second[i] by {
        assert(s[at + i] == piece[i]);
        assert(s[at + 4 + i] == piece[4 + i]);
    }
    assert(s.subrange(at, at + 4) =~= first);
    lemma_u32_le_at(s, at, low);
    assert(s.subrange(at + 4, at + 8) =~= second);
    lemma_u32_le_at(s, at + 4, high);
}

/// The place of the zero byte that ends the text starting at `from`, or the
/// length of the buffer if the text does not end inside it.
pub open spec fn spec_c_string_end(s: Seq<u8>, from: int) -> int
    decreases s.len() - from,
{
    if from < 0 || from >= s.len() {
        s.len() as int
    } else if s[from] == 0 {
        from
    } else {
        spec_c_string_end(s, from + 1)
    }
}

/// The text that starts at `offset` and ends before the next zero byte, each
/// byte taken as the character with its code. There is none where no zero
/// byte follows.
pub open spec fn spec_c_string(s: Seq<u8>, offset: int) -> Option<Seq<char>> {
    let end = spec_c_string_end(s, offset);
    if 0 <= offset && end < s.len() {
        Some(Seq::new((end - offset) as nat, |i: int| s[offset + i] as char))
    } else {
        None
    }
}

proof fn lemma_c_string_end_found(strings: Seq<u8>, from: int, end: int)
    requires
        0 <= from <= end < strings.len(),
        strings[end] == 0,
        forall|i: int| from <= i < end ==> strings[i] != 0,
    ensures
        spec_c_string_end(strings, from) == end,
    decreases end - from,
{
    if from < end {
        lemma_c_string_end_found(strings, from + 1, end);
    }
}

proof fn lemma_c_string_end_missing(strings: Seq<u8>, from: int)
    requires
        0 <= from,
        forall|i: int| from <= i < strings.len() ==> strings[i] != 0,
    ensures
        spec_c_string_end(strings, from) == strings.len(),
    decreases strings.len() - from,
{
    if from < strings.len() {
        lemma_c_string_end_missing(strings, from + 1);
    }
}

/// Reads the text that starts at `offset` and ends before the next zero byte.
pub fn read_c_string(strings: &[u8], offset: usize) -> (name: Option<String>)
    ensures
        match name {
            Some(name) => spec_c_string(strings@, offset as int) == Some(name@),
            None => spec_c_string(strings@, offset as int).is_none(),
        },
{
    let len: usize = strings.len();
    let start: usize = offset;
    let mut name = String::new();
    let mut at: usize = start;
    while at < len
        invariant
            start <= at,
            start == offset,
            len == strings@.len(),
            forall|i: int| start <= i < at ==> strings@[i] != 0,
            name@ == Seq::new((at - start) as nat, |i: int| strings@[start + i] as char),
        decreases len - at,
    {
        if strings[at] == 0 {
            proof {
                lemma_c_string_end_found(strings@, start as int, at as int);
            }
            return Some(name);
        }
        push_char(&mut name, strings[at] as char);
        at = at + 1;
        assert(name@ =~= Seq::new((at - start) as nat, |i: int| strings@[start + i] as char));
    }
    proof {
        if start < len {
            lemma_c_string_end_missing(strings@, start as int);
        }
    }
    None
}

/// The first place from `from` on, before `end`, that holds `byte`; `end` if
/// none does.
pub open spec fn spec_find(s: Seq<u8>, byte: u8, from: int, end: int) -> int
    decreases end - from,
{
    if from >= end {
        end
    } else if s[from] == byte {
        from
    } else {
        spec_find(s, byte, from + 1, end)
    }
}

/// The characters of the bytes from `from` up to `to`, each byte taken as the
/// character with its code.
pub open spec fn spec_chars(s: Seq<u8>, from: int, to: int) -> Seq<char> {
    Seq::new(
        if to < from {
            0
        } else {
            (to - from) as nat
        },
        |i: int| s[from + i] as char,
    )
}

/// The first place from `from` on, before `end`, that holds `byte`.
pub fn find(data: &[u8], byte: u8, from: usize, end: usize) -> (at: usize)
    requires
        from <= end <= data@.len(),
    ensures
        at == spec_find(data@, byte, from as int, end as int),
        from <= at <= end,
{
    let mut at: usize = from;
    while at < end
        invariant
            from <= at <= end <= data@.len(),
            spec_find(data@, byte, from as int, end as int) == spec_find(
                data@,
                byte,
                at as int,
                end as int,
            ),
        decreases end - at,
    {
        if data[at] == byte {
            return at;
        }
        at = at + 1;
    }
    at
}

/// The text of the bytes from `from` up to `to`, each byte taken as the
/// character with its code.
pub fn read_text(data: &[u8], from: usize, to: usize) -> (text: String)
    requires
        from <= to <= data@.len(),
    ensures
        text@ == spec_chars(data@, from as int, to as int),
{
    let mut text = String::new();
    let mut i: usize = from;
    while i < to
        invariant
            from <= i <= to <= data@.len(),
            text@ == spec_chars(data@, from as int, i as int),
        decreases to - i,
    {
        push_char(&mut text, data[i] as char);
        i = i + 1;
        assert(text@ =~= spec_chars(data@, from as int, i as int));
    }
    text
}

/// The bytes stand in the buffer at `at`.
#[verifier::opaque]
pub open spec fn spec_holds(s: Seq<u8>, at: int, bytes: Seq<u8>) -> bool {
    0 <= at && at + bytes.len() <= s.len() && s.subrange(at, at + bytes.len()) == bytes
}

/// What stands in a buffer still stands there when more is appended, and what
/// is appended stands at the end of what was there.
pub proof fn lemma_holds_appended(front: Seq<u8>, piece: Seq<u8>)
    ensures
        spec_holds(front + piece, front.len() as int, piece),
        forall|at: int, bytes: Seq<u8>|
            spec_holds(front, at, bytes) ==> #[trigger] spec_holds(front + piece, at, bytes),
{
    reveal(spec_holds);
    assert((front + piece).subrange(front.len() as int, (front.len() + piece.len()) as int) =~= piece);
    assert forall|at: int, bytes: Seq<u8>| spec_holds(front, at, bytes) implies #[trigger] spec_holds(
        front + piece,
        at,
        bytes,
    ) by {
        assert((front + piece).subrange(at, at + bytes.len()) =~= front.subrange(
            at,
            at + bytes.len(),
        ));
    }
}

/// What stands in a buffer still stands there when more is appended.
pub proof fn lemma_holds_extended(front: Seq<u8>, piece: Seq<u8>, at: int, bytes: Seq<u8>)
    requires
        spec_holds(front, at, bytes),
    ensures
        spec_holds(front + piece, at, bytes),
{
    reveal(spec_holds);
    assert((front + piece).subrange(at, at + bytes.len()) =~= front.subrange(at, at + bytes.len()));
}

/// What is appended to a buffer stands at the end of what was there.
pub proof fn lemma_holds_end(front: Seq<u8>, piece: Seq<u8>)
    ensures
        spec_holds(front + piece, front.len() as int, piece),
{
    reveal(spec_holds);
    assert((front + piece).subrange(front.len() as int, (front.len() + piece.len()) as int)
        =~= piece);
}

/// A part of what stands in a buffer stands there as well.
pub proof fn lemma_holds_part(s: Seq<u8>, at: int, bytes: Seq<u8>, from: int, to: int)
    requires
        spec_holds(s, at, bytes),
        0 <= from <= to <= bytes.len(),
    ensures
        spec_holds(s, at + from, bytes.subrange(from, to)),
{
    reveal(spec_holds);
    assert(s.subrange(at + from, at + to) =~= bytes.subrange(from, to)) by {
        assert forall|i: int| 0 <= i < to - from implies s.subrange(at + from, at + to)[i]
            == bytes.subrange(from, to)[i] by {
            assert(s.subrange(at, at + bytes.len())[from + i] == s[at + from + i]);
        }
    }
}

/// What stands inside bytes that stand in a buffer stands in the buffer.
pub proof fn lemma_holds_inside(s: Seq<u8>, at: int, outer: Seq<u8>, offset: int, inner: Seq<u8>)
    requires
        spec_holds(s, at, outer),
        spec_holds(outer, offset, inner),
    ensures
        spec_holds(s, at + offset, inner),
{
    reveal(spec_holds);
    lemma_holds_part(s, at, outer, offset, offset + inner.len());
}

/// Bytes stand at the start of the buffer that they are.
pub proof fn lemma_holds_whole(bytes: Seq<u8>)
    ensures
        spec_holds(bytes, 0, bytes),
{
    reveal(spec_holds);
    assert(bytes.subrange(0, bytes.len() as int) =~= bytes);
}

/// Bytes stand in a buffer where they are the bytes of the buffer at that
/// place.
pub proof fn lemma_holds(s: Seq<u8>, at: int, bytes: Seq<u8>)
    ensures
        spec_holds(s, at, bytes) <==> (0 <= at && at + bytes.len() <= s.len() && s.subrange(
            at,
            at + bytes.len(),
        ) == bytes),
        spec_holds(s, at, bytes) ==> forall|i: int|
            0 <= i < bytes.len() ==> s[at + i] == #[trigger] bytes[i],
{
    reveal(spec_holds);
    if spec_holds(s, at, bytes) {
        assert forall|i: int| 0 <= i < bytes.len() implies s[at + i] == #[trigger] bytes[i] by {
            assert(s.subrange(at, at + bytes.len())[i] == s[at + i]);
        }
    }
}

/// Where the bytes of a 16-bit number stand in a buffer, the number is read
/// there.
pub proof fn lemma_u16_held(s: Seq<u8>, at: int, v: u16)
    requires
        spec_holds(s, at, spec_u16_le_bytes(v)),
    ensures
        spec_u16_le(s, at) == v,
{
    reveal(spec_holds);
    lemma_u16_le_at(s, at, v);
}

/// Where the bytes of a 32-bit number stand in a buffer, the number is read
/// there.
pub proof fn lemma_u32_held(s: Seq<u8>, at: int, v: u32)
    requires
        spec_holds(s, at, spec_u32_le_bytes(v)),
    ensures
        spec_u32_le(s, at) == v,
{
    reveal(spec_holds);
    lemma_u32_le_at(s, at, v);
}

} // verus!
