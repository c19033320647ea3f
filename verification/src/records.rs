//! Values that a format stores in a fixed number of bytes, and lists of them.

use vstd::prelude::*;
use crate::binary::{
    spec_holds,
    push_u16_le, push_u32_le, read_u16_le, read_u32_le, spec_u16_le, spec_u16_le_bytes,
    spec_u32_le, spec_u32_le_bytes, lemma_u16_le_roundtrip, lemma_u32_le_roundtrip,
};

verus! {

/// A value that the format stores in a fixed number of bytes.
pub trait Record: Sized {
    /// The number of bytes that one record occupies.
    spec fn spec_size() -> int;

    /// The record stored at `at`.
    spec fn spec_read(s: Seq<u8>, at: int) -> Self;

    /// The bytes that store the record. Padding is zero.
    spec fn spec_bytes(self) -> Seq<u8>;

    /// The number of bytes that one record occupies.
    fn size() -> (n: usize)
        ensures
            n == Self::spec_size(),
            0 < n <= 256,
    ;

    /// Reads the record at `at`.
    fn read(data: &[u8], at: usize) -> (r: Self)
        requires
            at + Self::spec_size() <= data@.len(),
        ensures
            r == Self::spec_read(data@, at as int),
    ;

    /// Appends the bytes of the record.
    fn write(&self, out: &mut Vec<u8>)
        ensures
            final(out)@ == old(out)@ + self.spec_bytes(),
    ;

    /// A record's bytes have the record's size, and what is written is read back.
    proof fn lemma_roundtrip(self, before: Seq<u8>, after: Seq<u8>)
        ensures
            self.spec_bytes().len() == Self::spec_size(),
            Self::spec_read(before + self.spec_bytes() + after, before.len() as int) == self,
    ;
}

/// The `count` records stored back to back from `at` on.
pub open spec fn spec_records<T: Record>(s: Seq<u8>, at: int, count: int) -> Seq<T> {
    Seq::new(
        if count < 0 {
            0
        } else {
            count as nat
        },
        |i: int| T::spec_read(s, at + T::spec_size() * i),
    )
}

/// The bytes of the records, one after the other.
pub open spec fn spec_records_bytes<T: Record>(records: Seq<T>) -> Seq<u8>
    decreases records.len(),
{
    if records.len() == 0 {
        Seq::empty()
    } else {
        spec_records_bytes(records.drop_last()) + records.last().spec_bytes()
    }
}

/// Reads `count` records stored back to back from `at` on.
pub fn read_records<T: Record>(data: &[u8], at: usize, count: usize) -> (r: Vec<T>)
    requires
        at + T::spec_size() * count <= data@.len(),
    ensures
        r@ == spec_records::<T>(data@, at as int, count as int),
{
    let size: usize = T::size();
    let len: usize = data.len();
    let mut records: Vec<T> = Vec::new();
    let mut i: usize = 0;
    let mut position: usize = at;
    while i < count
        invariant
            i <= count,
            size == T::spec_size(),
            0 < size <= 256,
            position == at + size * i,
            at + size * count <= data@.len() <= usize::MAX,
            records@ == spec_records::<T>(data@, at as int, i as int),
        decreases count - i,
    {
        assert(size * (i + 1) <= size * count) by (nonlinear_arith)
            requires
                i + 1 <= count,
                size > 0,
        ;
        assert(size * (i + 1) == size * i + size) by (nonlinear_arith);
        let record = T::read(data, position);
        records.push(record);
        i = i + 1;
        position = position + size;
        assert(records@ =~= spec_records::<T>(data@, at as int, i as int));
    }
    records
}

/// Appends the bytes of all the records.
pub fn write_records<T: Record>(out: &mut Vec<u8>, records: &[T])
    ensures
        final(out)@ == old(out)@ + spec_records_bytes(records@),
{
    let count: usize = records.len();
    let mut i: usize = 0;
    while i < count
        invariant
            i <= count,
            count == records@.len(),
            out@ == old(out)@ + spec_records_bytes(records@.subrange(0, i as int)),
        decreases count - i,
    {
        records[i].write(out);
        proof {
            let next = records@.subrange(0, i + 1);
            assert(next.drop_last() =~= records@.subrange(0, i as int));
            assert(out@ =~= old(out)@ + spec_records_bytes(next));
        }
        i = i + 1;
    }
    assert(records@.subrange(0, count as int) =~= records@);
}

/// The bytes of a list of records have the size of one record times their number.
pub proof fn lemma_records_bytes_len<T: Record>(records: Seq<T>)
    ensures
        spec_records_bytes(records).len() == T::spec_size() * records.len(),
    decreases records.len(),
{
    if records.len() > 0 {
        lemma_records_bytes_len(records.drop_last());
        records.last().lemma_roundtrip(Seq::empty(), Seq::empty());
        assert(T::spec_size() * records.len() == T::spec_size() * (records.len() - 1)
            + T::spec_size()) by (nonlinear_arith);
    }
}

/// A list of records that is written is read back.
pub proof fn lemma_records_roundtrip<T: Record>(records: Seq<T>, before: Seq<u8>, after: Seq<u8>)
    ensures
        spec_records::<T>(
            before + spec_records_bytes(records) + after,
            before.len() as int,
            records.len() as int,
        ) == records,
    decreases records.len(),
{
    let s = before + spec_records_bytes(records) + after;
    let read = spec_records::<T>(s, before.len() as int, records.len() as int);
    assert forall|i: int| 0 <= i < records.len() implies read[i] == records[i] by {
        lemma_record_in_list(records, before, after, i);
    }
    assert(read =~= records);
}

/// Record `i` of a written list is read back at its place.
pub proof fn lemma_record_in_list<T: Record>(
    records: Seq<T>,
    before: Seq<u8>,
    after: Seq<u8>,
    i: int,
)
    requires
        0 <= i < records.len(),
    ensures
        T::spec_read(
            before + spec_records_bytes(records) + after,
            before.len() + T::spec_size() * i,
        ) == records[i],
    decreases records.len(),
{
    let s = before + spec_records_bytes(records) + after;
    let head = records.drop_last();
    let last = records.last();
    lemma_records_bytes_len(head);
    last.lemma_roundtrip(Seq::empty(), Seq::empty());
    if i == records.len() - 1 {
        assert(s =~= (before + spec_records_bytes(head)) + last.spec_bytes() + after);
        last.lemma_roundtrip(before + spec_records_bytes(head), after);
    } else {
        assert(s =~= before + spec_records_bytes(head) + (last.spec_bytes() + after));
        lemma_record_in_list(head, before, last.spec_bytes() + after, i);
    }
}

/// Where the bytes of a record stand in a buffer, the record is read there.
pub proof fn lemma_record_held<T: Record>(s: Seq<u8>, at: int, record: T)
    requires
        spec_holds(s, at, record.spec_bytes()),
    ensures
        T::spec_read(s, at) == record,
        record.spec_bytes().len() == T::spec_size(),
{
    reveal(spec_holds);
    let bytes = record.spec_bytes();
    let before = s.subrange(0, at);
    let after = s.subrange(at + bytes.len(), s.len() as int);
    assert(s =~= before + bytes + after);
    record.lemma_roundtrip(before, after);
}

/// Where the bytes of a list of records stand in a buffer, the list is read
/// there.
pub proof fn lemma_records_held<T: Record>(s: Seq<u8>, at: int, records: Seq<T>)
    requires
        spec_holds(s, at, spec_records_bytes(records)),
    ensures
        spec_records::<T>(s, at, records.len() as int) == records,
        spec_records_bytes(records).len() == T::spec_size() * records.len(),
{
    reveal(spec_holds);
    let bytes = spec_records_bytes(records);
    let before = s.subrange(0, at);
    let after = s.subrange(at + bytes.len(), s.len() as int);
    assert(s =~= before + bytes + after);
    lemma_records_roundtrip(records, before, after);
    lemma_records_bytes_len(records);
}

impl Record for u16 {
    open spec fn spec_size() -> int {
        2
    }

    open spec fn spec_read(s: Seq<u8>, at: int) -> u16 {
        spec_u16_le(s, at) as u16
    }

    open spec fn spec_bytes(self) -> Seq<u8> {
        spec_u16_le_bytes(self)
    }

    fn size() -> (n: usize) {
        2
    }

    fn read(data: &[u8], at: usize) -> (r: u16) {
        read_u16_le(data, at)
    }

    fn write(&self, out: &mut Vec<u8>) {
        push_u16_le(out, *self);
    }

    proof fn lemma_roundtrip(self, before: Seq<u8>, after: Seq<u8>) {
        lemma_u16_le_roundtrip(self, before, after);
    }
}

impl Record for u32 {
    open spec fn spec_size() -> int {
        4
    }

    open spec fn spec_read(s: Seq<u8>, at: int) -> u32 {
        spec_u32_le(s, at) as u32
    }

    open spec fn spec_bytes(self) -> Seq<u8> {
        spec_u32_le_bytes(self)
    }

    fn size() -> (n: usize) {
        4
    }

    fn read(data: &[u8], at: usize) -> (r: u32) {
        read_u32_le(data, at)
    }

    fn write(&self, out: &mut Vec<u8>) {
        push_u32_le(out, *self);
    }

    proof fn lemma_roundtrip(self, before: Seq<u8>, after: Seq<u8>) {
        lemma_u32_le_roundtrip(self, before, after);
    }
}

} // verus!
