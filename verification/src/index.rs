//! Index files: a header, a table of contents, and the entries that say for
//! the hash of each path in which data file and where the asset lies.

use vstd::prelude::*;
use crate::binary::{
    lemma_append_twice, lemma_u32_le_at, lemma_u64_le_at, push_u32_le, push_u64_le, push_zeros,
    read_u32_le, read_u64_le, spec_u32_le, spec_u32_le_bytes, spec_u64_le, spec_u64_le_bytes,
    spec_zeros,
};
use crate::common::{spec_platform, spec_platform_code, Platform};
use crate::records::{
    lemma_records_bytes_len, lemma_records_roundtrip, read_records,
    spec_records, spec_records_bytes, write_records, Record,
};

verus! {

/// One entry of an index: the hash of a path, and the bit field that says in
/// which data file and where the asset lies.
#[derive(PartialEq, Eq, Structural, Clone, Copy, Debug)]
pub struct IndexHashTableEntry {
    pub hash: u64,
    pub bitfield: u32,
}

impl Record for IndexHashTableEntry {
    open spec fn spec_size() -> int {
        16
    }

    open spec fn spec_read(s: Seq<u8>, at: int) -> IndexHashTableEntry {
        IndexHashTableEntry {
            hash: spec_u64_le(s, at) as u64,
            bitfield: spec_u32_le(s, at + 8) as u32,
        }
    }

    open spec fn spec_bytes(self) -> Seq<u8> {
        spec_u64_le_bytes(self.hash)
            + spec_u32_le_bytes(self.bitfield)
            + spec_zeros(4)
    }

    fn size() -> (n: usize) {
        16
    }

    fn read(data: &[u8], at: usize) -> (r: IndexHashTableEntry) {
        let len: usize = data.len();
        IndexHashTableEntry {
            hash: read_u64_le(data, at),
            bitfield: read_u32_le(data, at + 8),
        }
    }

    fn write(&self, out: &mut Vec<u8>) {
        push_u64_le(out, self.hash);
        push_u32_le(out, self.bitfield);
        push_zeros(out, 4);
        assert(out@ =~= old(out)@ + self.spec_bytes());
    }

    proof fn lemma_roundtrip(self, before: Seq<u8>, after: Seq<u8>) {
        let s = before + self.spec_bytes() + after;
        let at = before.len() as int;
        let body = self.spec_bytes();
        assert(body.len() == 16);
        assert forall|i: int| 0 <= i < 16 implies s[at + i] == body[i] by {}
        assert(spec_u64_le(body, 0) == self.hash) by {
            assert(body.subrange(0, 8) =~= spec_u64_le_bytes(self.hash));
            lemma_u64_le_at(body, 0, self.hash);
        }
        assert(spec_u32_le(body, 8) == self.bitfield) by {
            assert(body.subrange(8, 12) =~= spec_u32_le_bytes(self.bitfield));
            lemma_u32_le_at(body, 8, self.bitfield);
        }
        let r = Self::spec_read(s, at);
    }
}

/// The header of an index's table of contents: where the entries lie and how
/// many bytes they take.
#[derive(PartialEq, Eq, Structural, Clone, Copy, Debug)]
pub struct SqPackIndexHeader {
    pub size: u32,
    pub file_type: u32,
    pub index_data_offset: u32,
    pub index_data_size: u32,
}

impl Record for SqPackIndexHeader {
    open spec fn spec_size() -> int {
        16
    }

    open spec fn spec_read(s: Seq<u8>, at: int) -> SqPackIndexHeader {
        SqPackIndexHeader {
            size: spec_u32_le(s, at) as u32,
            file_type: spec_u32_le(s, at + 4) as u32,
            index_data_offset: spec_u32_le(s, at + 8) as u32,
            index_data_size: spec_u32_le(s, at + 12) as u32,
        }
    }

    open spec fn spec_bytes(self) -> Seq<u8> {
        spec_u32_le_bytes(self.size)
            + spec_u32_le_bytes(self.file_type)
            + spec_u32_le_bytes(self.index_data_offset)
            + spec_u32_le_bytes(self.index_data_size)
    }

    fn size() -> (n: usize) {
        16
    }

    fn read(data: &[u8], at: usize) -> (r: SqPackIndexHeader) {
        let len: usize = data.len();
        SqPackIndexHeader {
            size: read_u32_le(data, at),
            file_type: read_u32_le(data, at + 4),
            index_data_offset: read_u32_le(data, at + 8),
            index_data_size: read_u32_le(data, at + 12),
        }
    }

    fn write(&self, out: &mut Vec<u8>) {
        push_u32_le(out, self.size);
        push_u32_le(out, self.file_type);
        push_u32_le(out, self.index_data_offset);
        push_u32_le(out, self.index_data_size);
        assert(out@ =~= old(out)@ + self.spec_bytes());
    }

    proof fn lemma_roundtrip(self, before: Seq<u8>, after: Seq<u8>) {
        let s = before + self.spec_bytes() + after;
        let at = before.len() as int;
        let body = self.spec_bytes();
        assert(body.len() == 16);
        assert forall|i: int| 0 <= i < 16 implies s[at + i] == body[i] by {}
        assert(spec_u32_le(body, 0) == self.size) by {
            assert(body.subrange(0, 4) =~= spec_u32_le_bytes(self.size));
            lemma_u32_le_at(body, 0, self.size);
        }
        assert(spec_u32_le(body, 4) == self.file_type) by {
            assert(body.subrange(4, 8) =~= spec_u32_le_bytes(self.file_type));
            lemma_u32_le_at(body, 4, self.file_type);
        }
        assert(spec_u32_le(body, 8) == self.index_data_offset) by {
            assert(body.subrange(8, 12) =~= spec_u32_le_bytes(self.index_data_offset));
            lemma_u32_le_at(body, 8, self.index_data_offset);
        }
        assert(spec_u32_le(body, 12) == self.index_data_size) by {
            assert(body.subrange(12, 16) =~= spec_u32_le_bytes(self.index_data_size));
            lemma_u32_le_at(body, 12, self.index_data_size);
        }
        let r = Self::spec_read(s, at);
    }
}

/// The number of bytes of the header of a pack file that are read.
pub const SQPACK_HEADER_SIZE: usize = 24;

/// The header at the start of a pack file.
#[derive(PartialEq, Eq, Structural, Clone, Copy, Debug)]
pub struct SqPackHeader {
    pub platform_id: Platform,
    /// The number of bytes of the whole header: the table of contents follows it.
    pub size: u32,
    pub version: u32,
    pub file_type: u32,
}

/// An index file.
#[derive(Debug)]
pub struct IndexFile {
    pub sqpack_header: SqPackHeader,
    pub index_header: SqPackIndexHeader,
    pub entries: Vec<IndexHashTableEntry>,
}

/// What an index file holds.
pub struct IndexFileView {
    pub sqpack_header: SqPackHeader,
    pub index_header: SqPackIndexHeader,
    pub entries: Seq<IndexHashTableEntry>,
}

impl View for IndexFile {
    type V = IndexFileView;

    open spec fn view(&self) -> IndexFileView {
        IndexFileView {
            sqpack_header: self.sqpack_header,
            index_header: self.index_header,
            entries: self.entries@,
        }
    }
}

/// The number of the data file that a bit field names: bits 1 to 3.
pub open spec fn spec_data_file_id(bitfield: u32) -> u8 {
    ((bitfield >> 1) & 0b111) as u8
}

/// The offset that a bit field names: the field without its low four bits,
/// times eight, which is a multiple of 128.
pub open spec fn spec_offset(bitfield: u32) -> u64 {
    (((bitfield & 0xFFFF_FFF0) as int) * 8) as u64
}

impl IndexHashTableEntry {
    /// The number of the data file in which the asset lies.
    pub fn data_file_id(&self) -> (id: u8)
        ensures
            id == spec_data_file_id(self.bitfield),
            id < 8,
    {
        let bitfield: u32 = self.bitfield;
        assert((bitfield >> 1) & 0b111 < 8) by (bit_vector);
        ((bitfield >> 1) & 0b111) as u8
    }

    /// The offset in the data file at which the asset lies.
    pub fn offset(&self) -> (offset: u64)
        ensures
            offset == spec_offset(self.bitfield),
            offset % 128 == 0,
    {
        let bitfield: u32 = self.bitfield;
        let masked: u32 = bitfield & 0xFFFF_FFF0;
        assert(masked % 16 == 0) by (bit_vector)
            requires
                masked == bitfield & 0xFFFF_FFF0,
        ;
        masked as u64 * 8
    }

    /// The entry for an asset with the given hash in data file `data_file_id`
    /// at `offset`, if the number of the data file is below eight and the
    /// offset a multiple of 128 that fits in the bit field.
    pub fn new(hash: u64, data_file_id: u8, offset: u64) -> (entry: Option<IndexHashTableEntry>)
        ensures
            entry.is_some() == (data_file_id < 8 && offset % 128 == 0 && offset / 8
                <= 0xFFFF_FFF0),
            entry.is_some() ==> {
                &&& entry.unwrap().hash == hash
                &&& spec_data_file_id(entry.unwrap().bitfield) == data_file_id
                &&& spec_offset(entry.unwrap().bitfield) == offset
            },
    {
        if data_file_id >= 8 || offset % 128 != 0 || offset / 8 > 0xFFFF_FFF0 {
            return None;
        }
        let scaled: u32 = (offset / 8) as u32;
        let id: u32 = data_file_id as u32;
        let bitfield: u32 = scaled | (id << 1);
        assert(((bitfield >> 1) & 0b111) == id && (bitfield & 0xFFFF_FFF0) == scaled)
            by (bit_vector)
            requires
                bitfield == scaled | (id << 1),
                id < 8,
                scaled % 16 == 0,
        ;
        Some(IndexHashTableEntry { hash, bitfield })
    }
}

/// The header at the start of `s`: the letters `SqPack`, two bytes of
/// padding, the platform byte, three bytes of padding, and the size of the
/// header, the version and the file type as little-endian 32-bit integers.
/// There is none where the buffer is shorter than 24 bytes, the letters are
/// others, or the platform byte stands for nothing.
pub open spec fn spec_sqpack_header(s: Seq<u8>) -> Option<SqPackHeader> {
    if s.len() >= 24 && s[0] == 0x53 && s[1] == 0x71 && s[2] == 0x50 && s[3] == 0x61 && s[4]
        == 0x63 && s[5] == 0x6B {
        match spec_platform(s[8]) {
            None => None,
            Some(platform_id) => Some(
                SqPackHeader {
                    platform_id,
                    size: spec_u32_le(s, 12) as u32,
                    version: spec_u32_le(s, 16) as u32,
                    file_type: spec_u32_le(s, 20) as u32,
                },
            ),
        }
    } else {
        None
    }
}

/// The 24 bytes that store a header.
pub open spec fn spec_sqpack_header_bytes(header: SqPackHeader) -> Seq<u8> {
    seq![
        0x53u8,
        0x71u8,
        0x50u8,
        0x61u8,
        0x63u8,
        0x6Bu8,
        0u8,
        0u8,
        spec_platform_code(header.platform_id),
        0u8,
        0u8,
        0u8,
    ] + spec_u32_le_bytes(header.size) + spec_u32_le_bytes(header.version) + spec_u32_le_bytes(
        header.file_type,
    )
}

/// The index stored in `s`: the header at the start, the table of contents
/// where the header ends, and the entries where the table of contents says,
/// one for every sixteen bytes of their size. There is none where the header
/// is malformed or the buffer ends before the table of contents or the
/// entries do.
pub open spec fn spec_index(s: Seq<u8>) -> Option<IndexFileView> {
    match spec_sqpack_header(s) {
        None => None,
        Some(sqpack_header) => if sqpack_header.size + 16 > s.len() {
            None
        } else {
            let index_header = SqPackIndexHeader::spec_read(s, sqpack_header.size as int);
            let count = index_header.index_data_size as int / 16;
            if index_header.index_data_offset + 16 * count > s.len() {
                None
            } else {
                Some(
                    IndexFileView {
                        sqpack_header,
                        index_header,
                        entries: spec_records(s, index_header.index_data_offset as int, count),
                    },
                )
            }
        },
    }
}

/// An index that can be stored: the table of contents lies after the 24
/// bytes of the header, the entries after the table of contents, and the
/// size of the entries is sixteen bytes for each.
pub open spec fn spec_index_wf(index: IndexFileView) -> bool {
    &&& index.sqpack_header.size >= 24
    &&& index.index_header.index_data_offset >= index.sqpack_header.size + 16
    &&& index.index_header.index_data_size == 16 * index.entries.len()
}

/// The bytes that store an index. The gaps are zero.
pub open spec fn spec_index_bytes(index: IndexFileView) -> Seq<u8> {
    spec_sqpack_header_bytes(index.sqpack_header) + spec_zeros(index.sqpack_header.size - 24)
        + index.index_header.spec_bytes() + spec_zeros(
        index.index_header.index_data_offset - index.sqpack_header.size - 16,
    ) + spec_records_bytes(index.entries)
}

/// The first entry with the given hash among the first `upto`, if there is one.
pub open spec fn spec_find_entry(entries: Seq<IndexHashTableEntry>, hash: u64, upto: int) -> Option<
    IndexHashTableEntry,
>
    decreases upto,
{
    if upto <= 0 {
        None
    } else {
        match spec_find_entry(entries, hash, upto - 1) {
            Some(entry) => Some(entry),
            None => if entries[upto - 1].hash == hash {
                Some(entries[upto - 1])
            } else {
                None
            },
        }
    }
}

/// An entry is found exactly where some entry has the hash.
pub proof fn lemma_find_entry(entries: Seq<IndexHashTableEntry>, hash: u64, upto: int)
    requires
        0 <= upto <= entries.len(),
    ensures
        spec_find_entry(entries, hash, upto).is_some() <==> exists|i: int|
            0 <= i < upto && (#[trigger] entries[i]).hash == hash,
        spec_find_entry(entries, hash, upto).is_some() ==> spec_find_entry(
            entries,
            hash,
            upto,
        ).unwrap().hash == hash,
    decreases upto,
{
    if upto > 0 {
        lemma_find_entry(entries, hash, upto - 1);
        if spec_find_entry(entries, hash, upto - 1).is_none() {
            if entries[upto - 1].hash == hash {
                assert(0 <= upto - 1 < upto && entries[upto - 1].hash == hash);
            } else {
                assert forall|i: int| 0 <= i < upto implies (#[trigger] entries[i]).hash
                    != hash by {
                    if i < upto - 1 {
                        assert(!(0 <= i < upto - 1 && entries[i].hash == hash));
                    }
                }
            }
        } else {
            let i = choose|i: int| 0 <= i < upto - 1 && (#[trigger] entries[i]).hash == hash;
            assert(0 <= i < upto && entries[i].hash == hash);
        }
    }
}

impl SqPackHeader {
    /// Reads the header at the start of `data`.
    pub fn read(data: &[u8]) -> (header: Option<SqPackHeader>)
        ensures
            header == spec_sqpack_header(data@),
    {
        if data.len() < 24 {
            return None;
        }
        if data[0] != 0x53 || data[1] != 0x71 || data[2] != 0x50 || data[3] != 0x61 || data[4]
            != 0x63 || data[5] != 0x6B {
            return None;
        }
        let platform_id = match Platform::from_code(data[8]) {
            Some(platform) => platform,
            None => { return None; },
        };
        Some(
            SqPackHeader {
                platform_id,
                size: read_u32_le(data, 12),
                version: read_u32_le(data, 16),
                file_type: read_u32_le(data, 20),
            },
        )
    }

    /// Appends the 24 bytes of the header.
    pub fn write(&self, out: &mut Vec<u8>)
        ensures
            final(out)@ == old(out)@ + spec_sqpack_header_bytes(*self),
    {
        let ghost start = out@;
        out.push(0x53u8);
        out.push(0x71u8);
        out.push(0x50u8);
        out.push(0x61u8);
        out.push(0x63u8);
        out.push(0x6Bu8);
        out.push(0u8);
        out.push(0u8);
        out.push(self.platform_id.code());
        out.push(0u8);
        out.push(0u8);
        out.push(0u8);
        let ghost letters = seq![
            0x53u8,
            0x71u8,
            0x50u8,
            0x61u8,
            0x63u8,
            0x6Bu8,
            0u8,
            0u8,
            spec_platform_code(self.platform_id),
            0u8,
            0u8,
            0u8,
        ];
        assert(out@ =~= start + letters);
        push_u32_le(out, self.size);
        push_u32_le(out, self.version);
        push_u32_le(out, self.file_type);
        assert(out@ =~= start + spec_sqpack_header_bytes(*self));
    }
}

impl IndexFile {
    /// Reads an index from the bytes of an index file.
    ///
    /// Returns the index that the bytes store, and nothing where the letters
    /// at the start are not `SqPack`, the platform byte stands for nothing, or
    /// the buffer ends before the header, the table of contents or the
    /// entries do.
    pub fn from_existing(buffer: &[u8]) -> (index: Option<IndexFile>)
        ensures
            match index {
                Some(index) => spec_index(buffer@) == Some(index@),
                None => spec_index(buffer@).is_none(),
            },
    {
        let len: usize = buffer.len();
        let sqpack_header = match SqPackHeader::read(buffer) {
            Some(header) => header,
            None => { return None; },
        };
        if sqpack_header.size as u64 + 16 > len as u64 {
            return None;
        }
        let index_header = SqPackIndexHeader::read(buffer, sqpack_header.size as usize);
        let count: u32 = index_header.index_data_size / 16;
        if index_header.index_data_offset as u64 + 16 * count as u64 > len as u64 {
            return None;
        }
        let entries = read_records(
            buffer,
            index_header.index_data_offset as usize,
            count as usize,
        );
        Some(IndexFile { sqpack_header, index_header, entries })
    }

    /// Whether the index can be stored.
    pub fn is_wf(&self) -> (wf: bool)
        ensures
            wf == spec_index_wf(self@),
    {
        self.sqpack_header.size >= 24 && self.index_header.index_data_offset as u64
            >= self.sqpack_header.size as u64 + 16 && self.entries.len() <= 0x0FFF_FFFF
            && self.index_header.index_data_size as usize == 16 * self.entries.len()
    }

    /// Writes the index into the bytes of an index file, if it can be stored.
    pub fn write_to_buffer(&self) -> (bytes: Option<Vec<u8>>)
        ensures
            bytes.is_some() == spec_index_wf(self@),
            bytes.is_some() ==> bytes.unwrap()@ == spec_index_bytes(self@),
    {
        if !self.is_wf() {
            return None;
        }
        let mut out: Vec<u8> = Vec::new();
        self.sqpack_header.write(&mut out);
        push_zeros(&mut out, (self.sqpack_header.size - 24) as usize);
        self.index_header.write(&mut out);
        push_zeros(
            &mut out,
            (self.index_header.index_data_offset - self.sqpack_header.size - 16) as usize,
        );
        write_records(&mut out, self.entries.as_slice());
        assert(out@ =~= spec_index_bytes(self@));
        Some(out)
    }

    /// The first entry with the given hash, if there is one.
    pub fn find_entry(&self, hash: u64) -> (entry: Option<IndexHashTableEntry>)
        ensures
            entry == spec_find_entry(self.entries@, hash, self.entries@.len() as int),
    {
        let count: usize = self.entries.len();
        let mut i: usize = 0;
        while i < count
            invariant
                i <= count,
                count == self.entries@.len(),
                spec_find_entry(self.entries@, hash, i as int).is_none(),
            decreases count - i,
        {
            if self.entries[i].hash == hash {
                proof {
                    lemma_find_entry_stays(self.entries@, hash, i + 1, count as int);
                }
                return Some(self.entries[i]);
            }
            i = i + 1;
        }
        None
    }

    /// Whether an entry has the given hash.
    pub fn contains_hash(&self, hash: u64) -> (found: bool)
        ensures
            found == exists|i: int|
                0 <= i < self.entries@.len() && (#[trigger] self.entries@[i]).hash == hash,
    {
        proof {
            lemma_find_entry(self.entries@, hash, self.entries@.len() as int);
        }
        self.find_entry(hash).is_some()
    }
}

proof fn lemma_find_entry_stays(
    entries: Seq<IndexHashTableEntry>,
    hash: u64,
    found: int,
    upto: int,
)
    requires
        0 <= found <= upto,
        spec_find_entry(entries, hash, found).is_some(),
    ensures
        spec_find_entry(entries, hash, upto) == spec_find_entry(entries, hash, found),
    decreases upto - found,
{
    if found < upto {
        lemma_find_entry_stays(entries, hash, found, upto - 1);
    }
}

/// A header that is written is read back, whatever follows it.
pub proof fn lemma_sqpack_header_roundtrip(header: SqPackHeader, rest: Seq<u8>)
    ensures
        spec_sqpack_header_bytes(header).len() == 24,
        spec_sqpack_header(spec_sqpack_header_bytes(header) + rest) == Some(header),
{
    let head = spec_sqpack_header_bytes(header);
    let s = head + rest;
    assert(head.len() == 24);
    assert forall|i: int| 0 <= i < 24 implies s[i] == head[i] by {}
    assert(spec_u32_le(s, 12) == header.size) by {
        assert(s.subrange(12, 16) =~= spec_u32_le_bytes(header.size));
        lemma_u32_le_at(s, 12, header.size);
    }
    assert(spec_u32_le(s, 16) == header.version) by {
        assert(s.subrange(16, 20) =~= spec_u32_le_bytes(header.version));
        lemma_u32_le_at(s, 16, header.version);
    }
    assert(spec_u32_le(s, 20) == header.file_type) by {
        assert(s.subrange(20, 24) =~= spec_u32_le_bytes(header.file_type));
        lemma_u32_le_at(s, 20, header.file_type);
    }
    assert(s[8] == spec_platform_code(header.platform_id));
}

/// An index that is written is read back, entry for entry and in order.
pub proof fn lemma_index_roundtrip(index: IndexFileView)
    requires
        spec_index_wf(index),
    ensures
        spec_index(spec_index_bytes(index)) == Some(index),
{
    let header = index.sqpack_header;
    let toc = index.index_header;
    let head = spec_sqpack_header_bytes(header);
    let gap1 = spec_zeros(header.size - 24);
    let gap2 = spec_zeros(toc.index_data_offset - header.size - 16);
    let tail = spec_records_bytes(index.entries);
    let s = spec_index_bytes(index);
    let front1 = head + gap1;
    let front2 = front1 + toc.spec_bytes();
    let front3 = front2 + gap2;
    assert(s == front3 + tail);
    toc.lemma_roundtrip(front1, gap2 + tail);
    lemma_records_bytes_len(index.entries);
    lemma_sqpack_header_roundtrip(header, gap1 + toc.spec_bytes() + gap2 + tail);
    assert(front1.len() == header.size);
    assert(front2.len() == header.size + 16);
    assert(front3.len() == toc.index_data_offset);
    assert(s.len() == toc.index_data_offset + 16 * index.entries.len());
    assert(s == head + (gap1 + toc.spec_bytes() + gap2 + tail)) by {
        lemma_append_twice(front2, gap2, tail);
        lemma_append_twice(front1, toc.spec_bytes(), gap2 + tail);
        lemma_append_twice(head, gap1, toc.spec_bytes() + (gap2 + tail));
        lemma_append_twice(gap1, toc.spec_bytes(), gap2 + tail);
        lemma_append_twice(gap1 + toc.spec_bytes(), gap2, tail);
    }
    assert(spec_sqpack_header(s) == Some(header));
    assert(s == front1 + toc.spec_bytes() + (gap2 + tail)) by {
        lemma_append_twice(front2, gap2, tail);
    }
    assert(SqPackIndexHeader::spec_read(s, header.size as int) == toc);
    assert(s =~= front3 + tail + Seq::<u8>::empty());
    lemma_records_roundtrip(index.entries, front3, Seq::<u8>::empty());
    assert(toc.index_data_size as int / 16 == index.entries.len());
}

} // verus!
