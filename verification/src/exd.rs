//! Sheet pages: the rows of one page of a sheet in one language.

use vstd::prelude::*;
use crate::binary::{
    read_c_string, read_u16_be, read_u32_be, read_u64_be, spec_c_string, spec_u16_be, spec_u32_be,
    spec_u64_be,
};
use crate::common::{get_language_code, spec_language_code, Language};
use crate::exh::{
    ColumnDataType, EXHView, ExcelColumnDefinition, ExcelDataPagination, EXH,
};
use crate::text::{push_decimal, push_text, spec_decimal};

verus! {

/// The number of bytes of the fixed part of a sheet page.
pub const EXD_HEADER_SIZE: usize = 32;

/// The fixed part of a sheet page.
#[derive(PartialEq, Eq, Structural, Clone, Copy, Debug)]
pub struct EXDHeader {
    pub version: u16,
    /// The number of bytes of the table of offsets.
    pub index_size: u32,
}

/// One entry of the table of offsets: the number of a row, and where it lies.
#[derive(PartialEq, Eq, Structural, Clone, Copy, Debug)]
pub struct ExcelDataOffset {
    pub row_id: u32,
    pub offset: u32,
}

/// The value of a cell. A number in floating point is kept as its bits.
#[derive(PartialEq, Eq, Clone, Debug)]
pub enum ColumnData {
    String(String),
    Bool(bool),
    Int8(i8),
    UInt8(u8),
    Int16(i16),
    UInt16(u16),
    Int32(i32),
    UInt32(u32),
    Float32(u32),
    Int64(i64),
    UInt64(u64),
}

/// What a cell holds.
pub enum ColumnDataView {
    String(Seq<char>),
    Bool(bool),
    Int8(i8),
    UInt8(u8),
    Int16(i16),
    UInt16(u16),
    Int32(i32),
    UInt32(u32),
    Float32(u32),
    Int64(i64),
    UInt64(u64),
}

impl View for ColumnData {
    type V = ColumnDataView;

    open spec fn view(&self) -> ColumnDataView {
        match self {
            ColumnData::String(text) => ColumnDataView::String(text@),
            ColumnData::Bool(value) => ColumnDataView::Bool(*value),
            ColumnData::Int8(value) => ColumnDataView::Int8(*value),
            ColumnData::UInt8(value) => ColumnDataView::UInt8(*value),
            ColumnData::Int16(value) => ColumnDataView::Int16(*value),
            ColumnData::UInt16(value) => ColumnDataView::UInt16(*value),
            ColumnData::Int32(value) => ColumnDataView::Int32(*value),
            ColumnData::UInt32(value) => ColumnDataView::UInt32(*value),
            ColumnData::Float32(value) => ColumnDataView::Float32(*value),
            ColumnData::Int64(value) => ColumnDataView::Int64(*value),
            ColumnData::UInt64(value) => ColumnDataView::UInt64(*value),
        }
    }
}

/// One row of a sheet.
#[derive(PartialEq, Eq, Clone, Debug)]
pub struct ExcelRow {
    pub data: Vec<ColumnData>,
}

/// The views of the cells.
pub open spec fn spec_cell_views(cells: Seq<ColumnData>) -> Seq<ColumnDataView> {
    Seq::new(cells.len(), |i: int| cells[i]@)
}

impl View for ExcelRow {
    type V = Seq<ColumnDataView>;

    open spec fn view(&self) -> Seq<ColumnDataView> {
        spec_cell_views(self.data@)
    }
}

/// One page of a sheet.
#[derive(Debug)]
pub struct EXD {
    pub header: EXDHeader,
    pub data_offsets: Vec<ExcelDataOffset>,
    pub rows: Vec<ExcelRow>,
}

/// What a page of a sheet holds.
pub struct EXDView {
    pub header: EXDHeader,
    pub data_offsets: Seq<ExcelDataOffset>,
    pub rows: Seq<Seq<ColumnDataView>>,
}

/// The views of the rows.
pub open spec fn spec_row_views(rows: Seq<ExcelRow>) -> Seq<Seq<ColumnDataView>> {
    Seq::new(rows.len(), |i: int| rows[i]@)
}

impl View for EXD {
    type V = EXDView;

    open spec fn view(&self) -> EXDView {
        EXDView {
            header: self.header,
            data_offsets: self.data_offsets@,
            rows: spec_row_views(self.rows@),
        }
    }
}

/// The number with a sign that an unsigned number stands for, where `half` is
/// the first number that stands for a negative one.
pub open spec fn spec_signed(value: int, half: int) -> int {
    if value >= half {
        value - 2 * half
    } else {
        value
    }
}

/// The number of bytes of a cell of the given type.
pub open spec fn spec_cell_width(data_type: ColumnDataType) -> int {
    match data_type {
        ColumnDataType::String | ColumnDataType::Int32 | ColumnDataType::UInt32
        | ColumnDataType::Float32 => 4,
        ColumnDataType::Int16 | ColumnDataType::UInt16 => 2,
        ColumnDataType::Int64 | ColumnDataType::UInt64 => 8,
        _ => 1,
    }
}

/// The value of the bit that a packed flag of the given type reads, or zero
/// for other types.
pub open spec fn spec_packed_bit(data_type: ColumnDataType) -> int {
    match data_type {
        ColumnDataType::PackedBool0 => 1,
        ColumnDataType::PackedBool1 => 2,
        ColumnDataType::PackedBool2 => 4,
        ColumnDataType::PackedBool3 => 8,
        ColumnDataType::PackedBool4 => 16,
        ColumnDataType::PackedBool5 => 32,
        ColumnDataType::PackedBool6 => 64,
        ColumnDataType::PackedBool7 => 128,
        _ => 0,
    }
}

/// The cell of a column in the row whose fixed cells start at `row_at` and
/// take `data_offset` bytes. Numbers are big-endian. A flag is set where its
/// byte is not zero; a packed flag where its bit of the byte is set. A text
/// cell holds the offset of its text from the end of the fixed cells, where
/// the text stands up to a zero byte. There is none where the buffer ends
/// early or the text does not end.
pub open spec fn spec_cell(
    s: Seq<u8>,
    row_at: int,
    data_offset: int,
    column: ExcelColumnDefinition,
) -> Option<ColumnDataView> {
    let at = row_at + column.offset;
    if at + spec_cell_width(column.data_type) > s.len() {
        None
    } else {
        match column.data_type {
            ColumnDataType::String => match spec_c_string(
                s,
                row_at + data_offset + spec_u32_be(s, at),
            ) {
                Some(text) => Some(ColumnDataView::String(text)),
                None => None,
            },
            ColumnDataType::Bool => Some(ColumnDataView::Bool(s[at] != 0)),
            ColumnDataType::Int8 => Some(ColumnDataView::Int8(spec_signed(s[at] as int, 0x80) as i8)),
            ColumnDataType::UInt8 => Some(ColumnDataView::UInt8(s[at])),
            ColumnDataType::Int16 => Some(
                ColumnDataView::Int16(spec_signed(spec_u16_be(s, at), 0x8000) as i16),
            ),
            ColumnDataType::UInt16 => Some(ColumnDataView::UInt16(spec_u16_be(s, at) as u16)),
            ColumnDataType::Int32 => Some(
                ColumnDataView::Int32(spec_signed(spec_u32_be(s, at), 0x8000_0000) as i32),
            ),
            ColumnDataType::UInt32 => Some(ColumnDataView::UInt32(spec_u32_be(s, at) as u32)),
            ColumnDataType::Float32 => Some(ColumnDataView::Float32(spec_u32_be(s, at) as u32)),
            ColumnDataType::Int64 => Some(
                ColumnDataView::Int64(
                    spec_signed(spec_u64_be(s, at), 0x8000_0000_0000_0000) as i64,
                ),
            ),
            ColumnDataType::UInt64 => Some(ColumnDataView::UInt64(spec_u64_be(s, at) as u64)),
            _ => Some(
                ColumnDataView::Bool(s[at] as int / spec_packed_bit(column.data_type) % 2 == 1),
            ),
        }
    }
}

/// The row whose fixed cells start at `row_at`: one cell for each column, if
/// each of them can be read.
pub open spec fn spec_row(
    s: Seq<u8>,
    row_at: int,
    data_offset: int,
    columns: Seq<ExcelColumnDefinition>,
) -> Option<Seq<ColumnDataView>> {
    if forall|c: int|
        0 <= c < columns.len() ==> spec_cell(s, row_at, data_offset, #[trigger] columns[c]).is_some() {
        Some(
            Seq::new(
                columns.len(),
                |c: int| spec_cell(s, row_at, data_offset, columns[c]).unwrap(),
            ),
        )
    } else {
        None
    }
}

/// Where the fixed cells of subrow `i` of the entry at `offset` start: after
/// the six bytes of the entry's header, the subrows before it, and two bytes
/// for each subrow up to it.
pub open spec fn spec_subrow_at(offset: int, data_offset: int, i: int) -> int {
    offset + 6 + i * data_offset + 2 * (i + 1)
}

/// The first `n` subrows of the entry at `offset`, if each can be read.
pub open spec fn spec_subrows(s: Seq<u8>, sheet: EXHView, offset: int, n: int) -> Option<
    Seq<Seq<ColumnDataView>>,
>
    decreases n,
{
    if n <= 0 {
        Some(Seq::empty())
    } else {
        match (
            spec_subrows(s, sheet, offset, n - 1),
            spec_row(
                s,
                spec_subrow_at(offset, sheet.header.data_offset as int, n - 1),
                sheet.header.data_offset as int,
                sheet.column_definitions,
            ),
        ) {
            (Some(before), Some(row)) => Some(before.push(row)),
            _ => None,
        }
    }
}

/// The rows of the entry at `offset`. Its header is the size of its data and
/// the number of its rows, big-endian. Where that number is more than one, it
/// has that many subrows; otherwise it has one row right after its header.
pub open spec fn spec_entry_rows(s: Seq<u8>, sheet: EXHView, offset: int) -> Option<
    Seq<Seq<ColumnDataView>>,
> {
    if offset + 6 > s.len() {
        None
    } else {
        let count = spec_u16_be(s, offset + 4);
        if count > 1 {
            spec_subrows(s, sheet, offset, count)
        } else {
            match spec_row(
                s,
                offset + 6,
                sheet.header.data_offset as int,
                sheet.column_definitions,
            ) {
                Some(row) => Some(seq![row]),
                None => None,
            }
        }
    }
}

/// The rows of the first `n` entries, one after the other.
pub open spec fn spec_rows(s: Seq<u8>, sheet: EXHView, offsets: Seq<ExcelDataOffset>, n: int) -> Option<
    Seq<Seq<ColumnDataView>>,
>
    decreases n,
{
    if n <= 0 {
        Some(Seq::empty())
    } else {
        match (
            spec_rows(s, sheet, offsets, n - 1),
            spec_entry_rows(s, sheet, offsets[n - 1].offset as int),
        ) {
            (Some(before), Some(rows)) => Some(before + rows),
            _ => None,
        }
    }
}

/// The fixed part stored in the first 32 bytes of `s`: the letters `EXDF`,
/// then big-endian the version and, after two bytes of padding, the size of
/// the table of offsets.
pub open spec fn spec_exd_header(s: Seq<u8>) -> Option<EXDHeader> {
    if s.len() >= 32 && s[0] == 0x45 && s[1] == 0x58 && s[2] == 0x44 && s[3] == 0x46 {
        Some(
            EXDHeader { version: spec_u16_be(s, 4) as u16, index_size: spec_u32_be(s, 8) as u32 },
        )
    } else {
        None
    }
}

/// Entry `i` of the table of offsets, which follows the fixed part: the
/// number of a row and its offset, both big-endian.
pub open spec fn spec_data_offset(s: Seq<u8>, i: int) -> ExcelDataOffset {
    ExcelDataOffset {
        row_id: spec_u32_be(s, 32 + 8 * i) as u32,
        offset: spec_u32_be(s, 32 + 8 * i + 4) as u32,
    }
}

/// The page stored in `s`, read with the columns of its sheet: the fixed
/// part, one entry of the table of offsets for every eight bytes of its size,
/// and the rows of the entries. There is none where the buffer ends early,
/// the letters at the start are not `EXDF`, or a row cannot be read.
pub open spec fn spec_exd(s: Seq<u8>, sheet: EXHView) -> Option<EXDView> {
    match spec_exd_header(s) {
        None => None,
        Some(header) => {
            let count = header.index_size as int / 8;
            let data_offsets = Seq::new(count as nat, |i: int| spec_data_offset(s, i));
            if 32 + 8 * count > s.len() {
                None
            } else {
                match spec_rows(s, sheet, data_offsets, count) {
                    Some(rows) => Some(EXDView { header, data_offsets, rows }),
                    None => None,
                }
            }
        },
    }
}

/// The name of the file of a page: the name of the sheet, the number of the
/// page's first row, the tag of the language unless it is the neutral one,
/// and the suffix.
pub open spec fn spec_exd_filename(
    name: Seq<char>,
    language: Language,
    page: ExcelDataPagination,
) -> Seq<char> {
    if language == Language::Neutral {
        name + "_"@ + spec_decimal(page.start_id as nat) + ".exd"@
    } else {
        name + "_"@ + spec_decimal(page.start_id as nat) + "_"@ + spec_language_code(language)
            + ".exd"@
    }
}

fn packed_bit(data_type: ColumnDataType) -> (bit: u8)
    ensures
        bit == spec_packed_bit(data_type),
{
    match data_type {
        ColumnDataType::PackedBool0 => 1,
        ColumnDataType::PackedBool1 => 2,
        ColumnDataType::PackedBool2 => 4,
        ColumnDataType::PackedBool3 => 8,
        ColumnDataType::PackedBool4 => 16,
        ColumnDataType::PackedBool5 => 32,
        ColumnDataType::PackedBool6 => 64,
        ColumnDataType::PackedBool7 => 128,
        _ => 0,
    }
}

fn cell_width(data_type: ColumnDataType) -> (width: usize)
    ensures
        width == spec_cell_width(data_type),
{
    match data_type {
        ColumnDataType::String | ColumnDataType::Int32 | ColumnDataType::UInt32
        | ColumnDataType::Float32 => 4,
        ColumnDataType::Int16 | ColumnDataType::UInt16 => 2,
        ColumnDataType::Int64 | ColumnDataType::UInt64 => 8,
        _ => 1,
    }
}

/// Reads the cell of a column in the row whose fixed cells start at `row_at`.
pub fn read_cell(data: &[u8], row_at: u64, data_offset: u16, column: &ExcelColumnDefinition) -> (cell:
    Option<ColumnData>)
    requires
        row_at <= 0x1_0000_0000_0000,
    ensures
        match cell {
            Some(cell) => spec_cell(data@, row_at as int, data_offset as int, *column) == Some(
                cell@,
            ),
            None => spec_cell(data@, row_at as int, data_offset as int, *column).is_none(),
        },
{
    let len: usize = data.len();
    let position: u64 = row_at + column.offset as u64;
    let width: usize = cell_width(column.data_type);
    if position > len as u64 || width as u64 > len as u64 - position {
        return None;
    }
    let at: usize = position as usize;
    match column.data_type {
        ColumnDataType::String => {
            let text_at: u64 = row_at + data_offset as u64 + read_u32_be(data, at) as u64;
            if text_at > len as u64 {
                return None;
            }
            match read_c_string(data, text_at as usize) {
                Some(text) => Some(ColumnData::String(text)),
                None => None,
            }
        },
        ColumnDataType::Bool => Some(ColumnData::Bool(data[at] != 0)),
        ColumnDataType::Int8 => {
            let value: i16 = data[at] as i16;
            Some(
                ColumnData::Int8(
                    if value >= 0x80 {
                        (value - 0x100) as i8
                    } else {
                        value as i8
                    },
                ),
            )
        },
        ColumnDataType::UInt8 => Some(ColumnData::UInt8(data[at])),
        ColumnDataType::Int16 => {
            let value: i32 = read_u16_be(data, at) as i32;
            Some(
                ColumnData::Int16(
                    if value >= 0x8000 {
                        (value - 0x1_0000) as i16
                    } else {
                        value as i16
                    },
                ),
            )
        },
        ColumnDataType::UInt16 => Some(ColumnData::UInt16(read_u16_be(data, at))),
        ColumnDataType::Int32 => {
            let value: i64 = read_u32_be(data, at) as i64;
            Some(
                ColumnData::Int32(
                    if value >= 0x8000_0000 {
                        (value - 0x1_0000_0000) as i32
                    } else {
                        value as i32
                    },
                ),
            )
        },
        ColumnDataType::UInt32 => Some(ColumnData::UInt32(read_u32_be(data, at))),
        ColumnDataType::Float32 => Some(ColumnData::Float32(read_u32_be(data, at))),
        ColumnDataType::Int64 => {
            let value: i128 = read_u64_be(data, at) as i128;
            Some(
                ColumnData::Int64(
                    if value >= 0x8000_0000_0000_0000 {
                        (value - 0x1_0000_0000_0000_0000) as i64
                    } else {
                        value as i64
                    },
                ),
            )
        },
        ColumnDataType::UInt64 => Some(ColumnData::UInt64(read_u64_be(data, at))),
        _ => {
            let bit: u8 = packed_bit(column.data_type);
            Some(ColumnData::Bool(data[at] / bit % 2 == 1))
        },
    }
}

/// Reads the row whose fixed cells start at `row_at`.
pub fn read_row(data: &[u8], row_at: u64, data_offset: u16, columns: &[ExcelColumnDefinition]) -> (row:
    Option<ExcelRow>)
    requires
        row_at <= 0x1_0000_0000_0000,
    ensures
        match row {
            Some(row) => spec_row(data@, row_at as int, data_offset as int, columns@) == Some(
                row@,
            ),
            None => spec_row(data@, row_at as int, data_offset as int, columns@).is_none(),
        },
{
    let count: usize = columns.len();
    let mut cells: Vec<ColumnData> = Vec::new();
    let mut c: usize = 0;
    while c < count
        invariant
            c <= count,
            count == columns@.len(),
            row_at <= 0x1_0000_0000_0000,
            cells@.len() == c,
            forall|j: int|
                0 <= j < c ==> spec_cell(
                    data@,
                    row_at as int,
                    data_offset as int,
                    #[trigger] columns@[j],
                ) == Some(cells@[j]@),
        decreases count - c,
    {
        match read_cell(data, row_at, data_offset, &columns[c]) {
            Some(cell) => {
                cells.push(cell);
            },
            None => {
                assert(spec_cell(
                    data@,
                    row_at as int,
                    data_offset as int,
                    columns@[c as int],
                ).is_none());
                return None;
            },
        }
        c = c + 1;
    }
    let row = ExcelRow { data: cells };
    proof {
        assert forall|j: int| 0 <= j < columns@.len() implies spec_cell(
            data@,
            row_at as int,
            data_offset as int,
            #[trigger] columns@[j],
        ).is_some() by {
            assert(spec_cell(data@, row_at as int, data_offset as int, columns@[j]) == Some(
                row.data@[j]@,
            ));
        }
        assert(row@ =~= Seq::new(
            columns@.len(),
            |j: int| spec_cell(data@, row_at as int, data_offset as int, columns@[j]).unwrap(),
        ));
    }
    Some(row)
}

proof fn lemma_subrows_fails(s: Seq<u8>, sheet: EXHView, offset: int, n: int, count: int)
    requires
        0 <= n <= count,
        spec_subrows(s, sheet, offset, n).is_none(),
    ensures
        spec_subrows(s, sheet, offset, count).is_none(),
    decreases count - n,
{
    if n < count {
        lemma_subrows_fails(s, sheet, offset, n, count - 1);
    }
}

proof fn lemma_rows_fails(
    s: Seq<u8>,
    sheet: EXHView,
    offsets: Seq<ExcelDataOffset>,
    n: int,
    count: int,
)
    requires
        0 <= n <= count,
        spec_rows(s, sheet, offsets, n).is_none(),
    ensures
        spec_rows(s, sheet, offsets, count).is_none(),
    decreases count - n,
{
    if n < count {
        lemma_rows_fails(s, sheet, offsets, n, count - 1);
    }
}

/// Appends the rows of the entry at `offset`.
fn read_entry_rows(data: &[u8], sheet: &EXH, offset: u32, rows: &mut Vec<ExcelRow>) -> (done:
    bool)
    ensures
        match spec_entry_rows(data@, sheet@, offset as int) {
            Some(added) => done && spec_row_views(final(rows)@) == spec_row_views(old(rows)@)
                + added,
            None => !done,
        },
{
    let len: usize = data.len();
    if offset as u64 + 6 > len as u64 {
        return false;
    }
    let count: u16 = read_u16_be(data, offset as usize + 4);
    let data_offset: u16 = sheet.header.data_offset;
    let ghost before = spec_row_views(rows@);
    if count > 1 {
        let mut i: u16 = 0;
        let ghost mut added = Seq::<Seq<ColumnDataView>>::empty();
        assert(spec_row_views(rows@) =~= before + added);
        while i < count
            invariant
                i <= count,
                count > 1,
                len == data@.len(),
                offset + 6 <= len,
                count == spec_u16_be(data@, offset + 4),
                before == spec_row_views(old(rows)@),
                data_offset == sheet@.header.data_offset,
                spec_subrows(data@, sheet@, offset as int, i as int) == Some(added),
                spec_row_views(rows@) == before + added,
            decreases count - i,
        {
            assert(i as u64 * data_offset as u64 <= 0xFFFF * 0xFFFF) by (nonlinear_arith)
                requires
                    i <= 0xFFFF,
                    data_offset <= 0xFFFF,
            ;
            let row_at: u64 = offset as u64 + 6 + i as u64 * data_offset as u64 + 2 * (i as u64
                + 1);
            let row = match read_row(
                data,
                row_at,
                data_offset,
                sheet.column_definitions.as_slice(),
            ) {
                Some(row) => row,
                None => {
                    proof {
                        lemma_subrows_fails(data@, sheet@, offset as int, i + 1, count as int);
                    }
                    return false;
                },
            };
            let ghost row_view = row@;
            let ghost rows_before = rows@;
            rows.push(row);
            proof {
                assert forall|j: int| 0 <= j < rows_before.len() implies spec_row_views(rows@)[j]
                    == (before + added)[j] by {
                    assert(spec_row_views(rows_before)[j] == rows_before[j]@);
                }
                assert(spec_row_views(rows@) =~= (before + added).push(row_view));
                assert((before + added).push(row_view) =~= before + added.push(row_view));
                added = added.push(row_view);
            }
            i = i + 1;
        }
        true
    } else {
        match read_row(data, offset as u64 + 6, data_offset, sheet.column_definitions.as_slice()) {
            Some(row) => {
                let ghost row_view = row@;
                let ghost rows_before = rows@;
                rows.push(row);
                proof {
                    assert forall|j: int| 0 <= j < rows_before.len() implies spec_row_views(
                        rows@,
                    )[j] == before[j] by {
                        assert(spec_row_views(rows_before)[j] == rows_before[j]@);
                    }
                    assert(spec_row_views(rows@) =~= before + seq![row_view]);
                }
                true
            },
            None => false,
        }
    }
}

impl EXDHeader {
    /// Reads the fixed part at the start of `data`.
    pub fn read(data: &[u8]) -> (header: Option<EXDHeader>)
        ensures
            header == spec_exd_header(data@),
    {
        if data.len() < 32 || data[0] != 0x45 || data[1] != 0x58 || data[2] != 0x44 || data[3]
            != 0x46 {
            return None;
        }
        Some(EXDHeader { version: read_u16_be(data, 4), index_size: read_u32_be(data, 8) })
    }
}

impl EXD {
    /// Reads a page of a sheet from the bytes of its file, with the columns
    /// of the sheet's header.
    ///
    /// Returns the page that the bytes store, and nothing where the buffer
    /// ends early, the letters at the start are not `EXDF`, or a cell cannot
    /// be read.
    pub fn from_existing(exh: &EXH, buffer: &[u8]) -> (page: Option<EXD>)
        ensures
            match page {
                Some(page) => spec_exd(buffer@, exh@) == Some(page@),
                None => spec_exd(buffer@, exh@).is_none(),
            },
    {
        let len: usize = buffer.len();
        let header = match EXDHeader::read(buffer) {
            Some(header) => header,
            None => { return None; },
        };
        let count: u32 = header.index_size / 8;
        if 32 + 8 * count as u64 > len as u64 {
            return None;
        }
        let mut data_offsets: Vec<ExcelDataOffset> = Vec::new();
        let mut i: usize = 0;
        while i < count as usize
            invariant
                i <= count,
                len == buffer@.len(),
                32 + 8 * count <= len,
                data_offsets@ == Seq::new(i as nat, |j: int| spec_data_offset(buffer@, j)),
            decreases count - i,
        {
            data_offsets.push(
                ExcelDataOffset {
                    row_id: read_u32_be(buffer, 32 + 8 * i),
                    offset: read_u32_be(buffer, 32 + 8 * i + 4),
                },
            );
            i = i + 1;
            assert(data_offsets@ =~= Seq::new(i as nat, |j: int| spec_data_offset(buffer@, j)));
        }
        let mut rows: Vec<ExcelRow> = Vec::new();
        let mut e: usize = 0;
        assert(spec_row_views(rows@) =~= Seq::empty());
        while e < count as usize
            invariant
                e <= count,
                len == buffer@.len(),
                32 + 8 * count <= len,
                spec_exd_header(buffer@) == Some(header),
                count == header.index_size / 8,
                data_offsets@ == Seq::new(count as nat, |j: int| spec_data_offset(buffer@, j)),
                spec_rows(buffer@, exh@, data_offsets@, e as int) == Some(spec_row_views(rows@)),
            decreases count - e,
        {
            if !read_entry_rows(buffer, exh, data_offsets[e].offset, &mut rows) {
                proof {
                    lemma_rows_fails(buffer@, exh@, data_offsets@, e + 1, count as int);
                }
                return None;
            }
            e = e + 1;
        }
        Some(EXD { header, data_offsets, rows })
    }

    /// The name of the file of a page of a sheet in a language.
    pub fn calculate_filename(name: &str, language: Language, page: &ExcelDataPagination) -> (filename:
        String)
        ensures
            filename@ == spec_exd_filename(name@, language, *page),
    {
        let mut filename = String::new();
        push_text(&mut filename, name);
        push_text(&mut filename, "_");
        push_decimal(&mut filename, page.start_id as u64);
        match language {
            Language::Neutral => {},
            _ => {
                push_text(&mut filename, "_");
                push_text(&mut filename, get_language_code(language));
            },
        }
        push_text(&mut filename, ".exd");
        assert(filename@ =~= spec_exd_filename(name@, language, *page));
        filename
    }
}

} // verus!
