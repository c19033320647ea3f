//! Sheet headers: the columns of a sheet, its pages of rows, and its languages.

use vstd::prelude::*;
use crate::binary::{read_u16_be, read_u32_be, spec_u16_be, spec_u32_be};
use crate::common::{spec_language, Language};

verus! {

/// The number of bytes of the fixed part of a sheet header.
pub const EXH_HEADER_SIZE: usize = 32;

/// The type of a column.
#[derive(PartialEq, Eq, Structural, Clone, Copy, Debug)]
pub enum ColumnDataType {
    String,
    Bool,
    Int8,
    UInt8,
    Int16,
    UInt16,
    Int32,
    UInt32,
    Float32,
    Int64,
    UInt64,
    PackedBool0,
    PackedBool1,
    PackedBool2,
    PackedBool3,
    PackedBool4,
    PackedBool5,
    PackedBool6,
    PackedBool7,
}

/// The type that a type code stands for.
pub open spec fn spec_column_data_type(code: u16) -> Option<ColumnDataType> {
    if code == 0x0 {
        Some(ColumnDataType::String)
    } else if code == 0x1 {
        Some(ColumnDataType::Bool)
    } else if code == 0x2 {
        Some(ColumnDataType::Int8)
    } else if code == 0x3 {
        Some(ColumnDataType::UInt8)
    } else if code == 0x4 {
        Some(ColumnDataType::Int16)
    } else if code == 0x5 {
        Some(ColumnDataType::UInt16)
    } else if code == 0x6 {
        Some(ColumnDataType::Int32)
    } else if code == 0x7 {
        Some(ColumnDataType::UInt32)
    } else if code == 0x9 {
        Some(ColumnDataType::Float32)
    } else if code == 0xA {
        Some(ColumnDataType::Int64)
    } else if code == 0xB {
        Some(ColumnDataType::UInt64)
    } else if code == 0x19 {
        Some(ColumnDataType::PackedBool0)
    } else if code == 0x1A {
        Some(ColumnDataType::PackedBool1)
    } else if code == 0x1B {
        Some(ColumnDataType::PackedBool2)
    } else if code == 0x1C {
        Some(ColumnDataType::PackedBool3)
    } else if code == 0x1D {
        Some(ColumnDataType::PackedBool4)
    } else if code == 0x1E {
        Some(ColumnDataType::PackedBool5)
    } else if code == 0x1F {
        Some(ColumnDataType::PackedBool6)
    } else if code == 0x20 {
        Some(ColumnDataType::PackedBool7)
    } else {
        None
    }
}

impl ColumnDataType {
    /// The type that a type code stands for, if it stands for one.
    pub fn from_code(code: u16) -> (data_type: Option<ColumnDataType>)
        ensures
            data_type == spec_column_data_type(code),
    {
        match code {
            0x0 => Some(ColumnDataType::String),
            0x1 => Some(ColumnDataType::Bool),
            0x2 => Some(ColumnDataType::Int8),
            0x3 => Some(ColumnDataType::UInt8),
            0x4 => Some(ColumnDataType::Int16),
            0x5 => Some(ColumnDataType::UInt16),
            0x6 => Some(ColumnDataType::Int32),
            0x7 => Some(ColumnDataType::UInt32),
            0x9 => Some(ColumnDataType::Float32),
            0xA => Some(ColumnDataType::Int64),
            0xB => Some(ColumnDataType::UInt64),
            0x19 => Some(ColumnDataType::PackedBool0),
            0x1A => Some(ColumnDataType::PackedBool1),
            0x1B => Some(ColumnDataType::PackedBool2),
            0x1C => Some(ColumnDataType::PackedBool3),
            0x1D => Some(ColumnDataType::PackedBool4),
            0x1E => Some(ColumnDataType::PackedBool5),
            0x1F => Some(ColumnDataType::PackedBool6),
            0x20 => Some(ColumnDataType::PackedBool7),
            _ => None,
        }
    }
}

/// The fixed part of a sheet header.
#[derive(PartialEq, Eq, Structural, Clone, Copy, Debug)]
pub struct EXHHeader {
    pub version: u16,
    /// The number of bytes of the fixed cells of a row.
    pub data_offset: u16,
    pub column_count: u16,
    pub page_count: u16,
    pub language_count: u16,
    pub row_count: u32,
}

/// One column of a sheet: its type, and where its cell lies in a row.
#[derive(PartialEq, Eq, Structural, Clone, Copy, Debug)]
pub struct ExcelColumnDefinition {
    pub data_type: ColumnDataType,
    pub offset: u16,
}

/// One page of a sheet: the number of its first row, and how many rows it has.
#[derive(PartialEq, Eq, Structural, Clone, Copy, Debug)]
pub struct ExcelDataPagination {
    pub start_id: u32,
    pub row_count: u32,
}

/// A sheet header.
#[derive(Debug)]
pub struct EXH {
    pub header: EXHHeader,
    pub column_definitions: Vec<ExcelColumnDefinition>,
    pub pages: Vec<ExcelDataPagination>,
    pub languages: Vec<Language>,
}

/// What a sheet header holds.
pub struct EXHView {
    pub header: EXHHeader,
    pub column_definitions: Seq<ExcelColumnDefinition>,
    pub pages: Seq<ExcelDataPagination>,
    pub languages: Seq<Language>,
}

impl View for EXH {
    type V = EXHView;

    open spec fn view(&self) -> EXHView {
        EXHView {
            header: self.header,
            column_definitions: self.column_definitions@,
            pages: self.pages@,
            languages: self.languages@,
        }
    }
}

/// The fixed part stored in the first 32 bytes of `s`: the letters `EXHF`,
/// then big-endian the version, the size of the fixed cells of a row, and the
/// numbers of columns, pages and languages, and after six bytes of padding
/// the number of rows. There is none where the buffer is shorter or the
/// letters are others.
pub open spec fn spec_exh_header(s: Seq<u8>) -> Option<EXHHeader> {
    if s.len() >= 32 && s[0] == 0x45 && s[1] == 0x58 && s[2] == 0x48 && s[3] == 0x46 {
        Some(
            EXHHeader {
                version: spec_u16_be(s, 4) as u16,
                data_offset: spec_u16_be(s, 6) as u16,
                column_count: spec_u16_be(s, 8) as u16,
                page_count: spec_u16_be(s, 10) as u16,
                language_count: spec_u16_be(s, 12) as u16,
                row_count: spec_u32_be(s, 20) as u32,
            },
        )
    } else {
        None
    }
}

/// Column `i` of the columns stored from `at` on, four bytes each: the type
/// code and the offset, both big-endian. There is none where the type code
/// stands for nothing.
pub open spec fn spec_column(s: Seq<u8>, at: int, i: int) -> Option<ExcelColumnDefinition> {
    match spec_column_data_type(spec_u16_be(s, at + 4 * i) as u16) {
        Some(data_type) => Some(
            ExcelColumnDefinition { data_type, offset: spec_u16_be(s, at + 4 * i + 2) as u16 },
        ),
        None => None,
    }
}

/// Page `i` of the pages stored from `at` on, eight bytes each: the number of
/// the first row and the number of rows, both big-endian.
pub open spec fn spec_page(s: Seq<u8>, at: int, i: int) -> ExcelDataPagination {
    ExcelDataPagination {
        start_id: spec_u32_be(s, at + 8 * i) as u32,
        row_count: spec_u32_be(s, at + 8 * i + 4) as u32,
    }
}

/// Language `i` of the languages stored from `at` on, two bytes each: the
/// code and a byte of padding.
pub open spec fn spec_sheet_language(s: Seq<u8>, at: int, i: int) -> Option<Language> {
    spec_language(s[at + 2 * i])
}

/// The sheet header stored in `s`: the fixed part, and after it the columns,
/// the pages and the languages, as many of each as the fixed part says. There
/// is none where the buffer ends early, or a type code or a language code
/// stands for nothing.
pub open spec fn spec_exh(s: Seq<u8>) -> Option<EXHView> {
    match spec_exh_header(s) {
        None => None,
        Some(header) => {
            let pages_at = 32 + 4 * header.column_count;
            let languages_at = pages_at + 8 * header.page_count;
            if languages_at + 2 * header.language_count <= s.len() && (forall|i: int|
                0 <= i < header.column_count ==> (#[trigger] spec_column(s, 32, i)).is_some())
                && (forall|i: int|
                0 <= i < header.language_count ==> (#[trigger] spec_sheet_language(
                    s,
                    languages_at,
                    i,
                )).is_some()) {
                Some(
                    EXHView {
                        header,
                        column_definitions: Seq::new(
                            header.column_count as nat,
                            |i: int| spec_column(s, 32, i).unwrap(),
                        ),
                        pages: Seq::new(
                            header.page_count as nat,
                            |i: int| spec_page(s, pages_at, i),
                        ),
                        languages: Seq::new(
                            header.language_count as nat,
                            |i: int| spec_sheet_language(s, languages_at, i).unwrap(),
                        ),
                    },
                )
            } else {
                None
            }
        },
    }
}

impl EXHHeader {
    /// Reads the fixed part at the start of `data`.
    pub fn read(data: &[u8]) -> (header: Option<EXHHeader>)
        ensures
            header == spec_exh_header(data@),
    {
        if data.len() < 32 || data[0] != 0x45 || data[1] != 0x58 || data[2] != 0x48 || data[3]
            != 0x46 {
            return None;
        }
        Some(
            EXHHeader {
                version: read_u16_be(data, 4),
                data_offset: read_u16_be(data, 6),
                column_count: read_u16_be(data, 8),
                page_count: read_u16_be(data, 10),
                language_count: read_u16_be(data, 12),
                row_count: read_u32_be(data, 20),
            },
        )
    }
}

impl EXH {
    /// Reads a sheet header from the bytes of its file.
    ///
    /// Returns the header that the bytes store, and nothing where the buffer
    /// ends early, the letters at the start are not `EXHF`, or a type code or
    /// a language code stands for nothing.
    pub fn from_existing(buffer: &[u8]) -> (sheet: Option<EXH>)
        ensures
            match sheet {
                Some(sheet) => spec_exh(buffer@) == Some(sheet@),
                None => spec_exh(buffer@).is_none(),
            },
    {
        let len: usize = buffer.len();
        let header = match EXHHeader::read(buffer) {
            Some(header) => header,
            None => { return None; },
        };
        let pages_at: usize = 32 + 4 * header.column_count as usize;
        let languages_at: usize = pages_at + 8 * header.page_count as usize;
        if languages_at + 2 * header.language_count as usize > len {
            return None;
        }
        let mut column_definitions: Vec<ExcelColumnDefinition> = Vec::new();
        let mut i: usize = 0;
        while i < header.column_count as usize
            invariant
                i <= header.column_count,
                len == buffer@.len(),
                spec_exh_header(buffer@) == Some(header),
                pages_at == 32 + 4 * header.column_count,
                languages_at == pages_at + 8 * header.page_count,
                languages_at + 2 * header.language_count <= len,
                column_definitions@.len() == i,
                forall|j: int|
                    0 <= j < i ==> spec_column(buffer@, 32, j) == Some(
                        #[trigger] column_definitions@[j],
                    ),
            decreases header.column_count - i,
        {
            let data_type = match ColumnDataType::from_code(read_u16_be(buffer, 32 + 4 * i)) {
                Some(data_type) => data_type,
                None => {
                    assert(spec_column(buffer@, 32, i as int).is_none());
                    return None;
                },
            };
            column_definitions.push(
                ExcelColumnDefinition { data_type, offset: read_u16_be(buffer, 32 + 4 * i + 2) },
            );
            i = i + 1;
        }
        proof {
            assert forall|j: int| 0 <= j < header.column_count implies (#[trigger] spec_column(
                buffer@,
                32,
                j,
            )).is_some() by {
                assert(spec_column(buffer@, 32, j) == Some(column_definitions@[j]));
            }
        }
        let mut pages: Vec<ExcelDataPagination> = Vec::new();
        let mut p: usize = 0;
        while p < header.page_count as usize
            invariant
                p <= header.page_count,
                len == buffer@.len(),
                spec_exh_header(buffer@) == Some(header),
                pages_at == 32 + 4 * header.column_count,
                languages_at == pages_at + 8 * header.page_count,
                languages_at + 2 * header.language_count <= len,
                pages@ == Seq::new(p as nat, |j: int| spec_page(buffer@, pages_at as int, j)),
                forall|j: int|
                    0 <= j < header.column_count ==> (#[trigger] spec_column(
                        buffer@,
                        32,
                        j,
                    )).is_some(),
            decreases header.page_count - p,
        {
            pages.push(
                ExcelDataPagination {
                    start_id: read_u32_be(buffer, pages_at + 8 * p),
                    row_count: read_u32_be(buffer, pages_at + 8 * p + 4),
                },
            );
            p = p + 1;
            assert(pages@ =~= Seq::new(p as nat, |j: int| spec_page(buffer@, pages_at as int, j)));
        }
        let mut languages: Vec<Language> = Vec::new();
        let mut l: usize = 0;
        while l < header.language_count as usize
            invariant
                l <= header.language_count,
                len == buffer@.len(),
                spec_exh_header(buffer@) == Some(header),
                pages_at == 32 + 4 * header.column_count,
                languages_at == pages_at + 8 * header.page_count,
                languages_at + 2 * header.language_count <= len,
                forall|j: int|
                    0 <= j < header.column_count ==> (#[trigger] spec_column(
                        buffer@,
                        32,
                        j,
                    )).is_some(),
                languages@.len() == l,
                forall|j: int|
                    0 <= j < l ==> spec_sheet_language(buffer@, languages_at as int, j) == Some(
                        #[trigger] languages@[j],
                    ),
            decreases header.language_count - l,
        {
            let language = match Language::from_code(buffer[languages_at + 2 * l]) {
                Some(language) => language,
                None => {
                    assert(spec_sheet_language(buffer@, languages_at as int, l as int).is_none());
                    return None;
                },
            };
            languages.push(language);
            l = l + 1;
        }
        proof {
            assert forall|j: int| 0 <= j < header.column_count implies (#[trigger] spec_column(
                buffer@,
                32,
                j,
            )).is_some() by {
                assert(spec_column(buffer@, 32, j) == Some(column_definitions@[j]));
            }
            assert forall|j: int| 0 <= j < header.language_count implies (
            #[trigger] spec_sheet_language(buffer@, languages_at as int, j)).is_some() by {
                assert(spec_sheet_language(buffer@, languages_at as int, j) == Some(
                    languages@[j],
                ));
            }
            assert(column_definitions@ =~= Seq::new(
                header.column_count as nat,
                |j: int| spec_column(buffer@, 32, j).unwrap(),
            ));
            assert(languages@ =~= Seq::new(
                header.language_count as nat,
                |j: int| spec_sheet_language(buffer@, languages_at as int, j).unwrap(),
            ));
        }
        Some(EXH { header, column_definitions, pages, languages })
    }
}

} // verus!
