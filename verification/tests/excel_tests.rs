use physis::common::Language;
use physis::exd::{ColumnData, EXD};
use physis::exh::{ColumnDataType, ExcelDataPagination, EXH};
use physis::exl::EXL;

#[test]
fn sheet_list_is_read() {
    let list = EXL::from_existing(b"EXLT,2\r\nAchievement,209\nAction,-1\nquest/000/ClsHrv001_00003,+7").unwrap();
    assert_eq!(list.version, 2);
    assert_eq!(
        list.entries,
        vec![
            ("Achievement".to_string(), 209),
            ("Action".to_string(), -1),
            ("quest/000/ClsHrv001_00003".to_string(), 7),
        ]
    );
    let empty = EXL::from_existing(b"").unwrap();
    assert_eq!(empty.version, 0);
    assert!(empty.entries.is_empty());
    let limits = EXL::from_existing(b"a,2147483647\nb,-2147483648\n").unwrap();
    assert_eq!(limits.entries[0].1, i32::MAX);
    assert_eq!(limits.entries[1].1, i32::MIN);
}

#[test]
fn sheet_lists_that_cannot_be_read() {
    assert!(EXL::from_existing(b"NoComma\n").is_none());
    assert!(EXL::from_existing(b"a,1\n\nb,2\n").is_none());
    assert!(EXL::from_existing(b"a,\n").is_none());
    assert!(EXL::from_existing(b"a,12x\n").is_none());
    assert!(EXL::from_existing(b"a,2147483648\n").is_none());
    assert!(EXL::from_existing(b"a,-2147483649\n").is_none());
    assert!(EXL::from_existing(b"a,-\n").is_none());
    assert!(EXL::from_existing(&[0xC3, 0xA4, b',', b'1']).is_none());
}

fn exh_bytes() -> Vec<u8> {
    let mut bytes: Vec<u8> = Vec::new();
    bytes.extend_from_slice(b"EXHF");
    bytes.extend_from_slice(&3u16.to_be_bytes());
    bytes.extend_from_slice(&8u16.to_be_bytes());
    bytes.extend_from_slice(&4u16.to_be_bytes());
    bytes.extend_from_slice(&2u16.to_be_bytes());
    bytes.extend_from_slice(&2u16.to_be_bytes());
    bytes.extend_from_slice(&[0u8; 6]);
    bytes.extend_from_slice(&700u32.to_be_bytes());
    bytes.extend_from_slice(&[0u8; 8]);
    for (code, offset) in [(0u16, 0u16), (5, 4), (0x1B, 6), (2, 7)] {
        bytes.extend_from_slice(&code.to_be_bytes());
        bytes.extend_from_slice(&offset.to_be_bytes());
    }
    for (start, count) in [(0u32, 500u32), (500, 200)] {
        bytes.extend_from_slice(&start.to_be_bytes());
        bytes.extend_from_slice(&count.to_be_bytes());
    }
    bytes.extend_from_slice(&[1, 0, 2, 0]);
    bytes
}

#[test]
fn sheet_header_is_read() {
    let sheet = EXH::from_existing(&exh_bytes()).unwrap();
    assert_eq!(sheet.header.version, 3);
    assert_eq!(sheet.header.data_offset, 8);
    assert_eq!(sheet.header.column_count, 4);
    assert_eq!(sheet.header.page_count, 2);
    assert_eq!(sheet.header.language_count, 2);
    assert_eq!(sheet.header.row_count, 700);
    assert_eq!(sheet.column_definitions.len(), 4);
    assert_eq!(sheet.column_definitions[0].data_type, ColumnDataType::String);
    assert_eq!(sheet.column_definitions[1].data_type, ColumnDataType::UInt16);
    assert_eq!(sheet.column_definitions[1].offset, 4);
    assert_eq!(sheet.column_definitions[2].data_type, ColumnDataType::PackedBool2);
    assert_eq!(sheet.column_definitions[3].data_type, ColumnDataType::Int8);
    assert_eq!(
        sheet.pages,
        vec![
            ExcelDataPagination { start_id: 0, row_count: 500 },
            ExcelDataPagination { start_id: 500, row_count: 200 },
        ]
    );
    assert_eq!(sheet.languages, vec![Language::Japanese, Language::English]);
}

#[test]
fn sheet_headers_that_cannot_be_read() {
    let good = exh_bytes();
    assert!(EXH::from_existing(&good[..good.len() - 1]).is_none());
    assert!(EXH::from_existing(&good[..31]).is_none());
    let mut magic = good.clone();
    magic[3] = b'X';
    assert!(EXH::from_existing(&magic).is_none());
    let mut column = good.clone();
    column[33] = 8;
    assert!(EXH::from_existing(&column).is_none());
    let mut language = good.clone();
    let at = language.len() - 2;
    language[at] = 8;
    assert!(EXH::from_existing(&language).is_none());
}

fn exd_bytes() -> Vec<u8> {
    let mut bytes: Vec<u8> = Vec::new();
    bytes.extend_from_slice(b"EXDF");
    bytes.extend_from_slice(&2u16.to_be_bytes());
    bytes.extend_from_slice(&[0u8; 2]);
    bytes.extend_from_slice(&16u32.to_be_bytes());
    bytes.extend_from_slice(&[0u8; 20]);
    // two entries
    bytes.extend_from_slice(&10u32.to_be_bytes());
    bytes.extend_from_slice(&48u32.to_be_bytes());
    bytes.extend_from_slice(&11u32.to_be_bytes());
    bytes.extend_from_slice(&70u32.to_be_bytes());
    assert_eq!(bytes.len(), 48);
    // first entry: one row
    bytes.extend_from_slice(&12u32.to_be_bytes());
    bytes.extend_from_slice(&1u16.to_be_bytes());
    bytes.extend_from_slice(&0u32.to_be_bytes());
    bytes.extend_from_slice(&0x1234u16.to_be_bytes());
    bytes.extend_from_slice(&[0b0000_0100, 0xFE]);
    bytes.extend_from_slice(b"abc\0");
    bytes.extend_from_slice(&[0u8; 4]);
    assert_eq!(bytes.len(), 70);
    // second entry: two subrows, each with two bytes in front
    bytes.extend_from_slice(&30u32.to_be_bytes());
    bytes.extend_from_slice(&2u16.to_be_bytes());
    bytes.extend_from_slice(&[0, 0]);
    bytes.extend_from_slice(&10u32.to_be_bytes());
    bytes.extend_from_slice(&1u16.to_be_bytes());
    bytes.extend_from_slice(&[0b1111_1011, 0x7F]);
    bytes.extend_from_slice(&[0, 1]);
    bytes.extend_from_slice(&0u32.to_be_bytes());
    bytes.extend_from_slice(&0xFFFFu16.to_be_bytes());
    bytes.extend_from_slice(&[0, 0x80]);
    bytes.extend_from_slice(b"second\0");
    bytes
}

#[test]
fn sheet_page_is_read() {
    let sheet = EXH::from_existing(&exh_bytes()).unwrap();
    let page = EXD::from_existing(&sheet, &exd_bytes()).unwrap();
    assert_eq!(page.header.version, 2);
    assert_eq!(page.data_offsets.len(), 2);
    assert_eq!(page.data_offsets[0].row_id, 10);
    assert_eq!(page.data_offsets[1].offset, 70);
    assert_eq!(page.rows.len(), 3);
    assert_eq!(
        page.rows[0].data,
        vec![
            ColumnData::String("abc".to_string()),
            ColumnData::UInt16(0x1234),
            ColumnData::Bool(true),
            ColumnData::Int8(-2),
        ]
    );
    // the text of a subrow is looked up from the end of its fixed cells
    assert_eq!(
        page.rows[1].data,
        vec![
            ColumnData::String("second".to_string()),
            ColumnData::UInt16(1),
            ColumnData::Bool(false),
            ColumnData::Int8(127),
        ]
    );
    assert_eq!(page.rows[2].data[1], ColumnData::UInt16(0xFFFF));
    assert_eq!(page.rows[2].data[2], ColumnData::Bool(false));
    assert_eq!(page.rows[2].data[3], ColumnData::Int8(-128));
}

#[test]
fn sheet_pages_that_cannot_be_read() {
    let sheet = EXH::from_existing(&exh_bytes()).unwrap();
    let good = exd_bytes();
    assert!(EXD::from_existing(&sheet, &good[..good.len() - 1]).is_none());
    assert!(EXD::from_existing(&sheet, &good[..60]).is_none());
    assert!(EXD::from_existing(&sheet, &good[..31]).is_none());
    let mut magic = good.clone();
    magic[2] = b'H';
    assert!(EXD::from_existing(&sheet, &magic).is_none());
}

#[test]
fn names_of_sheet_pages() {
    let page = ExcelDataPagination { start_id: 500, row_count: 200 };
    assert_eq!(EXD::calculate_filename("item", Language::English, &page), "item_500_en.exd");
    assert_eq!(EXD::calculate_filename("item", Language::Japanese, &page), "item_500_ja.exd");
    assert_eq!(EXD::calculate_filename("item", Language::German, &page), "item_500_de.exd");
    assert_eq!(EXD::calculate_filename("item", Language::French, &page), "item_500_fr.exd");
    assert_eq!(EXD::calculate_filename("item", Language::ChineseSimplified, &page), "item_500_chs.exd");
    assert_eq!(EXD::calculate_filename("item", Language::Korean, &page), "item_500_ko.exd");
    let first = ExcelDataPagination { start_id: 0, row_count: 1 };
    assert_eq!(EXD::calculate_filename("quest/Cls", Language::Neutral, &first), "quest/Cls_0.exd");
}
