//! The list of the sheets: lines of text, each with a name and a number.

use vstd::prelude::*;
use crate::binary::{find, spec_chars, spec_find};
use crate::text::push_char;

verus! {

/// The byte that ends a line.
pub const LINE_FEED: u8 = 0x0A;

/// The byte that may stand before the end of a line.
pub const CARRIAGE_RETURN: u8 = 0x0D;

/// The byte that separates the name from the number.
pub const COMMA: u8 = 0x2C;

/// The name that marks the line with the version of the list.
pub open spec fn spec_version_name() -> Seq<char> {
    seq!['E', 'X', 'L', 'T']
}

/// The list of the sheets.
#[derive(Debug)]
pub struct EXL {
    /// The version of the list.
    pub version: i32,
    /// The name and the number of every sheet, in the order of the lines.
    pub entries: Vec<(String, i32)>,
}

/// What the list of the sheets holds.
pub struct EXLView {
    pub version: i32,
    pub entries: Seq<(Seq<char>, i32)>,
}

/// The views of the entries.
pub open spec fn spec_entry_views(entries: Seq<(String, i32)>) -> Seq<(Seq<char>, i32)> {
    Seq::new(entries.len(), |i: int| (entries[i].0@, entries[i].1))
}

impl View for EXL {
    type V = EXLView;

    open spec fn view(&self) -> EXLView {
        EXLView { version: self.version, entries: spec_entry_views(self.entries@) }
    }
}

/// Where the text of the line that starts at `from` ends: before the line
/// feed, and before a carriage return in front of it.
pub open spec fn spec_line_end(s: Seq<u8>, from: int) -> int {
    let feed = spec_find(s, LINE_FEED, from, s.len() as int);
    if feed > from && s[feed - 1] == CARRIAGE_RETURN {
        feed - 1
    } else {
        feed
    }
}

/// Every byte from `from` up to `to` is below 128.
pub open spec fn spec_is_ascii(s: Seq<u8>, from: int, to: int) -> bool {
    forall|i: int| from <= i < to ==> #[trigger] s[i] < 0x80
}

/// The number that the decimal digits from `from` up to `to` stand for.
pub open spec fn spec_digits_value(s: Seq<u8>, from: int, to: int) -> int
    decreases to - from,
{
    if to <= from {
        0
    } else {
        10 * spec_digits_value(s, from, to - 1) + (s[to - 1] - 0x30)
    }
}

/// Every byte from `from` up to `to` is a decimal digit.
pub open spec fn spec_are_digits(s: Seq<u8>, from: int, to: int) -> bool {
    forall|i: int| from <= i < to ==> 0x30 <= #[trigger] s[i] <= 0x39
}

/// The number written from `from` up to `to`: an optional sign, then at least
/// one decimal digit. There is none where other bytes stand there or the
/// number does not fit in 32 bits with a sign.
pub open spec fn spec_number(s: Seq<u8>, from: int, to: int) -> Option<i32> {
    let signed = from < to && (s[from] == 0x2D || s[from] == 0x2B);
    let digits = if signed {
        from + 1
    } else {
        from
    };
    let magnitude = spec_digits_value(s, digits, to);
    let value = if signed && s[from] == 0x2D {
        -magnitude
    } else {
        magnitude
    };
    if digits < to && spec_are_digits(s, digits, to) && i32::MIN <= value <= i32::MAX {
        Some(value as i32)
    } else {
        None
    }
}

/// The name and the number of the line whose text lies from `from` up to
/// `to`: the name stands before the first comma, the number after it. There
/// are none where the line has no comma, a byte of the name is not below 128,
/// or no number follows.
pub open spec fn spec_line(s: Seq<u8>, from: int, to: int) -> Option<(Seq<char>, i32)> {
    let comma = spec_find(s, COMMA, from, to);
    if comma < to && spec_is_ascii(s, from, comma) {
        match spec_number(s, comma + 1, to) {
            Some(number) => Some((spec_chars(s, from, comma), number)),
            None => None,
        }
    } else {
        None
    }
}

/// The list after the line has been taken into it: the line named `EXLT`
/// gives the version, every other line an entry.
pub open spec fn spec_take_line(list: EXLView, line: (Seq<char>, i32)) -> EXLView {
    if line.0 == spec_version_name() {
        EXLView { version: line.1, ..list }
    } else {
        EXLView { entries: list.entries.push(line), ..list }
    }
}

/// The list after the lines from `from` on have been taken into it, one by
/// one. There is none where a line is malformed.
pub open spec fn spec_take_lines(s: Seq<u8>, from: int, list: EXLView) -> Option<EXLView>
    decreases s.len() - from,
{
    if from < 0 || from >= s.len() {
        Some(list)
    } else {
        let feed = spec_find(s, LINE_FEED, from, s.len() as int);
        match spec_line(s, from, spec_line_end(s, from)) {
            None => None,
            Some(line) => if from <= feed < s.len() {
                spec_take_lines(s, feed + 1, spec_take_line(list, line))
            } else {
                Some(spec_take_line(list, line))
            },
        }
    }
}

/// The list of the sheets that the text holds: version zero and no entries,
/// with every line taken into it.
pub open spec fn spec_exl(s: Seq<u8>) -> Option<EXLView> {
    spec_take_lines(s, 0, EXLView { version: 0, entries: Seq::empty() })
}

/// The text of the bytes from `from` up to `to`, if each of them is below 128.
pub fn ascii_text(data: &[u8], from: usize, to: usize) -> (text: Option<String>)
    requires
        from <= to <= data@.len(),
    ensures
        text.is_some() == spec_is_ascii(data@, from as int, to as int),
        text.is_some() ==> text.unwrap()@ == spec_chars(data@, from as int, to as int),
{
    let mut text = String::new();
    let mut i: usize = from;
    while i < to
        invariant
            from <= i <= to <= data@.len(),
            spec_is_ascii(data@, from as int, i as int),
            text@ == spec_chars(data@, from as int, i as int),
        decreases to - i,
    {
        if data[i] >= 0x80 {
            return None;
        }
        push_char(&mut text, data[i] as char);
        i = i + 1;
        assert(text@ =~= spec_chars(data@, from as int, i as int));
    }
    Some(text)
}

proof fn lemma_digits_value_grows(s: Seq<u8>, from: int, mid: int, to: int)
    requires
        from <= mid <= to,
        spec_are_digits(s, from, to),
    ensures
        0 <= spec_digits_value(s, from, mid) <= spec_digits_value(s, from, to),
    decreases to - mid,
{
    lemma_digits_value_positive(s, from, mid);
    if mid < to {
        lemma_digits_value_grows(s, from, mid + 1, to);
        assert(0x30 <= s[mid] <= 0x39);
    }
}

proof fn lemma_digits_value_positive(s: Seq<u8>, from: int, to: int)
    requires
        spec_are_digits(s, from, to),
    ensures
        0 <= spec_digits_value(s, from, to),
    decreases to - from,
{
    if from < to {
        lemma_digits_value_positive(s, from, to - 1);
        assert(0x30 <= s[to - 1] <= 0x39);
    }
}

/// Reads the number written from `from` up to `to`.
pub fn read_number(data: &[u8], from: usize, to: usize) -> (number: Option<i32>)
    requires
        from <= to <= data@.len(),
    ensures
        number == spec_number(data@, from as int, to as int),
{
    let signed: bool = from < to && (data[from] == 0x2D || data[from] == 0x2B);
    let negative: bool = signed && data[from] == 0x2D;
    let digits: usize = if signed {
        from + 1
    } else {
        from
    };
    if digits >= to {
        return None;
    }
    let mut magnitude: u64 = 0;
    let mut i: usize = digits;
    while i < to
        invariant
            from <= digits <= i <= to <= data@.len(),
            digits < to,
            signed == (from < to && (data@[from as int] == 0x2D || data@[from as int] == 0x2B)),
            negative == (signed && data@[from as int] == 0x2D),
            digits == if signed {
                from + 1
            } else {
                from as int
            },
            spec_are_digits(data@, digits as int, i as int),
            magnitude == spec_digits_value(data@, digits as int, i as int),
            magnitude <= 0x8000_0000,
        decreases to - i,
    {
        let byte: u8 = data[i];
        if byte < 0x30 || byte > 0x39 {
            assert(!spec_are_digits(data@, digits as int, to as int));
            return None;
        }
        magnitude = 10 * magnitude + (byte - 0x30) as u64;
        if magnitude > 0x8000_0000 {
            proof {
                if spec_are_digits(data@, digits as int, to as int) {
                    lemma_digits_value_grows(data@, digits as int, i + 1, to as int);
                }
            }
            return None;
        }
        i = i + 1;
    }
    if negative {
        Some((-(magnitude as i64)) as i32)
    } else if magnitude > 0x7FFF_FFFF {
        None
    } else {
        Some(magnitude as i32)
    }
}

/// Whether the text is the name that marks the line with the version.
fn is_version_name(text: &str) -> (is: bool)
    ensures
        is == (text@ == spec_version_name()),
{
    if text.unicode_len() != 4 {
        return false;
    }
    let is = text.get_char(0) == 'E' && text.get_char(1) == 'X' && text.get_char(2) == 'L'
        && text.get_char(3) == 'T';
    assert(is ==> text@ =~= spec_version_name());
    is
}

impl EXL {
    /// Reads the list of the sheets from the bytes of its file.
    ///
    /// Returns the list that the lines give, and nothing where a line has no
    /// comma, a byte of a name is not below 128, or what follows the comma is
    /// not a number of 32 bits.
    pub fn from_existing(buffer: &[u8]) -> (list: Option<EXL>)
        ensures
            match list {
                Some(list) => spec_exl(buffer@) == Some(list@),
                None => spec_exl(buffer@).is_none(),
            },
    {
        let len: usize = buffer.len();
        let mut list = EXL { version: 0, entries: Vec::new() };
        let mut from: usize = 0;
        assert(list@.entries =~= Seq::empty());
        while from < len
            invariant
                from <= len,
                len == buffer@.len(),
                spec_exl(buffer@) == spec_take_lines(buffer@, from as int, list@),
            decreases len - from,
        {
            let feed: usize = find(buffer, LINE_FEED, from, len);
            let end: usize = if feed > from && buffer[feed - 1] == CARRIAGE_RETURN {
                feed - 1
            } else {
                feed
            };
            let comma: usize = find(buffer, COMMA, from, end);
            if comma >= end {
                return None;
            }
            let name = match ascii_text(buffer, from, comma) {
                Some(name) => name,
                None => { return None; },
            };
            let number = match read_number(buffer, comma + 1, end) {
                Some(number) => number,
                None => { return None; },
            };
            let ghost before = list@;
            let ghost line = (name@, number);
            if is_version_name(name.as_str()) {
                list.version = number;
            } else {
                list.entries.push((name, number));
                assert(list@.entries =~= before.entries.push(line));
            }
            assert(list@ == spec_take_line(before, line));
            if feed >= len {
                from = len;
            } else {
                from = feed + 1;
            }
        }
        Some(list)
    }
}

} // verus!
