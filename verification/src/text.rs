//! Building strings piece by piece: characters, and numbers in decimal and
//! hexadecimal with leading zeros.

use vstd::prelude::*;
use vstd::string::StringSliceAdditionalSpecFns;

verus! {

/// Appends one character to a string.
///
/// Trusted: this is `String::push` of the standard library, which appends the
/// given character to the end of the string and changes nothing else.
#[verifier::external_body]
pub(crate) fn push_char(text: &mut String, c: char)
    ensures
        final(text)@ == old(text)@.push(c),
{
    text.push(c);
}

/// The character of a digit below sixteen: `0` to `9`, then `a` to `f`.
pub open spec fn spec_digit(d: int) -> char {
    if d < 10 {
        (0x30 + d) as u8 as char
    } else {
        (0x61 + d - 10) as u8 as char
    }
}

/// The decimal digits of `n`, without leading zeros; one zero for zero.
pub open spec fn spec_decimal(n: nat) -> Seq<char>
    decreases n,
{
    if n < 10 {
        seq![spec_digit(n as int)]
    } else {
        spec_decimal(n / 10).push(spec_digit((n % 10) as int))
    }
}

/// `count` characters `0`.
pub open spec fn spec_zero_chars(count: int) -> Seq<char> {
    Seq::new(
        if count < 0 {
            0
        } else {
            count as nat
        },
        |i: int| '0',
    )
}

/// The decimal digits of `n`, with zeros in front up to `width` characters.
pub open spec fn spec_padded(n: nat, width: int) -> Seq<char> {
    spec_zero_chars(width - spec_decimal(n).len()) + spec_decimal(n)
}

/// The decimal digits of `v` with zeros in front up to `width` characters. A
/// negative number has its sign in front, which counts as one character.
pub open spec fn spec_padded_signed(v: int, width: int) -> Seq<char> {
    if v < 0 {
        seq!['-'] + spec_padded((-v) as nat, width - 1)
    } else {
        spec_padded(v as nat, width)
    }
}

/// The hexadecimal digits of `n` in lower case, without leading zeros; one
/// zero for zero.
pub open spec fn spec_hex(n: nat) -> Seq<char>
    decreases n,
{
    if n < 16 {
        seq![spec_digit(n as int)]
    } else {
        spec_hex(n / 16).push(spec_digit((n % 16) as int))
    }
}

/// The hexadecimal digits of `n`, with zeros in front up to `width` characters.
pub open spec fn spec_padded_hex(n: nat, width: int) -> Seq<char> {
    spec_zero_chars(width - spec_hex(n).len()) + spec_hex(n)
}

/// The two hexadecimal digits of a byte, in lower case.
pub open spec fn spec_hex_byte(v: u8) -> Seq<char> {
    seq![spec_digit(v as int / 16), spec_digit(v as int % 16)]
}

/// The character of a digit below sixteen.
pub fn digit(d: u8) -> (c: char)
    requires
        d < 16,
    ensures
        c == spec_digit(d as int),
{
    if d < 10 {
        (0x30 + d) as char
    } else {
        (0x61 + d - 10) as char
    }
}

/// The decimal digits of `n`, most significant first.
pub fn decimal(n: u64) -> (list: Vec<char>)
    ensures
        list@ == spec_decimal(n as nat),
    decreases n,
{
    if n < 10 {
        let mut list: Vec<char> = Vec::new();
        list.push(digit(n as u8));
        list
    } else {
        let mut list = decimal(n / 10);
        list.push(digit((n % 10) as u8));
        list
    }
}

/// The hexadecimal digits of `n`, most significant first.
pub fn hex(n: u64) -> (list: Vec<char>)
    ensures
        list@ == spec_hex(n as nat),
    decreases n,
{
    if n < 16 {
        let mut list: Vec<char> = Vec::new();
        list.push(digit(n as u8));
        list
    } else {
        let mut list = hex(n / 16);
        list.push(digit((n % 16) as u8));
        list
    }
}

/// Appends the digits of `list` with zeros in front up to `width` characters.
fn push_digits(text: &mut String, list: &Vec<char>, width: usize)
    ensures
        final(text)@ == old(text)@ + (spec_zero_chars(width - list@.len()) + list@),
{
    let count: usize = list.len();
    let ghost start = text@;
    let mut zeros: usize = 0;
    if count < width {
        while zeros < width - count
            invariant
                count < width,
                zeros <= width - count,
                text@ == start + spec_zero_chars(zeros as int),
            decreases width - count - zeros,
        {
            push_char(text, '0');
            zeros = zeros + 1;
            assert(text@ =~= start + spec_zero_chars(zeros as int));
        }
    } else {
        assert(text@ =~= start + spec_zero_chars(width - count));
    }
    let ghost front = text@;
    let mut i: usize = 0;
    while i < count
        invariant
            i <= count,
            count == list@.len(),
            text@ == front + list@.subrange(0, i as int),
        decreases count - i,
    {
        push_char(text, list[i]);
        i = i + 1;
        assert(text@ =~= front + list@.subrange(0, i as int));
    }
    assert(list@.subrange(0, count as int) =~= list@);
    assert(text@ =~= start + (spec_zero_chars(width - list@.len()) + list@));
}

/// Appends the hexadecimal digits of `n` with zeros in front up to `width`
/// characters.
pub fn push_padded_hex(text: &mut String, n: u64, width: usize)
    ensures
        final(text)@ == old(text)@ + spec_padded_hex(n as nat, width as int),
{
    let list = hex(n);
    push_digits(text, &list, width);
}

/// Appends the decimal digits of `n` with zeros in front up to `width`
/// characters.
pub fn push_padded(text: &mut String, n: u64, width: usize)
    ensures
        final(text)@ == old(text)@ + spec_padded(n as nat, width as int),
{
    let list = decimal(n);
    push_digits(text, &list, width);
}

/// Appends the decimal digits of `n`.
pub fn push_decimal(text: &mut String, n: u64)
    ensures
        final(text)@ == old(text)@ + spec_decimal(n as nat),
{
    push_padded(text, n, 0);
    assert(spec_padded(n as nat, 0) =~= spec_decimal(n as nat));
}

/// Appends the two hexadecimal digits of a byte.
pub fn push_hex_byte(text: &mut String, v: u8)
    ensures
        final(text)@ == old(text)@ + spec_hex_byte(v),
{
    push_char(text, digit(v / 16));
    push_char(text, digit(v % 16));
    assert(text@ =~= old(text)@ + spec_hex_byte(v));
}

/// Appends the decimal digits of `v` with zeros in front up to `width`
/// characters, the sign of a negative number included.
pub fn push_padded_signed(text: &mut String, v: i32, width: usize)
    requires
        width >= 1,
    ensures
        final(text)@ == old(text)@ + spec_padded_signed(v as int, width as int),
{
    let ghost start = text@;
    if v < 0 {
        push_char(text, '-');
        let magnitude: u64 = (-(v as i64)) as u64;
        push_padded(text, magnitude, width - 1);
        assert(text@ =~= start + spec_padded_signed(v as int, width as int));
    } else {
        push_padded(text, v as u64, width);
    }
}

/// Appends the characters of `piece`.
pub fn push_text(text: &mut String, piece: &str)
    ensures
        final(text)@ == old(text)@ + piece@,
{
    text.append(piece);
}

/// The bytes that store a text.
pub open spec fn spec_text_bytes(text: Seq<char>) -> Seq<u8> {
    vstd::utf8::encode_utf8(text)
}

/// The bytes that store a text.
pub fn text_bytes(text: &str) -> (bytes: &[u8])
    ensures
        bytes@ == spec_text_bytes(text@),
{
    text.as_bytes()
}

} // verus!
