//! Characters and text: the character classes of the lexical grammar, byte
//! offsets of UTF-8 text and a few helpers for building strings.
use vstd::prelude::*;
use vstd::utf8::{encode_scalar, encode_utf8};

verus! {

/// `String::push` of std appends the character to the end of the string and
/// leaves what was there as it was.
pub assume_specification[ String::push ](s: &mut String, c: char)
    ensures
        final(s)@ == old(s)@.push(c),
;

/// Space, tab, line feed or carriage return.
pub open spec fn is_whitespace(c: char) -> bool {
    c == ' ' || c == '\t' || c == '\n' || c == '\r'
}

/// Line feed or carriage return.
pub open spec fn is_line_terminator(c: char) -> bool {
    c == '\n' || c == '\r'
}

/// An ASCII decimal digit.
pub open spec fn is_digit(c: char) -> bool {
    '0' <= c && c <= '9'
}

/// An ASCII hexadecimal digit.
pub open spec fn is_hex_digit(c: char) -> bool {
    is_digit(c) || ('a' <= c && c <= 'f') || ('A' <= c && c <= 'F')
}

/// A character that may start a name: an ASCII letter or an underscore.
pub open spec fn is_name_start(c: char) -> bool {
    c == '_' || ('a' <= c && c <= 'z') || ('A' <= c && c <= 'Z')
}

/// A character that may continue a name: a name start or a digit.
pub open spec fn is_name_continue(c: char) -> bool {
    is_name_start(c) || is_digit(c)
}

/// A control character: below U+0020, or U+007F.
pub open spec fn is_control(c: char) -> bool {
    c < ' ' || c == '\u{7f}'
}

pub fn check_whitespace(c: char) -> (r: bool)
    ensures
        r == is_whitespace(c),
{
    c == ' ' || c == '\t' || c == '\n' || c == '\r'
}

pub fn check_line_terminator(c: char) -> (r: bool)
    ensures
        r == is_line_terminator(c),
{
    c == '\n' || c == '\r'
}

pub fn check_digit(c: char) -> (r: bool)
    ensures
        r == is_digit(c),
{
    '0' <= c && c <= '9'
}

pub fn check_hex_digit(c: char) -> (r: bool)
    ensures
        r == is_hex_digit(c),
{
    check_digit(c) || ('a' <= c && c <= 'f') || ('A' <= c && c <= 'F')
}

pub fn check_name_start(c: char) -> (r: bool)
    ensures
        r == is_name_start(c),
{
    c == '_' || ('a' <= c && c <= 'z') || ('A' <= c && c <= 'Z')
}

pub fn check_name_continue(c: char) -> (r: bool)
    ensures
        r == is_name_continue(c),
{
    check_name_start(c) || check_digit(c)
}

pub fn check_control(c: char) -> (r: bool)
    ensures
        r == is_control(c),
{
    c < ' ' || c == '\u{7f}'
}

/// Number of bytes that the UTF-8 encoding of `c` takes.
pub open spec fn char_width(c: char) -> nat {
    encode_scalar(c as u32).len()
}

/// Number of bytes that the UTF-8 encoding of `s` takes.
pub open spec fn utf8_len(s: Seq<char>) -> nat {
    encode_utf8(s).len()
}

/// Byte offset at which the character with index `pos` starts in the UTF-8
/// encoding of `s`.
pub open spec fn byte_offset(s: Seq<char>, pos: int) -> nat {
    utf8_len(s.take(pos))
}

pub proof fn lemma_utf8_len_concat(a: Seq<char>, b: Seq<char>)
    ensures
        utf8_len(a + b) == utf8_len(a) + utf8_len(b),
    decreases a.len(),
{
    if a.len() == 0 {
        assert(a + b =~= b);
    } else {
        assert((a + b).drop_first() =~= a.drop_first() + b);
        lemma_utf8_len_concat(a.drop_first(), b);
    }
}

pub proof fn lemma_utf8_len_push(s: Seq<char>, c: char)
    ensures
        utf8_len(s.push(c)) == utf8_len(s) + char_width(c),
{
    let one = seq![c];
    assert(s.push(c) =~= s + one);
    lemma_utf8_len_concat(s, one);
    assert(one.drop_first() =~= Seq::<char>::empty());
    assert(encode_utf8(one) =~= encode_scalar(c as u32)) by {
        reveal_with_fuel(encode_utf8, 2);
    }
}

/// Offsets grow with the position, by the width of each character passed.
pub proof fn lemma_byte_offset_step(s: Seq<char>, pos: int)
    requires
        0 <= pos < s.len(),
    ensures
        byte_offset(s, pos + 1) == byte_offset(s, pos) + char_width(s[pos]),
{
    assert(s.take(pos + 1) =~= s.take(pos).push(s[pos]));
    lemma_utf8_len_push(s.take(pos), s[pos]);
}

/// No offset lies beyond the end of the text.
pub proof fn lemma_byte_offset_bound(s: Seq<char>, pos: int)
    requires
        0 <= pos <= s.len(),
    ensures
        byte_offset(s, pos) <= utf8_len(s),
{
    assert(s =~= s.take(pos) + s.skip(pos));
    lemma_utf8_len_concat(s.take(pos), s.skip(pos));
}

/// Offsets never decrease along the text.
pub proof fn lemma_byte_offset_monotone(s: Seq<char>, i: int, j: int)
    requires
        0 <= i <= j <= s.len(),
    ensures
        byte_offset(s, i) <= byte_offset(s, j),
{
    assert(s.take(j).take(i) =~= s.take(i));
    lemma_byte_offset_bound(s.take(j), i);
}

/// The number of characters of `s` that end at or before the byte offset
/// `index`, counted from the character with index `from`.
pub open spec fn chars_within(s: Seq<char>, from: int, index: nat) -> int
    decreases s.len() - from,
{
    if 0 <= from < s.len() && byte_offset(s, from + 1) <= index {
        chars_within(s, from + 1, index)
    } else {
        from
    }
}

/// The number of line feeds in `text`: the number, counted from zero, of the
/// line that a character behind `text` stands in.
pub open spec fn line_of(text: Seq<char>) -> nat
    decreases text.len(),
{
    if text.len() == 0 {
        0
    } else if text.last() == '\n' {
        line_of(text.drop_last()) + 1
    } else {
        line_of(text.drop_last())
    }
}

/// The number of characters behind the last line feed of `text`: the
/// column, counted from zero, of a character behind `text`.
pub open spec fn column_of(text: Seq<char>) -> nat
    decreases text.len(),
{
    if text.len() == 0 || text.last() == '\n' {
        0
    } else {
        column_of(text.drop_last()) + 1
    }
}

/// The line and the column, both counted from zero, of the byte offset
/// `index` in `input`. An offset inside a character counts as the offset at
/// which that character starts, an offset behind the input as its end.
pub fn line_column(input: &str, index: usize) -> (r: (usize, usize))
    ensures
        r.0 == line_of(input@.take(chars_within(input@, 0, index as nat))),
        r.1 == column_of(input@.take(chars_within(input@, 0, index as nat))),
{
    let total = input.as_bytes().len();
    let chars = chars_of(input);
    let mut line: usize = 0;
    let mut column: usize = 0;
    let mut offset: usize = 0;
    let mut i: usize = 0;
    proof {
        assert(chars@.take(0) =~= Seq::<char>::empty());
        reveal_with_fuel(encode_utf8, 1);
    }
    while i < chars.len()
        invariant
            i <= chars@.len(),
            chars@ == input@,
            total == utf8_len(chars@),
            offset == byte_offset(chars@, i as int),
            chars_within(chars@, 0, index as nat) == chars_within(chars@, i as int, index as nat),
            line == line_of(chars@.take(i as int)),
            column == column_of(chars@.take(i as int)),
            line <= i,
            column <= i,
        decreases chars@.len() - i,
    {
        proof {
            lemma_byte_offset_step(chars@, i as int);
            lemma_byte_offset_bound(chars@, i + 1);
            assert(chars@.take(i + 1).drop_last() =~= chars@.take(i as int));
        }
        let width = width_of(chars[i]);
        if offset + width > index {
            return (line, column);
        }
        offset = offset + width;
        if chars[i] == '\n' {
            line = line + 1;
            column = 0;
        } else {
            column = column + 1;
        }
        i = i + 1;
    }
    (line, column)
}

/// Number of bytes that the UTF-8 encoding of `c` takes.
pub fn width_of(c: char) -> (w: usize)
    ensures
        w == char_width(c),
{
    let v: u32 = c as u32;
    if v <= 0x7F {
        1
    } else if v <= 0x7FF {
        2
    } else if v <= 0xFFFF {
        3
    } else {
        4
    }
}

/// Whether two texts are the same.
pub fn same_text(a: &str, b: &str) -> (r: bool)
    ensures
        r == (a@ == b@),
{
    let x = a.as_bytes();
    let y = b.as_bytes();
    proof {
        vstd::utf8::encode_utf8_decode_utf8(a@);
        vstd::utf8::encode_utf8_decode_utf8(b@);
    }
    if x.len() != y.len() {
        return false;
    }
    let mut i: usize = 0;
    while i < x.len()
        invariant
            i <= x@.len(),
            x@.len() == y@.len(),
            x@ == encode_utf8(a@),
            y@ == encode_utf8(b@),
            forall|j: int| 0 <= j < i ==> x@[j] == y@[j],
        decreases x@.len() - i,
    {
        if x[i] != y[i] {
            return false;
        }
        i = i + 1;
    }
    proof {
        assert(x@ =~= y@);
    }
    true
}

/// The characters of `s`, in order.
pub fn chars_of(s: &str) -> (v: Vec<char>)
    ensures
        v@ == s@,
{
    let mut v: Vec<char> = Vec::new();
    for c in it: s.chars()
        invariant
            v@ == it.seq().take(it.index() as int),
    {
        v.push(c);
    }
    v
}

} // verus!
