//! The lexer: from text to tokens.
//!
//! The lexical grammar is stated as functions on the characters of the input:
//! [`scan`] says which lexeme starts at a position and how long it is,
//! [`lex_tokens`] and [`lex_errors`] say which tokens and which errors the
//! whole input gives. [`Lexer::new`] computes exactly those.
use vstd::prelude::*;
use crate::error::{error_texts, error_views, in_source_order, within, Error, ErrorView};
use crate::seqs::{concat, lemma_concat_append, lemma_concat_single};
use crate::text::{
    byte_offset, check_digit, check_hex_digit, check_line_terminator, check_name_continue,
    check_name_start, check_whitespace, chars_of, is_digit, is_hex_digit, is_line_terminator,
    is_name_continue, is_name_start, is_whitespace, lemma_byte_offset_bound,
    lemma_byte_offset_monotone, utf8_len, width_of,
};
use crate::token::{
    is_stream, token_text, token_texts, token_views, Token, TokenKind, TokenView,
};

verus! {

/// A set of characters of which the lexer reads maximal runs.
#[derive(Clone, Copy, PartialEq, Eq, Structural, Debug)]
pub enum CharClass {
    /// Spaces, tabs and line breaks.
    Whitespace,
    /// Letters, digits and the underscore.
    NameContinue,
    /// Decimal digits.
    Digit,
    /// Everything but a line break.
    CommentBody,
}

impl CharClass {
    pub open spec fn contains(self, c: char) -> bool {
        match self {
            CharClass::Whitespace => is_whitespace(c),
            CharClass::NameContinue => is_name_continue(c),
            CharClass::Digit => is_digit(c),
            CharClass::CommentBody => !is_line_terminator(c),
        }
    }

    pub fn holds(self, c: char) -> (r: bool)
        ensures
            r == self.contains(c),
    {
        match self {
            CharClass::Whitespace => check_whitespace(c),
            CharClass::NameContinue => check_name_continue(c),
            CharClass::Digit => check_digit(c),
            CharClass::CommentBody => !check_line_terminator(c),
        }
    }
}

/// What starts at a position of the input: a token of some kind, or one of
/// the ways in which text can fail to be a token.
#[derive(Clone, Copy, PartialEq, Eq, Structural, Debug)]
pub enum Lexeme {
    Token(TokenKind),
    /// A character with which no token starts.
    UnexpectedCharacter,
    /// One or two dots that are not followed by enough dots to make `...`.
    UnterminatedSpread,
    /// A lone `-`, a leading zero, a `.` or an exponent without digits.
    MalformedNumber,
    /// A string that is still open at the end of its line or of the input.
    UnterminatedString,
    /// A closed string with a backslash that starts no escape sequence.
    InvalidEscape,
}

impl Lexeme {
    /// The message of the error that a malformed lexeme is reported with.
    pub open spec fn message(self) -> Seq<char> {
        match self {
            Lexeme::Token(_) => ""@,
            Lexeme::UnexpectedCharacter => "unexpected character"@,
            Lexeme::UnterminatedSpread => "unterminated spread operator, expected `...`"@,
            Lexeme::MalformedNumber => "malformed number"@,
            Lexeme::UnterminatedString => "unterminated string value"@,
            Lexeme::InvalidEscape => "invalid escape sequence in string value"@,
        }
    }

    pub fn describe(self) -> (s: &'static str)
        ensures
            s@ == self.message(),
    {
        match self {
            Lexeme::Token(_) => "",
            Lexeme::UnexpectedCharacter => "unexpected character",
            Lexeme::UnterminatedSpread => "unterminated spread operator, expected `...`",
            Lexeme::MalformedNumber => "malformed number",
            Lexeme::UnterminatedString => "unterminated string value",
            Lexeme::InvalidEscape => "invalid escape sequence in string value",
        }
    }
}

/// A lexeme and the number of characters it spans.
pub struct Lexed {
    pub class: Lexeme,
    pub len: int,
}

/// Whether the character at `i` is `c`.
pub open spec fn at(s: Seq<char>, i: int, c: char) -> bool {
    0 <= i < s.len() && s[i] == c
}

/// Length of the longest run of characters of `class` that starts at `pos`.
pub open spec fn run_len(s: Seq<char>, pos: int, class: CharClass) -> nat
    decreases s.len() - pos,
{
    if 0 <= pos < s.len() && class.contains(s[pos]) {
        1 + run_len(s, pos + 1, class)
    } else {
        0
    }
}

/// The token kind of a punctuator that is one character long.
pub open spec fn punctuator(c: char) -> Option<TokenKind> {
    if c == '!' {
        Some(TokenKind::Bang)
    } else if c == '$' {
        Some(TokenKind::Dollar)
    } else if c == '(' {
        Some(TokenKind::LParen)
    } else if c == ')' {
        Some(TokenKind::RParen)
    } else if c == ':' {
        Some(TokenKind::Colon)
    } else if c == '=' {
        Some(TokenKind::Equal)
    } else if c == '@' {
        Some(TokenKind::At)
    } else if c == '[' {
        Some(TokenKind::LBracket)
    } else if c == ']' {
        Some(TokenKind::RBracket)
    } else if c == '{' {
        Some(TokenKind::LBrace)
    } else if c == '}' {
        Some(TokenKind::RBrace)
    } else if c == '|' {
        Some(TokenKind::Pipe)
    } else if c == ',' {
        Some(TokenKind::Comma)
    } else {
        None
    }
}

/// The exponent of a number, if one starts at `c`, and with it the verdict on
/// the whole number that starts at `pos`: a leading zero spoils a number that
/// is well formed otherwise.
pub open spec fn scan_exponent(
    s: Seq<char>,
    pos: int,
    c: int,
    leading_zero: bool,
    fraction: bool,
) -> Lexed {
    if at(s, c, 'e') || at(s, c, 'E') {
        let digits = if at(s, c + 1, '+') || at(s, c + 1, '-') {
            c + 2
        } else {
            c + 1
        };
        let x = run_len(s, digits, CharClass::Digit);
        if x == 0 {
            Lexed { class: Lexeme::MalformedNumber, len: digits - pos }
        } else if leading_zero {
            Lexed { class: Lexeme::MalformedNumber, len: digits + x - pos }
        } else {
            Lexed { class: Lexeme::Token(TokenKind::Float), len: digits + x - pos }
        }
    } else if leading_zero {
        Lexed { class: Lexeme::MalformedNumber, len: c - pos }
    } else if fraction {
        Lexed { class: Lexeme::Token(TokenKind::Float), len: c - pos }
    } else {
        Lexed { class: Lexeme::Token(TokenKind::Int), len: c - pos }
    }
}

/// The number that starts at `pos`: an optional `-`, an integer part without
/// a leading zero, then an optional fraction and an optional exponent, each
/// with at least one digit. A malformed number ends where it went wrong.
pub open spec fn scan_number(s: Seq<char>, pos: int) -> Lexed {
    let a = if at(s, pos, '-') {
        pos + 1
    } else {
        pos
    };
    let d = run_len(s, a, CharClass::Digit);
    if d == 0 {
        Lexed { class: Lexeme::MalformedNumber, len: a - pos }
    } else {
        let b = a + d;
        let leading_zero = s[a] == '0' && d > 1;
        if at(s, b, '.') {
            let f = run_len(s, b + 1, CharClass::Digit);
            if f == 0 {
                Lexed { class: Lexeme::MalformedNumber, len: b + 1 - pos }
            } else {
                scan_exponent(s, pos, b + 1 + f, leading_zero, true)
            }
        } else {
            scan_exponent(s, pos, b, leading_zero, false)
        }
    }
}

/// Whether three double quotes start at `i`.
pub open spec fn quotes_at(s: Seq<char>, i: int) -> bool {
    at(s, i, '"') && at(s, i + 1, '"') && at(s, i + 2, '"')
}

/// Where the block string whose body starts at `i` ends: just behind the
/// first `"""` that no backslash stands before.
pub open spec fn block_string_end(s: Seq<char>, i: int) -> Option<int>
    decreases s.len() - i,
{
    if i < 0 || i >= s.len() {
        None
    } else if s[i] == '\\' && quotes_at(s, i + 1) {
        block_string_end(s, i + 4)
    } else if quotes_at(s, i) {
        Some(i + 3)
    } else {
        block_string_end(s, i + 1)
    }
}

/// The characters that may follow a backslash in a string, `u` aside.
pub open spec fn is_simple_escape(c: char) -> bool {
    c == '"' || c == '\\' || c == '/' || c == 'b' || c == 'f' || c == 'n' || c == 'r' || c == 't'
}

/// Whether a hexadecimal digit stands at `i`.
pub open spec fn hex_at(s: Seq<char>, i: int) -> bool {
    0 <= i < s.len() && is_hex_digit(s[i])
}

/// Whether `u` and four hexadecimal digits start at `i`.
pub open spec fn unicode_escape_at(s: Seq<char>, i: int) -> bool {
    at(s, i, 'u') && hex_at(s, i + 1) && hex_at(s, i + 2) && hex_at(s, i + 3) && hex_at(s, i + 4)
}

/// How the rest of a one-line string reads.
pub struct LineScan {
    /// Where the string ends: behind its closing quote, or where it broke off.
    pub end: int,
    /// Whether a closing quote was found.
    pub closed: bool,
    /// Whether every backslash started an escape sequence.
    pub clean: bool,
}

/// Reads a one-line string from `i`, a position inside it. The string ends
/// with the next quote that is not escaped; it breaks off at a line break or
/// at the end of the input.
pub open spec fn line_string_scan(s: Seq<char>, i: int) -> LineScan
    decreases s.len() - i,
{
    if i < 0 || i >= s.len() {
        LineScan { end: s.len() as int, closed: false, clean: true }
    } else if is_line_terminator(s[i]) {
        LineScan { end: i, closed: false, clean: true }
    } else if s[i] == '"' {
        LineScan { end: i + 1, closed: true, clean: true }
    } else if s[i] == '\\' {
        if unicode_escape_at(s, i + 1) {
            line_string_scan(s, i + 6)
        } else if i + 1 < s.len() && is_simple_escape(s[i + 1]) {
            line_string_scan(s, i + 2)
        } else if i + 1 < s.len() && !is_line_terminator(s[i + 1]) {
            let r = line_string_scan(s, i + 2);
            LineScan { end: r.end, closed: r.closed, clean: false }
        } else {
            let r = line_string_scan(s, i + 1);
            LineScan { end: r.end, closed: r.closed, clean: false }
        }
    } else {
        line_string_scan(s, i + 1)
    }
}

/// The string that starts with the quote at `pos`.
pub open spec fn scan_string(s: Seq<char>, pos: int) -> Lexed {
    if quotes_at(s, pos) {
        match block_string_end(s, pos + 3) {
            Some(end) => Lexed { class: Lexeme::Token(TokenKind::StringValue), len: end - pos },
            None => Lexed { class: Lexeme::UnterminatedString, len: s.len() - pos },
        }
    } else {
        let r = line_string_scan(s, pos + 1);
        if !r.closed {
            Lexed { class: Lexeme::UnterminatedString, len: r.end - pos }
        } else if !r.clean {
            Lexed { class: Lexeme::InvalidEscape, len: r.end - pos }
        } else {
            Lexed { class: Lexeme::Token(TokenKind::StringValue), len: r.end - pos }
        }
    }
}

/// The lexeme that starts at `pos`. Where several tokens could start there,
/// the longest wins.
#[verifier::opaque]
pub open spec fn scan(s: Seq<char>, pos: int) -> Lexed
    recommends
        0 <= pos < s.len(),
{
    let c = s[pos];
    if is_whitespace(c) {
        Lexed {
            class: Lexeme::Token(TokenKind::Whitespace),
            len: run_len(s, pos, CharClass::Whitespace) as int,
        }
    } else if is_name_start(c) {
        Lexed {
            class: Lexeme::Token(TokenKind::Name),
            len: run_len(s, pos, CharClass::NameContinue) as int,
        }
    } else if c == '-' || is_digit(c) {
        scan_number(s, pos)
    } else if c == '"' {
        scan_string(s, pos)
    } else if c == '#' {
        Lexed {
            class: Lexeme::Token(TokenKind::Comment),
            len: 1 + run_len(s, pos + 1, CharClass::CommentBody) as int,
        }
    } else if c == '.' {
        if at(s, pos + 1, '.') && at(s, pos + 2, '.') {
            Lexed { class: Lexeme::Token(TokenKind::Spread), len: 3 }
        } else if at(s, pos + 1, '.') {
            Lexed { class: Lexeme::UnterminatedSpread, len: 2 }
        } else {
            Lexed { class: Lexeme::UnterminatedSpread, len: 1 }
        }
    } else {
        match punctuator(c) {
            Some(kind) => Lexed { class: Lexeme::Token(kind), len: 1 },
            None => Lexed { class: Lexeme::UnexpectedCharacter, len: 1 },
        }
    }
}

/// The token at the end of every token sequence.
pub open spec fn eof_token(s: Seq<char>) -> TokenView {
    TokenView { kind: TokenKind::Eof, data: Seq::empty(), index: utf8_len(s) }
}

/// The tokens of `s` from `pos` on, in source order, with the end-of-input
/// token last. Malformed lexemes give no token.
pub open spec fn lex_tokens(s: Seq<char>, pos: int) -> Seq<TokenView>
    decreases s.len() - pos,
    via lex_tokens_terminates
{
    if pos < 0 || pos >= s.len() {
        seq![eof_token(s)]
    } else {
        let l = scan(s, pos);
        match l.class {
            Lexeme::Token(kind) => seq![
                TokenView { kind, data: s.subrange(pos, pos + l.len), index: byte_offset(s, pos) },
            ] + lex_tokens(s, pos + l.len),
            _ => lex_tokens(s, pos + l.len),
        }
    }
}

#[via_fn]
proof fn lex_tokens_terminates(s: Seq<char>, pos: int) {
    if 0 <= pos < s.len() {
        lemma_scan_bounds(s, pos);
    }
}

/// The errors of `s` from `pos` on, in source order: one for each malformed
/// lexeme, with its text and the byte offset at which it starts.
pub open spec fn lex_errors(s: Seq<char>, pos: int) -> Seq<ErrorView>
    decreases s.len() - pos,
    via lex_errors_terminates
{
    if pos < 0 || pos >= s.len() {
        Seq::empty()
    } else {
        let l = scan(s, pos);
        match l.class {
            Lexeme::Token(_) => lex_errors(s, pos + l.len),
            _ => seq![
                ErrorView {
                    message: l.class.message(),
                    data: s.subrange(pos, pos + l.len),
                    index: byte_offset(s, pos),
                },
            ] + lex_errors(s, pos + l.len),
        }
    }
}

#[via_fn]
proof fn lex_errors_terminates(s: Seq<char>, pos: int) {
    if 0 <= pos < s.len() {
        lemma_scan_bounds(s, pos);
    }
}

/// A run ends inside the text.
pub proof fn lemma_run_len_bound(s: Seq<char>, pos: int, class: CharClass)
    requires
        0 <= pos <= s.len(),
    ensures
        pos + run_len(s, pos, class) <= s.len(),
    decreases s.len() - pos,
{
    if pos < s.len() && class.contains(s[pos]) {
        lemma_run_len_bound(s, pos + 1, class);
    }
}

/// A block string that ends, ends inside the text and behind its body.
pub proof fn lemma_block_string_end_bound(s: Seq<char>, i: int)
    requires
        0 <= i,
    ensures
        block_string_end(s, i) matches Some(end) ==> i + 3 <= end <= s.len(),
    decreases s.len() - i,
{
    if i < s.len() {
        if s[i] == '\\' && quotes_at(s, i + 1) {
            lemma_block_string_end_bound(s, i + 4);
        } else if quotes_at(s, i) {
        } else {
            lemma_block_string_end_bound(s, i + 1);
        }
    }
}

/// A one-line string ends inside the text and not before the position it is
/// read from.
pub proof fn lemma_line_string_scan_bound(s: Seq<char>, i: int)
    requires
        0 <= i <= s.len(),
    ensures
        i <= line_string_scan(s, i).end <= s.len(),
    decreases s.len() - i,
{
    if i < s.len() && !is_line_terminator(s[i]) && s[i] != '"' {
        if s[i] == '\\' {
            if unicode_escape_at(s, i + 1) {
                lemma_line_string_scan_bound(s, i + 6);
            } else if i + 1 < s.len() && is_simple_escape(s[i + 1]) {
                lemma_line_string_scan_bound(s, i + 2);
            } else if i + 1 < s.len() && !is_line_terminator(s[i + 1]) {
                lemma_line_string_scan_bound(s, i + 2);
            } else {
                lemma_line_string_scan_bound(s, i + 1);
            }
        } else {
            lemma_line_string_scan_bound(s, i + 1);
        }
    }
}

/// A number is at least one character long and ends inside the text.
pub proof fn lemma_scan_number_bounds(s: Seq<char>, pos: int)
    requires
        0 <= pos < s.len(),
        s[pos] == '-' || is_digit(s[pos]),
    ensures
        1 <= scan_number(s, pos).len <= s.len() - pos,
{
    let a = if at(s, pos, '-') {
        pos + 1
    } else {
        pos
    };
    lemma_run_len_bound(s, a, CharClass::Digit);
    let d = run_len(s, a, CharClass::Digit);
    if d > 0 {
        let b = a + d;
        if at(s, b, '.') {
            lemma_run_len_bound(s, b + 1, CharClass::Digit);
            let f = run_len(s, b + 1, CharClass::Digit);
            if f > 0 {
                lemma_scan_exponent_bounds(s, pos, b + 1 + f, s[a] == '0' && d > 1, true);
            }
        } else {
            lemma_scan_exponent_bounds(s, pos, b, s[a] == '0' && d > 1, false);
        }
    }
}

proof fn lemma_scan_exponent_bounds(
    s: Seq<char>,
    pos: int,
    c: int,
    leading_zero: bool,
    fraction: bool,
)
    requires
        0 <= pos < c <= s.len(),
    ensures
        1 <= scan_exponent(s, pos, c, leading_zero, fraction).len <= s.len() - pos,
{
    if at(s, c, 'e') || at(s, c, 'E') {
        let digits = if at(s, c + 1, '+') || at(s, c + 1, '-') {
            c + 2
        } else {
            c + 1
        };
        lemma_run_len_bound(s, digits, CharClass::Digit);
    }
}

/// Every lexeme is at least one character long and ends inside the text.
pub proof fn lemma_scan_bounds(s: Seq<char>, pos: int)
    requires
        0 <= pos < s.len(),
    ensures
        1 <= scan(s, pos).len <= s.len() - pos,
{
    reveal(scan);
    let c = s[pos];
    if is_whitespace(c) {
        lemma_run_len_bound(s, pos, CharClass::Whitespace);
    } else if is_name_start(c) {
        lemma_run_len_bound(s, pos, CharClass::NameContinue);
    } else if c == '-' || is_digit(c) {
        lemma_scan_number_bounds(s, pos);
    } else if c == '"' {
        if quotes_at(s, pos) {
            lemma_block_string_end_bound(s, pos + 3);
        } else {
            lemma_line_string_scan_bound(s, pos + 1);
        }
    } else if c == '#' {
        lemma_run_len_bound(s, pos + 1, CharClass::CommentBody);
    }
}

/// No lexeme is the end of the input.
pub proof fn lemma_scan_never_eof(s: Seq<char>, pos: int)
    ensures
        scan(s, pos).class != Lexeme::Token(TokenKind::Eof),
{
    reveal(scan);
}

/// The text between two positions takes as many bytes as their offsets are
/// apart.
pub proof fn lemma_subrange_bytes(s: Seq<char>, from: int, to: int)
    requires
        0 <= from <= to <= s.len(),
    ensures
        byte_offset(s, to) == byte_offset(s, from) + utf8_len(s.subrange(from, to)),
{
    assert(s.take(to) =~= s.take(from) + s.subrange(from, to));
    crate::text::lemma_utf8_len_concat(s.take(from), s.subrange(from, to));
}

/// The tokens of an input form a stream that starts at or behind the
/// position they are read from and ends at the end of the input.
pub proof fn lemma_lex_tokens_stream(s: Seq<char>, pos: int)
    requires
        0 <= pos <= s.len(),
    ensures
        is_stream(lex_tokens(s, pos)),
        lex_tokens(s, pos).last() == eof_token(s),
        forall|i: int|
            0 <= i < lex_tokens(s, pos).len() ==> byte_offset(s, pos) <= (#[trigger] lex_tokens(
                s,
                pos,
            )[i]).index <= utf8_len(s),
    decreases s.len() - pos,
{
    let tokens = lex_tokens(s, pos);
    if pos >= s.len() {
        assert(s.take(pos) =~= s);
    } else {
        lemma_scan_bounds(s, pos);
        let l = scan(s, pos);
        let next = pos + l.len;
        let rest = lex_tokens(s, next);
        lemma_lex_tokens_stream(s, next);
        lemma_byte_offset_monotone(s, pos, next);
        lemma_subrange_bytes(s, pos, next);
        lemma_byte_offset_bound(s, pos);
        match l.class {
            Lexeme::Token(kind) => {
                let first = TokenView {
                    kind,
                    data: s.subrange(pos, next),
                    index: byte_offset(s, pos),
                };
                assert(tokens == seq![first] + rest);
                lemma_scan_never_eof(s, pos);
                assert forall|i: int| 0 <= i < tokens.len() - 1 implies (#[trigger] tokens[i]).kind
                    != TokenKind::Eof by {
                    if i > 0 {
                        assert(tokens[i] == rest[i - 1]);
                    }
                }
                assert forall|i: int, j: int| 0 <= i < j < tokens.len() implies (
                #[trigger] tokens[i]).index + utf8_len(tokens[i].data) <= (
                #[trigger] tokens[j]).index by {
                    assert(tokens[j] == rest[j - 1]);
                    if i > 0 {
                        assert(tokens[i] == rest[i - 1]);
                    }
                }
                assert forall|i: int| 0 <= i < tokens.len() implies byte_offset(s, pos) <= (
                #[trigger] tokens[i]).index <= utf8_len(s) by {
                    if i > 0 {
                        assert(tokens[i] == rest[i - 1]);
                    }
                }
            },
            _ => {
                assert(tokens == rest);
            },
        }
    }
}

/// The errors of an input stand in source order and point into the input.
pub proof fn lemma_lex_errors_ordered(s: Seq<char>, pos: int)
    requires
        0 <= pos <= s.len(),
    ensures
        in_source_order(lex_errors(s, pos)),
        forall|i: int|
            0 <= i < lex_errors(s, pos).len() ==> byte_offset(s, pos) <= (#[trigger] lex_errors(
                s,
                pos,
            )[i]).index <= utf8_len(s),
        within(lex_errors(s, pos), utf8_len(s)),
    decreases s.len() - pos,
{
    let errors = lex_errors(s, pos);
    if pos < s.len() {
        lemma_scan_bounds(s, pos);
        let l = scan(s, pos);
        let next = pos + l.len;
        let rest = lex_errors(s, next);
        lemma_lex_errors_ordered(s, next);
        lemma_byte_offset_monotone(s, pos, next);
        lemma_byte_offset_bound(s, pos);
        match l.class {
            Lexeme::Token(_) => {
                assert(errors == rest);
            },
            _ => {
                let first = ErrorView {
                    message: l.class.message(),
                    data: s.subrange(pos, next),
                    index: byte_offset(s, pos),
                };
                assert(errors == seq![first] + rest);
                assert forall|i: int| 0 <= i < errors.len() implies byte_offset(s, pos) <= (
                #[trigger] errors[i]).index <= utf8_len(s) by {
                    if i > 0 {
                        assert(errors[i] == rest[i - 1]);
                    }
                }
                assert forall|i: int, j: int| 0 <= i <= j < errors.len() implies errors[i].index
                    <= errors[j].index by {
                    if i > 0 {
                        assert(errors[i] == rest[i - 1]);
                        assert(errors[j] == rest[j - 1]);
                    } else if j > 0 {
                        assert(errors[j] == rest[j - 1]);
                    }
                }
            },
        }
    }
}

/// Where the lexer finds no error, the texts of the tokens make up the input.
pub proof fn lemma_lex_tokens_text(s: Seq<char>, pos: int)
    requires
        0 <= pos <= s.len(),
        lex_errors(s, pos).len() == 0,
    ensures
        token_text(lex_tokens(s, pos)) == s.skip(pos),
    decreases s.len() - pos,
{
    let tokens = lex_tokens(s, pos);
    if pos >= s.len() {
        assert(token_texts(tokens) =~= seq![Seq::<char>::empty()]);
        lemma_concat_single(Seq::<char>::empty());
        assert(s.skip(pos) =~= Seq::<char>::empty());
    } else {
        lemma_scan_bounds(s, pos);
        let l = scan(s, pos);
        let next = pos + l.len;
        let rest = lex_tokens(s, next);
        match l.class {
            Lexeme::Token(kind) => {
                lemma_lex_tokens_text(s, next);
                let data = s.subrange(pos, next);
                assert(token_texts(tokens) =~= seq![data] + token_texts(rest));
                lemma_concat_append(seq![data], token_texts(rest));
                lemma_concat_single(data);
                assert(s.skip(pos) =~= data + s.skip(next));
            },
            _ => {},
        }
    }
}

/// Every character of an input is in the text of exactly one token or of
/// exactly one error: the texts are as long together as the input is; and
/// no token but the end of the input, and no error, has an empty text.
pub proof fn lemma_lex_pieces(s: Seq<char>, pos: int)
    requires
        0 <= pos <= s.len(),
    ensures
        token_text(lex_tokens(s, pos)).len() + concat(error_texts(lex_errors(s, pos))).len()
            == s.len() - pos,
        forall|i: int|
            0 <= i < lex_tokens(s, pos).len() - 1 ==> (#[trigger] lex_tokens(s, pos)[i]).data.len()
                >= 1,
        forall|i: int|
            0 <= i < lex_errors(s, pos).len() ==> (#[trigger] lex_errors(s, pos)[i]).data.len()
                >= 1,
        lex_tokens(s, pos).len() >= 1,
    decreases s.len() - pos,
{
    let tokens = lex_tokens(s, pos);
    let errors = lex_errors(s, pos);
    if pos >= s.len() {
        assert(token_texts(tokens) =~= seq![Seq::<char>::empty()]);
        lemma_concat_single(Seq::<char>::empty());
        assert(error_texts(errors) =~= Seq::<Seq<char>>::empty());
    } else {
        lemma_scan_bounds(s, pos);
        let l = scan(s, pos);
        let next = pos + l.len;
        let data = s.subrange(pos, next);
        let rest_tokens = lex_tokens(s, next);
        let rest_errors = lex_errors(s, next);
        lemma_lex_pieces(s, next);
        match l.class {
            Lexeme::Token(kind) => {
                assert(token_texts(tokens) =~= seq![data] + token_texts(rest_tokens));
                lemma_concat_append(seq![data], token_texts(rest_tokens));
                lemma_concat_single(data);
                assert forall|i: int| 0 <= i < tokens.len() - 1 implies (
                #[trigger] tokens[i]).data.len() >= 1 by {
                    if i > 0 {
                        assert(tokens[i] == rest_tokens[i - 1]);
                    }
                }
            },
            _ => {
                assert(error_texts(errors) =~= seq![data] + error_texts(rest_errors));
                lemma_concat_append(seq![data], error_texts(rest_errors));
                lemma_concat_single(data);
                assert forall|i: int| 0 <= i < errors.len() implies (
                #[trigger] errors[i]).data.len() >= 1 by {
                    if i > 0 {
                        assert(errors[i] == rest_errors[i - 1]);
                    }
                }
            },
        }
    }
}

/// Whether the character `ahead` places behind `base` is `c`.
fn char_at(chars: &Vec<char>, base: usize, ahead: usize, c: char) -> (r: bool)
    requires
        base <= chars.len(),
    ensures
        r == at(chars@, base + ahead, c),
{
    ahead < chars.len() - base && chars[base + ahead] == c
}

fn has_quotes(chars: &Vec<char>, i: usize) -> (r: bool)
    requires
        i <= chars.len(),
    ensures
        r == quotes_at(chars@, i as int),
{
    char_at(chars, i, 0, '"') && char_at(chars, i, 1, '"') && char_at(chars, i, 2, '"')
}

fn has_hex(chars: &Vec<char>, base: usize, ahead: usize) -> (r: bool)
    requires
        base <= chars.len(),
    ensures
        r == hex_at(chars@, base + ahead),
{
    ahead < chars.len() - base && check_hex_digit(chars[base + ahead])
}

fn has_unicode_escape(chars: &Vec<char>, i: usize) -> (r: bool)
    requires
        i <= chars.len(),
    ensures
        r == unicode_escape_at(chars@, i as int),
{
    char_at(chars, i, 0, 'u') && has_hex(chars, i, 1) && has_hex(chars, i, 2) && has_hex(
        chars,
        i,
        3,
    ) && has_hex(chars, i, 4)
}

fn check_simple_escape(c: char) -> (r: bool)
    ensures
        r == is_simple_escape(c),
{
    c == '"' || c == '\\' || c == '/' || c == 'b' || c == 'f' || c == 'n' || c == 'r' || c == 't'
}

fn to_punctuator(c: char) -> (r: Option<TokenKind>)
    ensures
        r == punctuator(c),
{
    if c == '!' {
        Some(TokenKind::Bang)
    } else if c == '$' {
        Some(TokenKind::Dollar)
    } else if c == '(' {
        Some(TokenKind::LParen)
    } else if c == ')' {
        Some(TokenKind::RParen)
    } else if c == ':' {
        Some(TokenKind::Colon)
    } else if c == '=' {
        Some(TokenKind::Equal)
    } else if c == '@' {
        Some(TokenKind::At)
    } else if c == '[' {
        Some(TokenKind::LBracket)
    } else if c == ']' {
        Some(TokenKind::RBracket)
    } else if c == '{' {
        Some(TokenKind::LBrace)
    } else if c == '}' {
        Some(TokenKind::RBrace)
    } else if c == '|' {
        Some(TokenKind::Pipe)
    } else if c == ',' {
        Some(TokenKind::Comma)
    } else {
        None
    }
}

/// The end of the longest run of characters of `class` that starts at `pos`.
fn scan_run(chars: &Vec<char>, pos: usize, class: CharClass) -> (end: usize)
    requires
        pos <= chars.len(),
    ensures
        end == pos + run_len(chars@, pos as int, class),
        end <= chars.len(),
{
    let mut i: usize = pos;
    while i < chars.len() && class.holds(chars[i])
        invariant
            pos <= i <= chars.len(),
            run_len(chars@, pos as int, class) == (i - pos) + run_len(chars@, i as int, class),
        decreases chars.len() - i,
    {
        i = i + 1;
    }
    i
}

fn scan_exponent_at(
    chars: &Vec<char>,
    pos: usize,
    c: usize,
    leading_zero: bool,
    fraction: bool,
) -> (r: (Lexeme, usize))
    requires
        pos < c <= chars.len(),
    ensures
        r.0 == scan_exponent(chars@, pos as int, c as int, leading_zero, fraction).class,
        r.1 == pos + scan_exponent(chars@, pos as int, c as int, leading_zero, fraction).len,
{
    if char_at(chars, c, 0, 'e') || char_at(chars, c, 0, 'E') {
        let digits: usize = if char_at(chars, c, 1, '+') || char_at(chars, c, 1, '-') {
            c + 2
        } else {
            c + 1
        };
        let end = scan_run(chars, digits, CharClass::Digit);
        if end == digits {
            (Lexeme::MalformedNumber, digits)
        } else if leading_zero {
            (Lexeme::MalformedNumber, end)
        } else {
            (Lexeme::Token(TokenKind::Float), end)
        }
    } else if leading_zero {
        (Lexeme::MalformedNumber, c)
    } else if fraction {
        (Lexeme::Token(TokenKind::Float), c)
    } else {
        (Lexeme::Token(TokenKind::Int), c)
    }
}

fn scan_number_at(chars: &Vec<char>, pos: usize) -> (r: (Lexeme, usize))
    requires
        pos < chars.len(),
    ensures
        r.0 == scan_number(chars@, pos as int).class,
        r.1 == pos + scan_number(chars@, pos as int).len,
{
    let a: usize = if chars[pos] == '-' {
        pos + 1
    } else {
        pos
    };
    let b = scan_run(chars, a, CharClass::Digit);
    if b == a {
        return (Lexeme::MalformedNumber, a);
    }
    let leading_zero = chars[a] == '0' && b - a > 1;
    if char_at(chars, b, 0, '.') {
        let c = scan_run(chars, b + 1, CharClass::Digit);
        if c == b + 1 {
            (Lexeme::MalformedNumber, b + 1)
        } else {
            scan_exponent_at(chars, pos, c, leading_zero, true)
        }
    } else {
        scan_exponent_at(chars, pos, b, leading_zero, false)
    }
}

fn scan_block_string(chars: &Vec<char>, start: usize) -> (r: Option<usize>)
    requires
        start <= chars.len(),
    ensures
        r.is_some() == block_string_end(chars@, start as int).is_some(),
        r matches Some(end) ==> block_string_end(chars@, start as int) == Some(end as int),
{
    let mut i: usize = start;
    loop
        invariant
            start <= i <= chars.len(),
            block_string_end(chars@, start as int) == block_string_end(chars@, i as int),
        decreases chars.len() - i,
    {
        if i >= chars.len() {
            return None;
        }
        proof {
            lemma_block_string_end_bound(chars@, i as int);
        }
        if chars[i] == '\\' && has_quotes(chars, i + 1) {
            i = i + 4;
        } else if has_quotes(chars, i) {
            return Some(i + 3);
        } else {
            i = i + 1;
        }
    }
}

fn scan_line_string(chars: &Vec<char>, start: usize) -> (r: (usize, bool, bool))
    requires
        start <= chars.len(),
    ensures
        r.0 == line_string_scan(chars@, start as int).end,
        r.1 == line_string_scan(chars@, start as int).closed,
        r.2 == line_string_scan(chars@, start as int).clean,
{
    let mut i: usize = start;
    let mut clean = true;
    loop
        invariant
            start <= i <= chars.len(),
            line_string_scan(chars@, start as int).end == line_string_scan(chars@, i as int).end,
            line_string_scan(chars@, start as int).closed == line_string_scan(
                chars@,
                i as int,
            ).closed,
            line_string_scan(chars@, start as int).clean == (clean && line_string_scan(
                chars@,
                i as int,
            ).clean),
        decreases chars.len() - i,
    {
        if i >= chars.len() {
            return (i, false, clean);
        }
        let c = chars[i];
        if check_line_terminator(c) {
            return (i, false, clean);
        }
        if c == '"' {
            return (i + 1, true, clean);
        }
        if c == '\\' {
            if has_unicode_escape(chars, i + 1) {
                i = i + 6;
            } else if i + 1 < chars.len() && check_simple_escape(chars[i + 1]) {
                i = i + 2;
            } else if i + 1 < chars.len() && !check_line_terminator(chars[i + 1]) {
                clean = false;
                i = i + 2;
            } else {
                clean = false;
                i = i + 1;
            }
        } else {
            i = i + 1;
        }
    }
}

fn scan_string_at(chars: &Vec<char>, pos: usize) -> (r: (Lexeme, usize))
    requires
        pos < chars.len(),
        chars@[pos as int] == '"',
    ensures
        r.0 == scan_string(chars@, pos as int).class,
        r.1 == pos + scan_string(chars@, pos as int).len,
{
    if has_quotes(chars, pos) {
        match scan_block_string(chars, pos + 3) {
            Some(end) => (Lexeme::Token(TokenKind::StringValue), end),
            None => (Lexeme::UnterminatedString, chars.len()),
        }
    } else {
        let (end, closed, clean) = scan_line_string(chars, pos + 1);
        if !closed {
            (Lexeme::UnterminatedString, end)
        } else if !clean {
            (Lexeme::InvalidEscape, end)
        } else {
            (Lexeme::Token(TokenKind::StringValue), end)
        }
    }
}

/// The lexeme that starts at `pos`, and the position at which it ends.
fn scan_at(chars: &Vec<char>, pos: usize) -> (r: (Lexeme, usize))
    requires
        pos < chars.len(),
    ensures
        r.0 == scan(chars@, pos as int).class,
        r.1 == pos + scan(chars@, pos as int).len,
        pos < r.1 <= chars.len(),
{
    proof {
        reveal(scan);
        lemma_scan_bounds(chars@, pos as int);
    }
    let c = chars[pos];
    if check_whitespace(c) {
        (Lexeme::Token(TokenKind::Whitespace), scan_run(chars, pos, CharClass::Whitespace))
    } else if check_name_start(c) {
        (Lexeme::Token(TokenKind::Name), scan_run(chars, pos, CharClass::NameContinue))
    } else if c == '-' || check_digit(c) {
        scan_number_at(chars, pos)
    } else if c == '"' {
        scan_string_at(chars, pos)
    } else if c == '#' {
        (Lexeme::Token(TokenKind::Comment), scan_run(chars, pos + 1, CharClass::CommentBody))
    } else if c == '.' {
        if char_at(chars, pos, 1, '.') && char_at(chars, pos, 2, '.') {
            (Lexeme::Token(TokenKind::Spread), pos + 3)
        } else if char_at(chars, pos, 1, '.') {
            (Lexeme::UnterminatedSpread, pos + 2)
        } else {
            (Lexeme::UnterminatedSpread, pos + 1)
        }
    } else {
        match to_punctuator(c) {
            Some(kind) => (Lexeme::Token(kind), pos + 1),
            None => (Lexeme::UnexpectedCharacter, pos + 1),
        }
    }
}

/// The text between two positions, and the number of bytes it takes.
fn slice_text(chars: &Vec<char>, from: usize, to: usize) -> (r: (String, usize))
    requires
        from <= to <= chars.len(),
        utf8_len(chars@) <= usize::MAX,
    ensures
        r.0@ == chars@.subrange(from as int, to as int),
        r.1 == utf8_len(chars@.subrange(from as int, to as int)),
{
    let mut out = String::new();
    let mut bytes: usize = 0;
    let mut i: usize = from;
    while i < to
        invariant
            from <= i <= to <= chars.len(),
            utf8_len(chars@) <= usize::MAX,
            out@ == chars@.subrange(from as int, i as int),
            bytes == utf8_len(chars@.subrange(from as int, i as int)),
        decreases to - i,
    {
        proof {
            assert(chars@.subrange(from as int, i + 1) =~= chars@.subrange(
                from as int,
                i as int,
            ).push(chars@[i as int]));
            crate::text::lemma_utf8_len_push(
                chars@.subrange(from as int, i as int),
                chars@[i as int],
            );
            lemma_subrange_bytes(chars@, from as int, i + 1);
            lemma_byte_offset_bound(chars@, i + 1);
        }
        out.push(chars[i]);
        bytes = bytes + width_of(chars[i]);
        i = i + 1;
    }
    (out, bytes)
}

/// Reads an input lexeme by lexeme: each call of `next_lexeme` hands out
/// the next token or the next error, the end of the input last.
#[derive(Debug)]
pub struct LexerIterator {
    chars: Vec<char>,
    pos: usize,
    offset: usize,
    finished: bool,
}

impl LexerIterator {
    /// The input.
    pub closed spec fn source(&self) -> Seq<char> {
        self.chars@
    }

    /// The position of the next lexeme in the input.
    pub closed spec fn position(&self) -> int {
        self.pos as int
    }

    /// Whether the end of the input was handed out.
    pub closed spec fn finished(&self) -> bool {
        self.finished
    }

    /// The position lies in the input, and its byte offset is known.
    pub closed spec fn wf(&self) -> bool {
        &&& self.pos <= self.chars@.len()
        &&& self.offset == byte_offset(self.chars@, self.pos as int)
        &&& utf8_len(self.chars@) <= usize::MAX
    }

    /// What the next call of `next_lexeme` hands out.
    pub open spec fn upcoming(&self) -> Option<Result<TokenView, ErrorView>> {
        let s = self.source();
        let pos = self.position();
        if self.finished() {
            None
        } else if pos >= s.len() {
            Some(Ok(eof_token(s)))
        } else {
            let l = scan(s, pos);
            match l.class {
                Lexeme::Token(kind) => Some(
                    Ok(
                        TokenView {
                            kind,
                            data: s.subrange(pos, pos + l.len),
                            index: byte_offset(s, pos),
                        },
                    ),
                ),
                _ => Some(
                    Err(
                        ErrorView {
                            message: l.class.message(),
                            data: s.subrange(pos, pos + l.len),
                            index: byte_offset(s, pos),
                        },
                    ),
                ),
            }
        }
    }

    /// An iterator at the start of `input`.
    pub fn new(input: &str) -> (it: LexerIterator)
        ensures
            it.wf(),
            it.source() == input@,
            it.position() == 0,
            !it.finished(),
    {
        let total = input.as_bytes().len();
        let chars = chars_of(input);
        proof {
            assert(chars@.take(0) =~= Seq::<char>::empty());
            reveal_with_fuel(vstd::utf8::encode_utf8, 1);
        }
        LexerIterator { chars, pos: 0, offset: 0, finished: false }
    }

    /// Hands out the next token or the next error, and moves behind it.
    /// The end of the input is handed out once; nothing comes after it.
    pub fn next_lexeme(&mut self) -> (r: Option<Result<Token, Error>>)
        requires
            old(self).wf(),
        ensures
            final(self).wf(),
            final(self).source() == old(self).source(),
            match old(self).upcoming() {
                None => r.is_none(),
                Some(Ok(token)) => r matches Some(Ok(t)) && t@ == token,
                Some(Err(error)) => r matches Some(Err(e)) && e@ == error,
            },
            final(self).finished() == (old(self).finished() || old(self).position() >= old(
                self,
            ).source().len()),
            final(self).position() == (if old(self).finished() || old(self).position() >= old(
                self,
            ).source().len() {
                old(self).position()
            } else {
                old(self).position() + scan(old(self).source(), old(self).position()).len
            }),
    {
        if self.finished {
            return None;
        }
        if self.pos >= self.chars.len() {
            self.finished = true;
            proof {
                assert(self.chars@.take(self.pos as int) =~= self.chars@);
            }
            return Some(Ok(Token::new(TokenKind::Eof, String::new(), self.offset)));
        }
        let (class, end) = scan_at(&self.chars, self.pos);
        let (data, bytes) = slice_text(&self.chars, self.pos, end);
        proof {
            lemma_subrange_bytes(self.chars@, self.pos as int, end as int);
            lemma_byte_offset_bound(self.chars@, end as int);
        }
        let index = self.offset;
        self.offset = self.offset + bytes;
        self.pos = end;
        match class {
            Lexeme::Token(kind) => Some(Ok(Token::new(kind, data, index))),
            _ => Some(Err(Error::with_loc(class.describe(), data, index))),
        }
    }
}

/// The tokens and the errors of an input.
#[derive(Debug)]
pub struct Lexer {
    tokens: Vec<Token>,
    errors: Vec<Error>,
}

impl Lexer {
    /// The tokens that were read, in source order; the last one is the end of
    /// the input.
    pub closed spec fn token_seq(&self) -> Seq<TokenView> {
        token_views(self.tokens@)
    }

    /// The errors that were met, in source order.
    pub closed spec fn error_seq(&self) -> Seq<ErrorView> {
        error_views(self.errors@)
    }

    /// Reads all of `input`. Every character of it ends up in exactly one
    /// token or in the text of exactly one error.
    pub fn new(input: &str) -> (lexer: Lexer)
        ensures
            lexer.token_seq() == lex_tokens(input@, 0),
            lexer.error_seq() == lex_errors(input@, 0),
    {
        let total = input.as_bytes().len();
        let chars = chars_of(input);
        let mut tokens: Vec<Token> = Vec::new();
        let mut errors: Vec<Error> = Vec::new();
        let mut pos: usize = 0;
        let mut offset: usize = 0;
        proof {
            assert(chars@.take(0) =~= Seq::<char>::empty());
            reveal_with_fuel(vstd::utf8::encode_utf8, 1);
        }
        while pos < chars.len()
            invariant
                pos <= chars.len(),
                chars@ == input@,
                total == utf8_len(chars@),
                offset == byte_offset(chars@, pos as int),
                lex_tokens(chars@, 0) =~= token_views(tokens@) + lex_tokens(chars@, pos as int),
                lex_errors(chars@, 0) =~= error_views(errors@) + lex_errors(chars@, pos as int),
            decreases chars.len() - pos,
        {
            let (class, end) = scan_at(&chars, pos);
            let (data, bytes) = slice_text(&chars, pos, end);
            proof {
                lemma_subrange_bytes(chars@, pos as int, end as int);
                lemma_byte_offset_bound(chars@, end as int);
            }
            let ghost old_tokens = token_views(tokens@);
            let ghost old_errors = error_views(errors@);
            match class {
                Lexeme::Token(kind) => {
                    tokens.push(Token::new(kind, data, offset));
                    proof {
                        assert(token_views(tokens@) =~= old_tokens.push(tokens@.last()@));
                    }
                },
                _ => {
                    errors.push(Error::with_loc(class.describe(), data, offset));
                    proof {
                        assert(error_views(errors@) =~= old_errors.push(errors@.last()@));
                    }
                },
            }
            offset = offset + bytes;
            pos = end;
        }
        proof {
            assert(chars@.take(pos as int) =~= chars@);
        }
        let ghost old_tokens = token_views(tokens@);
        tokens.push(Token::new(TokenKind::Eof, String::new(), offset));
        proof {
            assert(token_views(tokens@) =~= old_tokens.push(tokens@.last()@));
        }
        Lexer { tokens, errors }
    }

    /// The tokens of the input, in source order.
    pub fn tokens(&self) -> (tokens: &Vec<Token>)
        ensures
            token_views(tokens@) == self.token_seq(),
    {
        &self.tokens
    }

    /// The errors of the input, in source order.
    pub fn errors(&self) -> (errors: &Vec<Error>)
        ensures
            error_views(errors@) == self.error_seq(),
    {
        &self.errors
    }

    /// Hands out the tokens and the errors.
    pub fn into_parts(self) -> (parts: (Vec<Token>, Vec<Error>))
        ensures
            token_views(parts.0@) == self.token_seq(),
            error_views(parts.1@) == self.error_seq(),
    {
        (self.tokens, self.errors)
    }
}

} // verus!
