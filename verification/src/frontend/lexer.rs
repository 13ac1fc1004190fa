//! Tokens.
//!
//! The source is read byte by byte: everything that has a meaning of its own is ASCII, and
//! positions count bytes.
use crate::error::{CompileError, Problem};
use crate::frontend::ast::Span;
use crate::text::{decimal, decimal_text, join, join3, same};
use vstd::prelude::*;
use vstd::string::*;
use vstd::utf8::{
    decode_utf8, encode_utf8, encode_utf8_decode_utf8, encode_utf8_valid_utf8, is_char_boundary,
    is_char_boundary_iff_not_is_continuation_byte, is_char_boundary_start_end_of_seq, pop_first_scalar,
    valid_utf8, valid_utf8_split,
};

verus! {

broadcast use vstd::seq_lib::group_seq_properties;

pub const SPACE: u8 = 0x20;

pub const NEWLINE: u8 = 0x0a;

pub const RETURN: u8 = 0x0d;

pub const TAB: u8 = 0x09;

pub const OPEN: u8 = 0x28;

pub const CLOSE: u8 = 0x29;

pub const SEMICOLON: u8 = 0x3b;

pub const QUOTE: u8 = 0x27;

pub const DOUBLE_QUOTE: u8 = 0x22;

pub const ZERO: u8 = 0x30;

pub const NINE: u8 = 0x39;

pub const LETTER_T: u8 = 0x74;

pub const LETTER_F: u8 = 0x66;

pub const BACKSLASH: u8 = 0x5c;

pub const LETTER_N: u8 = 0x6e;

pub const LETTER_R: u8 = 0x72;

pub const MINUS: u8 = 0x2d;

pub const DOT: u8 = 0x2e;

pub const SHARP: u8 = 0x23;

/// A token and where it stands.
#[derive(Clone, Debug, PartialEq, Eq)]
pub struct Token {
    pub kind: TokenKind,
    pub span: Span,
}

#[derive(Clone, Debug, PartialEq, Eq)]
pub enum TokenKind {
    LParen,
    RParen,
    Dot,
    Quote,
    Integer(i64),
    Boolean(bool),
    Char(char),
    String(String),
    Symbol(String),
}

/// The meaning of a `Token`.
pub struct Lexeme {
    pub kind: LexemeKind,
    pub span: Span,
}

/// The meaning of a `TokenKind`.
pub enum LexemeKind {
    LParen,
    RParen,
    Dot,
    Quote,
    Integer(i64),
    Boolean(bool),
    Char(char),
    Text(Seq<char>),
    Symbol(Seq<char>),
}

impl View for Token {
    type V = Lexeme;

    open spec fn view(&self) -> Lexeme {
        Lexeme {
            kind: match self.kind {
                TokenKind::LParen => LexemeKind::LParen,
                TokenKind::RParen => LexemeKind::RParen,
                TokenKind::Dot => LexemeKind::Dot,
                TokenKind::Quote => LexemeKind::Quote,
                TokenKind::Integer(value) => LexemeKind::Integer(value),
                TokenKind::Boolean(value) => LexemeKind::Boolean(value),
                TokenKind::Char(value) => LexemeKind::Char(value),
                TokenKind::String(value) => LexemeKind::Text(value@),
                TokenKind::Symbol(value) => LexemeKind::Symbol(value@),
            },
            span: self.span,
        }
    }
}

/// The meaning of a row of tokens.
pub open spec fn lexemes(tokens: Seq<Token>) -> Seq<Lexeme> {
    tokens.map_values(|token: Token| token@)
}

/// White space.
pub open spec fn is_space(byte: u8) -> bool {
    byte == SPACE || byte == NEWLINE || byte == RETURN || byte == TAB
}

/// A byte that ends a symbol, a number or a character: white space, a parenthesis, the start
/// of a comment, a quote or a double quote.
pub open spec fn ends_token(byte: u8) -> bool {
    is_space(byte) || byte == OPEN || byte == CLOSE || byte == SEMICOLON || byte == QUOTE || byte == DOUBLE_QUOTE
}

/// A decimal digit.
pub open spec fn is_digit(byte: u8) -> bool {
    ZERO <= byte <= NINE
}

/// Where the token that holds the byte at `index` ends.
pub open spec fn token_end(bytes: Seq<u8>, index: int) -> int
    decreases bytes.len() - index,
{
    if index >= bytes.len() || ends_token(bytes[index]) {
        index
    } else {
        token_end(bytes, index + 1)
    }
}

/// Where the line that holds the byte at `index` ends.
pub open spec fn line_end(bytes: Seq<u8>, index: int) -> int
    decreases bytes.len() - index,
{
    if index >= bytes.len() || bytes[index] == NEWLINE {
        index
    } else {
        line_end(bytes, index + 1)
    }
}

/// Where the digits from `index` on end.
pub open spec fn digits_end(bytes: Seq<u8>, index: int) -> int
    decreases bytes.len() - index,
{
    if index >= bytes.len() || !is_digit(bytes[index]) {
        index
    } else {
        digits_end(bytes, index + 1)
    }
}

/// The number that the digits from `start` up to `end` write.
pub open spec fn digits_value(bytes: Seq<u8>, start: int, end: int) -> nat
    decreases end - start,
{
    if end <= start {
        0
    } else {
        digits_value(bytes, start, end - 1) * 10 + (bytes[end - 1] - ZERO) as nat
    }
}

/// The text between two positions.
pub open spec fn text_between(bytes: Seq<u8>, start: int, end: int) -> Seq<char> {
    decode_utf8(bytes.subrange(start, end))
}

/// What comes of the byte behind a backslash in a string.
pub open spec fn unescaped(byte: u8) -> Option<char> {
    if byte == DOUBLE_QUOTE {
        Some('"')
    } else if byte == BACKSLASH {
        Some('\\')
    } else if byte == LETTER_N {
        Some('\n')
    } else if byte == LETTER_R {
        Some('\r')
    } else if byte == LETTER_T {
        Some('\t')
    } else {
        None
    }
}

/// A string from the byte at `index` on: its characters and the position behind it, or
/// nothing where the source ends first. Every byte stands for the character of its number.
pub open spec fn string_from(bytes: Seq<u8>, index: int, content: Seq<char>) -> Result<Option<(Seq<char>, int)>, Seq<char>>
    decreases bytes.len() - index,
{
    if index >= bytes.len() {
        Ok(None)
    } else if bytes[index] == DOUBLE_QUOTE {
        Ok(Some((content, index + 1)))
    } else if bytes[index] == BACKSLASH {
        if index + 1 >= bytes.len() {
            Err("unterminated string escape"@)
        } else {
            match unescaped(bytes[index + 1]) {
                Some(escaped) => string_from(bytes, index + 2, content.push(escaped)),
                None => Err(
                    "unsupported string escape '\\"@ + seq![bytes[index + 1] as char] + "' at byte "@
                        + decimal_text((index + 1) as nat),
                ),
            }
        }
    } else {
        string_from(bytes, index + 1, content.push(bytes[index] as char))
    }
}

/// A token from `start` up to `end`, and the position behind it.
pub open spec fn token_from(kind: LexemeKind, start: int, end: int) -> Result<(Option<Lexeme>, int), Seq<char>> {
    Ok((Some(Lexeme { kind, span: Span { start: start as usize, end: end as usize } }), end))
}

/// The character that a character literal names.
pub open spec fn char_literal(literal: Seq<char>, start: int) -> Result<char, Seq<char>> {
    if literal == "space"@ {
        Ok(' ')
    } else if literal == "newline"@ {
        Ok('\n')
    } else if literal.len() == 0 {
        Err("empty character literal at byte "@ + decimal_text(start as nat))
    } else if literal.len() > 1 {
        Err("unsupported character literal '#\\"@ + literal + "' at byte "@ + decimal_text(start as nat))
    } else {
        Ok(literal[0])
    }
}

/// What `#` at `index` starts.
pub open spec fn sharp_token(bytes: Seq<u8>, index: int) -> Result<(Option<Lexeme>, int), Seq<char>> {
    if index + 1 >= bytes.len() {
        Err("unterminated boolean literal"@)
    } else if bytes[index + 1] == LETTER_T {
        token_from(LexemeKind::Boolean(true), index, index + 2)
    } else if bytes[index + 1] == LETTER_F {
        token_from(LexemeKind::Boolean(false), index, index + 2)
    } else if bytes[index + 1] == BACKSLASH {
        let end = token_end(bytes, index + 2);
        match char_literal(text_between(bytes, index + 2, end), index) {
            Ok(ch) => token_from(LexemeKind::Char(ch), index, end),
            Err(message) => Err(message),
        }
    } else {
        Err(
            "unsupported reader literal '#"@ + seq![bytes[index + 1] as char] + "' at byte "@
                + decimal_text(index as nat),
        )
    }
}

/// What `"` at `index` starts. A string that the source does not end is an error, unless the
/// token before it is a string.
pub open spec fn string_token(bytes: Seq<u8>, index: int, after_string: bool) -> Result<(Option<Lexeme>, int), Seq<char>> {
    match string_from(bytes, index + 1, Seq::empty()) {
        Err(message) => Err(message),
        Ok(Some((content, end))) => token_from(LexemeKind::Text(content), index, end),
        Ok(None) => if after_string {
            Ok((None, bytes.len() as int))
        } else {
            Err("unterminated string literal starting at byte "@ + decimal_text(index as nat))
        },
    }
}

/// The symbol at `index`.
pub open spec fn symbol_token(bytes: Seq<u8>, index: int) -> Result<(Option<Lexeme>, int), Seq<char>> {
    let end = token_end(bytes, index);
    token_from(LexemeKind::Symbol(text_between(bytes, index, end)), index, end)
}

/// What a digit or a minus sign at `index` starts: a number, or a symbol where something else
/// than digits follows.
pub open spec fn number_token(bytes: Seq<u8>, index: int) -> Result<(Option<Lexeme>, int), Seq<char>> {
    let negative = bytes[index] == MINUS;
    let first = if negative { index + 1 } else { index };
    let end = digits_end(bytes, first);
    if end > first && (end == bytes.len() || ends_token(bytes[end])) {
        let magnitude = digits_value(bytes, first, end);
        let value: int = if negative { -magnitude } else { magnitude as int };
        if value > i64::MAX {
            Err(
                "invalid integer at byte "@ + decimal_text(index as nat)
                    + ": number too large to fit in target type"@,
            )
        } else if value < i64::MIN {
            Err(
                "invalid integer at byte "@ + decimal_text(index as nat)
                    + ": number too small to fit in target type"@,
            )
        } else {
            token_from(LexemeKind::Integer(value as i64), index, end)
        }
    } else {
        symbol_token(bytes, index)
    }
}

/// What the byte at `index` starts: a token or something between tokens, and the position
/// behind it.
pub open spec fn next_lexeme(bytes: Seq<u8>, index: int, after_string: bool) -> Result<(Option<Lexeme>, int), Seq<char>> {
    let byte = bytes[index];
    if is_space(byte) {
        Ok((None, index + 1))
    } else if byte == SEMICOLON {
        Ok((None, line_end(bytes, index)))
    } else if byte == OPEN {
        token_from(LexemeKind::LParen, index, index + 1)
    } else if byte == CLOSE {
        token_from(LexemeKind::RParen, index, index + 1)
    } else if byte == DOT && (index + 1 == bytes.len() || ends_token(bytes[index + 1])) {
        token_from(LexemeKind::Dot, index, index + 1)
    } else if byte == QUOTE {
        token_from(LexemeKind::Quote, index, index + 1)
    } else if byte == SHARP {
        sharp_token(bytes, index)
    } else if byte == DOUBLE_QUOTE {
        string_token(bytes, index, after_string)
    } else if byte == MINUS || is_digit(byte) {
        number_token(bytes, index)
    } else {
        symbol_token(bytes, index)
    }
}

/// The tokens from `index` on behind those before it.
pub open spec fn lexemes_from(bytes: Seq<u8>, index: int, before: Seq<Lexeme>) -> Result<Seq<Lexeme>, Seq<char>>
    decreases bytes.len() - index,
{
    if index >= bytes.len() {
        Ok(before)
    } else {
        match next_lexeme(bytes, index, before.len() > 0 && before.last().kind is Text) {
            Err(message) => Err(message),
            Ok((lexeme, next)) => if next <= index || next > bytes.len() {
                Ok(before)
            } else {
                lexemes_from(
                    bytes,
                    next,
                    match lexeme {
                        Some(lexeme) => before.push(lexeme),
                        None => before,
                    },
                )
            },
        }
    }
}

/// The tokens of a source.
pub open spec fn lexed(source: Seq<char>) -> Result<Seq<Lexeme>, Problem> {
    match lexemes_from(encode_utf8(source), 0, Seq::empty()) {
        Ok(lexemes) => Ok(lexemes),
        Err(message) => Err(Problem::Lex(message)),
    }
}

pub(crate) proof fn lemma_ascii_boundary(bytes: Seq<u8>, index: int)
    requires
        valid_utf8(bytes),
        0 <= index < bytes.len(),
        bytes[index] < 0x80,
    ensures
        is_char_boundary(bytes, index),
{
    is_char_boundary_iff_not_is_continuation_byte(bytes, index);
}

pub(crate) proof fn lemma_end_boundary(bytes: Seq<u8>)
    requires
        valid_utf8(bytes),
    ensures
        is_char_boundary(bytes, bytes.len() as int),
        is_char_boundary(bytes, 0),
{
    is_char_boundary_start_end_of_seq(bytes);
}

/// Behind an ASCII character another character starts, or the text ends.
pub(crate) proof fn lemma_after_ascii(bytes: Seq<u8>, index: int)
    requires
        valid_utf8(bytes),
        0 <= index < bytes.len(),
        bytes[index] < 0x80,
    ensures
        is_char_boundary(bytes, index + 1),
{
    lemma_ascii_boundary(bytes, index);
    if index + 1 == bytes.len() {
        lemma_end_boundary(bytes);
    } else {
        valid_utf8_split(bytes, index);
        let rest = bytes.subrange(index, bytes.len() as int);
        assert(valid_utf8(rest));
        assert(rest[0] == bytes[index]);
        let more = pop_first_scalar(rest);
        assert(more =~= rest.subrange(1, rest.len() as int));
        assert(valid_utf8(more));
        assert(more[0] == bytes[index + 1]);
        is_char_boundary_iff_not_is_continuation_byte(bytes, index + 1);
    }
}

pub(crate) proof fn lemma_token_end(bytes: Seq<u8>, index: int)
    requires
        valid_utf8(bytes),
        0 <= index <= bytes.len(),
    ensures
        index <= token_end(bytes, index) <= bytes.len(),
        is_char_boundary(bytes, token_end(bytes, index)),
    decreases bytes.len() - index,
{
    if index >= bytes.len() {
        lemma_end_boundary(bytes);
    } else if ends_token(bytes[index]) {
        lemma_ascii_boundary(bytes, index);
    } else {
        lemma_token_end(bytes, index + 1);
    }
}

/// The text between two positions at which characters start.
fn slice(source: &str, start: usize, end: usize) -> (text: &str)
    requires
        start <= end <= encode_utf8(source@).len(),
        is_char_boundary(encode_utf8(source@), start as int),
        is_char_boundary(encode_utf8(source@), end as int),
    ensures
        text@ == text_between(encode_utf8(source@), start as int, end as int),
{
    let ghost bytes = encode_utf8(source@);
    proof {
        encode_utf8_valid_utf8(source@);
        valid_utf8_split(bytes, start as int);
    }
    let (_, rest) = source.split_at(start);
    let ghost rest_bytes = bytes.subrange(start as int, bytes.len() as int);
    let length: usize = end - start;
    proof {
        assert(rest.spec_bytes() =~= rest_bytes);
        assert(valid_utf8(rest_bytes));
        if end == bytes.len() {
            lemma_end_boundary(rest_bytes);
        } else {
            is_char_boundary_iff_not_is_continuation_byte(bytes, end as int);
            assert(rest_bytes[end - start] == bytes[end as int]);
            is_char_boundary_iff_not_is_continuation_byte(rest_bytes, end - start);
        }
    }
    let (text, _) = rest.split_at(length);
    proof {
        assert(rest_bytes.subrange(0, end - start) =~= bytes.subrange(start as int, end as int));
        encode_utf8_decode_utf8(text@);
    }
    text
}

/// Whether a byte ends a symbol, a number or a character.
fn is_delimiter(byte: u8) -> (ends: bool)
    ensures
        ends == ends_token(byte),
{
    byte == SPACE || byte == NEWLINE || byte == RETURN || byte == TAB || byte == OPEN || byte == CLOSE || byte
        == SEMICOLON || byte == QUOTE || byte == DOUBLE_QUOTE
}

fn find_token_end(bytes: &[u8], index: usize) -> (end: usize)
    requires
        index <= bytes@.len(),
    ensures
        end == token_end(bytes@, index as int),
        index <= end <= bytes@.len(),
{
    let mut end: usize = index;
    while end < bytes.len() && !is_delimiter(bytes[end])
        invariant
            index <= end <= bytes@.len(),
            token_end(bytes@, index as int) == token_end(bytes@, end as int),
        decreases bytes@.len() - end,
    {
        end = end + 1;
    }
    end
}

fn find_line_end(bytes: &[u8], index: usize) -> (end: usize)
    requires
        index <= bytes@.len(),
    ensures
        end == line_end(bytes@, index as int),
        index <= end <= bytes@.len(),
        end < bytes@.len() ==> bytes@[end as int] == NEWLINE,
{
    let mut end: usize = index;
    while end < bytes.len() && bytes[end] != NEWLINE
        invariant
            index <= end <= bytes@.len(),
            line_end(bytes@, index as int) == line_end(bytes@, end as int),
        decreases bytes@.len() - end,
    {
        end = end + 1;
    }
    end
}

fn find_digits_end(bytes: &[u8], index: usize) -> (end: usize)
    requires
        index <= bytes@.len(),
    ensures
        end == digits_end(bytes@, index as int),
        index <= end <= bytes@.len(),
        forall|i: int| index <= i < end ==> is_digit(#[trigger] bytes@[i]),
{
    let mut end: usize = index;
    while end < bytes.len() && ZERO <= bytes[end] && bytes[end] <= NINE
        invariant
            index <= end <= bytes@.len(),
            digits_end(bytes@, index as int) == digits_end(bytes@, end as int),
            forall|i: int| index <= i < end ==> is_digit(#[trigger] bytes@[i]),
        decreases bytes@.len() - end,
    {
        end = end + 1;
    }
    end
}

proof fn lemma_digits_grow(bytes: Seq<u8>, start: int, middle: int, end: int)
    requires
        start <= middle <= end,
        forall|i: int| start <= i < end ==> is_digit(#[trigger] bytes[i]),
    ensures
        digits_value(bytes, start, middle) <= digits_value(bytes, start, end),
    decreases end - middle,
{
    if middle < end {
        lemma_digits_grow(bytes, start, middle, end - 1);
        assert(is_digit(bytes[end - 1]));
    }
}

/// The integer that digits write, or nothing where it does not fit.
fn parse_digits(bytes: &[u8], start: usize, end: usize, negative: bool) -> (value: Option<i64>)
    requires
        start <= end <= bytes@.len(),
        forall|i: int| start <= i < end ==> is_digit(#[trigger] bytes@[i]),
    ensures
        ({
            let magnitude = digits_value(bytes@, start as int, end as int);
            let expected: int = if negative { -magnitude } else { magnitude as int };
            match value {
                Some(value) => value == expected,
                None => !(i64::MIN <= expected <= i64::MAX),
            }
        }),
{
    let mut value: i128 = 0;
    let mut index: usize = start;
    while index < end
        invariant
            start <= index <= end <= bytes@.len(),
            forall|i: int| start <= i < end ==> is_digit(#[trigger] bytes@[i]),
            value == digits_value(bytes@, start as int, index as int),
            value <= 0x8000_0000_0000_0000,
        decreases end - index,
    {
        assert(is_digit(bytes@[index as int]));
        let next: i128 = value * 10 + (bytes[index] - ZERO) as i128;
        if next > 0x8000_0000_0000_0000 {
            proof {
                assert(next == digits_value(bytes@, start as int, index + 1));
                lemma_digits_grow(bytes@, start as int, index + 1, end as int);
            }
            return None;
        }
        value = next;
        index = index + 1;
    }
    if negative {
        Some((0 - value) as i64)
    } else if value <= 0x7fff_ffff_ffff_ffff {
        Some(value as i64)
    } else {
        None
    }
}

/// What a step of the lexer came to, as contracts speak of it.
spec fn step_agrees(
    result: Result<(Option<Token>, usize), CompileError>,
    bytes: Seq<u8>,
    index: int,
    expected: Result<(Option<Lexeme>, int), Seq<char>>,
) -> bool {
    match result {
        Ok((token, next)) => {
            &&& expected == Ok::<(Option<Lexeme>, int), Seq<char>>(
                (
                    match token {
                        Some(token) => Some(token@),
                        None => None,
                    },
                    next as int,
                ),
            )
            &&& index < next <= bytes.len()
            &&& is_char_boundary(bytes, next as int)
        },
        Err(CompileError::Lex(message)) => expected == Err::<(Option<Lexeme>, int), Seq<char>>(message@),
        Err(_) => false,
    }
}

fn make_token(kind: TokenKind, start: usize, end: usize) -> (token: Token)
    ensures
        token.kind == kind,
        token.span == (Span { start, end }),
{
    Token { kind, span: Span { start, end } }
}

/// A text of one character.
fn one_char(ch: char) -> (text: String)
    ensures
        text@ == seq![ch],
{
    let mut text = String::new();
    text.push(ch);
    assert(text@ =~= seq![ch]);
    text
}

fn lex_sharp(source: &str, bytes: &[u8], index: usize) -> (result: Result<(Option<Token>, usize), CompileError>)
    requires
        bytes@ == encode_utf8(source@),
        index < bytes@.len(),
        bytes@[index as int] == SHARP,
    ensures
        step_agrees(result, bytes@, index as int, sharp_token(bytes@, index as int)),
{
    proof {
        encode_utf8_valid_utf8(source@);
    }
    let length: usize = bytes.len();
    if index + 1 >= length {
        return Err(CompileError::Lex("unterminated boolean literal".to_owned()));
    }
    let byte: u8 = bytes[index + 1];
    if byte == LETTER_T || byte == LETTER_F {
        proof {
            lemma_after_ascii(bytes@, index + 1);
        }
        return Ok((Some(make_token(TokenKind::Boolean(byte == LETTER_T), index, index + 2)), index + 2));
    }
    if byte == BACKSLASH {
        let end: usize = find_token_end(bytes, index + 2);
        proof {
            lemma_after_ascii(bytes@, index + 1);
            lemma_token_end(bytes@, index + 2);
        }
        let literal = slice(source, index + 2, end);
        let ch: char = if same(literal, "space") {
            ' '
        } else if same(literal, "newline") {
            '\n'
        } else {
            let count: usize = literal.unicode_len();
            if count == 0 {
                return Err(
                    CompileError::Lex(join("empty character literal at byte ", decimal(index).as_str())),
                );
            }
            if count > 1 {
                let start = join3("unsupported character literal '#\\", literal, "' at byte ");
                return Err(CompileError::Lex(join(start.as_str(), decimal(index).as_str())));
            }
            literal.get_char(0)
        };
        return Ok((Some(make_token(TokenKind::Char(ch), index, end)), end));
    }
    let start = join3("unsupported reader literal '#", one_char(byte as char).as_str(), "' at byte ");
    Err(CompileError::Lex(join(start.as_str(), decimal(index).as_str())))
}

fn unescape(byte: u8) -> (ch: Option<char>)
    ensures
        ch == unescaped(byte),
{
    if byte == DOUBLE_QUOTE {
        Some('"')
    } else if byte == BACKSLASH {
        Some('\\')
    } else if byte == LETTER_N {
        Some('\n')
    } else if byte == LETTER_R {
        Some('\r')
    } else if byte == LETTER_T {
        Some('\t')
    } else {
        None
    }
}

fn lex_string(bytes: &[u8], start: usize, after_string: bool) -> (result: Result<(Option<Token>, usize), CompileError>)
    requires
        valid_utf8(bytes@),
        start < bytes@.len(),
    ensures
        step_agrees(result, bytes@, start as int, string_token(bytes@, start as int, after_string)),
{
    let length: usize = bytes.len();
    let mut value = String::new();
    let mut index: usize = start + 1;
    while index < length
        invariant
            start < index <= length,
            length == bytes@.len(),
            valid_utf8(bytes@),
            string_from(bytes@, start + 1, Seq::empty()) == string_from(bytes@, index as int, value@),
        decreases bytes@.len() - index,
    {
        let byte: u8 = bytes[index];
        if byte == DOUBLE_QUOTE {
            proof {
                lemma_after_ascii(bytes@, index as int);
            }
            return Ok((Some(make_token(TokenKind::String(value), start, index + 1)), index + 1));
        }
        if byte == BACKSLASH {
            if index + 1 >= length {
                return Err(CompileError::Lex("unterminated string escape".to_owned()));
            }
            let escape: u8 = bytes[index + 1];
            match unescape(escape) {
                Some(ch) => {
                    value.push(ch);
                    index = index + 2;
                },
                None => {
                    let text = one_char(escape as char);
                    let message = join3("unsupported string escape '\\", text.as_str(), "' at byte ");
                    return Err(CompileError::Lex(join(message.as_str(), decimal(index + 1).as_str())));
                },
            }
        } else {
            value.push(byte as char);
            index = index + 1;
        }
    }
    if after_string {
        proof {
            lemma_end_boundary(bytes@);
        }
        return Ok((None, index));
    }
    Err(
        CompileError::Lex(
            join("unterminated string literal starting at byte ", decimal(start).as_str()),
        ),
    )
}

/// The symbol at `start`.
fn consume_symbol(source: &str, bytes: &[u8], start: usize) -> (result: Result<(Option<Token>, usize), CompileError>)
    requires
        bytes@ == encode_utf8(source@),
        start < bytes@.len(),
        is_char_boundary(bytes@, start as int),
        !ends_token(bytes@[start as int]),
    ensures
        step_agrees(result, bytes@, start as int, symbol_token(bytes@, start as int)),
{
    let end: usize = find_token_end(bytes, start);
    proof {
        encode_utf8_valid_utf8(source@);
        lemma_token_end(bytes@, start as int);
        lemma_token_end(bytes@, start + 1);
    }
    let text = slice(source, start, end);
    Ok((Some(make_token(TokenKind::Symbol(text.to_owned()), start, end)), end))
}

fn lex_number(source: &str, bytes: &[u8], index: usize) -> (result: Result<(Option<Token>, usize), CompileError>)
    requires
        bytes@ == encode_utf8(source@),
        index < bytes@.len(),
        bytes@[index as int] == MINUS || is_digit(bytes@[index as int]),
        is_char_boundary(bytes@, index as int),
    ensures
        step_agrees(result, bytes@, index as int, number_token(bytes@, index as int)),
{
    let negative = bytes[index] == MINUS;
    let first: usize = if negative { index + 1 } else { index };
    let end: usize = find_digits_end(bytes, first);
    if end > first && (end == bytes.len() || is_delimiter(bytes[end])) {
        proof {
            encode_utf8_valid_utf8(source@);
            if end == bytes@.len() {
                lemma_end_boundary(bytes@);
            } else {
                lemma_ascii_boundary(bytes@, end as int);
            }
        }
        match parse_digits(bytes, first, end, negative) {
            Some(value) => Ok((Some(make_token(TokenKind::Integer(value), index, end)), end)),
            None => {
                let start = join("invalid integer at byte ", decimal(index).as_str());
                let reason = if negative {
                    ": number too small to fit in target type"
                } else {
                    ": number too large to fit in target type"
                };
                Err(CompileError::Lex(join(start.as_str(), reason)))
            },
        }
    } else {
        consume_symbol(source, bytes, index)
    }
}

fn next_token(source: &str, bytes: &[u8], index: usize, after_string: bool) -> (result: Result<
    (Option<Token>, usize),
    CompileError,
>)
    requires
        bytes@ == encode_utf8(source@),
        index < bytes@.len(),
        is_char_boundary(bytes@, index as int),
    ensures
        step_agrees(result, bytes@, index as int, next_lexeme(bytes@, index as int, after_string)),
{
    proof {
        encode_utf8_valid_utf8(source@);
        if bytes@[index as int] < 0x80 {
            lemma_after_ascii(bytes@, index as int);
        }
    }
    let byte: u8 = bytes[index];
    if byte == SPACE || byte == NEWLINE || byte == RETURN || byte == TAB {
        Ok((None, index + 1))
    } else if byte == SEMICOLON {
        let end: usize = find_line_end(bytes, index);
        proof {
            if end == bytes@.len() {
                lemma_end_boundary(bytes@);
            } else {
                lemma_ascii_boundary(bytes@, end as int);
            }
        }
        Ok((None, end))
    } else if byte == OPEN {
        Ok((Some(make_token(TokenKind::LParen, index, index + 1)), index + 1))
    } else if byte == CLOSE {
        Ok((Some(make_token(TokenKind::RParen, index, index + 1)), index + 1))
    } else if byte == DOT && (index + 1 == bytes.len() || is_delimiter(bytes[index + 1])) {
        Ok((Some(make_token(TokenKind::Dot, index, index + 1)), index + 1))
    } else if byte == QUOTE {
        Ok((Some(make_token(TokenKind::Quote, index, index + 1)), index + 1))
    } else if byte == SHARP {
        lex_sharp(source, bytes, index)
    } else if byte == DOUBLE_QUOTE {
        lex_string(bytes, index, after_string)
    } else if byte == MINUS || (ZERO <= byte && byte <= NINE) {
        lex_number(source, bytes, index)
    } else {
        consume_symbol(source, bytes, index)
    }
}

/// The tokens of a source.
pub fn lex(source: &str) -> (result: Result<Vec<Token>, CompileError>)
    ensures
        match result {
            Ok(tokens) => lexed(source@) == Ok::<Seq<Lexeme>, Problem>(lexemes(tokens@)),
            Err(error) => lexed(source@) == Err::<Seq<Lexeme>, Problem>(error@),
        },
{
    let bytes = source.as_bytes();
    let mut tokens: Vec<Token> = Vec::new();
    let mut index: usize = 0;
    proof {
        encode_utf8_valid_utf8(source@);
        lemma_end_boundary(bytes@);
        assert(lexemes(tokens@) =~= Seq::<Lexeme>::empty());
    }
    while index < bytes.len()
        invariant
            bytes@ == encode_utf8(source@),
            index <= bytes@.len(),
            is_char_boundary(bytes@, index as int),
            lexemes_from(bytes@, 0, Seq::empty()) == lexemes_from(bytes@, index as int, lexemes(tokens@)),
        decreases bytes@.len() - index,
    {
        let count: usize = tokens.len();
        let after_string = if count > 0 {
            matches!(&tokens[count - 1].kind, TokenKind::String(_))
        } else {
            false
        };
        assert(count > 0 ==> lexemes(tokens@).last() == tokens@[count - 1]@);
        let (token, next) = next_token(source, bytes, index, after_string)?;
        let ghost before = lexemes(tokens@);
        match token {
            Some(token) => {
                tokens.push(token);
                assert(lexemes(tokens@) =~= before.push(token@));
            },
            None => {},
        }
        index = next;
    }
    Ok(tokens)
}

} // verus!
