//! What reading is: tokens are spelled by the parts of the source that they take up, nothing but
//! white space and comments stands between them, and forms are made up of the tokens.
use crate::error::Problem;
use crate::frontend::ast::{Form, FormKind, Span};
use crate::frontend::lexer::{
    digits_end, digits_value, ends_token, is_digit, is_space, lexed, lexemes_from, line_end, next_lexeme,
    number_token, sharp_token, string_from, symbol_token, text_between, token_end, unescaped, Lexeme,
    LexemeKind,
};
use crate::frontend::parser::{form_at, forms_from, list_from, parsed};
use vstd::prelude::*;
use vstd::utf8::*;

verus! {

broadcast use vstd::seq_lib::group_seq_properties;

/// White space.
pub open spec fn is_white(byte: u8) -> bool {
    byte == ' ' as u8 || byte == '\n' as u8 || byte == '\r' as u8 || byte == '\t' as u8
}

/// What a symbol, a number or a character literal cannot go on with.
pub open spec fn is_delimiting(byte: u8) -> bool {
    is_white(byte) || byte == '(' as u8 || byte == ')' as u8 || byte == ';' as u8 || byte == '\'' as u8 || byte
        == '"' as u8
}

/// Whether a byte is a decimal digit.
pub open spec fn is_numeral(byte: u8) -> bool {
    '0' as u8 <= byte <= '9' as u8
}

/// The number that digits write.
pub open spec fn numeral_value(digits: Seq<u8>) -> nat
    decreases digits.len(),
{
    if digits.len() == 0 {
        0
    } else {
        numeral_value(digits.drop_last()) * 10 + (digits.last() - '0' as u8) as nat
    }
}

/// Whether bytes are digits, and there is at least one.
pub open spec fn are_numerals(digits: Seq<u8>) -> bool {
    digits.len() > 0 && forall|i: int| 0 <= i < digits.len() ==> is_numeral(#[trigger] digits[i])
}

/// Whether bytes write an integer: digits, possibly behind a minus sign.
pub open spec fn writes_integer(bytes: Seq<u8>, value: int) -> bool {
    ||| are_numerals(bytes) && value == numeral_value(bytes)
    ||| bytes.len() > 0 && bytes[0] == '-' as u8 && are_numerals(bytes.skip(1)) && value == -numeral_value(
        bytes.skip(1),
    )
}

/// Whether a backslash and a byte stand for a character in a string.
pub open spec fn escapes(byte: u8, content: char) -> bool {
    ||| byte == '"' as u8 && content == '"'
    ||| byte == '\\' as u8 && content == '\\'
    ||| byte == 'n' as u8 && content == '\n'
    ||| byte == 'r' as u8 && content == '\r'
    ||| byte == 't' as u8 && content == '\t'
}

/// Whether bytes between double quotes write a string. A byte that is neither a double quote nor a
/// backslash stands for the character of its number.
pub open spec fn writes_string(bytes: Seq<u8>, content: Seq<char>) -> bool
    decreases bytes.len(),
{
    if bytes.len() == 0 {
        content.len() == 0
    } else if bytes[0] == '\\' as u8 {
        bytes.len() >= 2 && content.len() > 0 && escapes(bytes[1], content[0]) && writes_string(
            bytes.skip(2),
            content.skip(1),
        )
    } else {
        bytes[0] != '"' as u8 && content.len() > 0 && content[0] == bytes[0] as char && writes_string(
            bytes.skip(1),
            content.skip(1),
        )
    }
}

/// Whether bytes behind `#\` name a character: `space`, `newline`, or the character itself.
pub open spec fn names_character(bytes: Seq<u8>, value: char) -> bool {
    ||| decode_utf8(bytes) == "space"@ && value == ' '
    ||| decode_utf8(bytes) == "newline"@ && value == '\n'
    ||| decode_utf8(bytes) == seq![value]
}

/// Whether no byte ends a symbol, a number or a character literal.
pub open spec fn is_unbroken(bytes: Seq<u8>) -> bool {
    forall|i: int| 0 <= i < bytes.len() ==> !is_delimiting(#[trigger] bytes[i])
}

/// Whether bytes write a symbol with a name. Numbers, a dot, and what starts with `#` are no symbols.
pub open spec fn writes_symbol(bytes: Seq<u8>, name: Seq<char>) -> bool {
    &&& bytes.len() > 0
    &&& is_unbroken(bytes)
    &&& bytes[0] != '#' as u8
    &&& bytes != seq!['.' as u8]
    &&& !are_numerals(bytes)
    &&& !(bytes[0] == '-' as u8 && are_numerals(bytes.skip(1)))
    &&& decode_utf8(bytes) == name
}

/// Whether bytes write a token.
pub open spec fn writes_token(bytes: Seq<u8>, kind: LexemeKind) -> bool {
    match kind {
        LexemeKind::LParen => bytes == seq!['(' as u8],
        LexemeKind::RParen => bytes == seq![')' as u8],
        LexemeKind::Dot => bytes == seq!['.' as u8],
        LexemeKind::Quote => bytes == seq!['\'' as u8],
        LexemeKind::Integer(value) => writes_integer(bytes, value as int),
        LexemeKind::Boolean(value) => bytes == seq!['#' as u8, if value { 't' as u8 } else { 'f' as u8 }],
        LexemeKind::Char(value) => bytes.len() >= 2 && bytes[0] == '#' as u8 && bytes[1] == '\\' as u8 && is_unbroken(
            bytes.skip(2),
        ) && names_character(bytes.skip(2), value),
        LexemeKind::Text(content) => bytes.len() >= 2 && bytes[0] == '"' as u8 && bytes.last() == '"' as u8
            && writes_string(bytes.subrange(1, bytes.len() - 1), content),
        LexemeKind::Symbol(name) => writes_symbol(bytes, name),
    }
}

/// Whether a token goes on as far as it can.
pub open spec fn is_whole(bytes: Seq<u8>, end: int, kind: LexemeKind) -> bool {
    match kind {
        LexemeKind::Integer(_) => end == bytes.len() || is_delimiting(bytes[end]),
        LexemeKind::Symbol(_) => end == bytes.len() || is_delimiting(bytes[end]),
        LexemeKind::Char(_) => end == bytes.len() || is_delimiting(bytes[end]),
        LexemeKind::Dot => end == bytes.len() || is_delimiting(bytes[end]),
        _ => true,
    }
}

/// Whether a byte belongs to a comment that starts at a place or behind it.
#[verifier::opaque]
pub open spec fn in_comment(bytes: Seq<u8>, from: int, at: int) -> bool {
    exists|start: int|
        from <= start <= at && #[trigger] bytes[start] == ';' as u8 && forall|i: int|
            start <= i <= at ==> #[trigger] bytes[i] != '\n' as u8
}

/// Whether there is only white space and comments between two places.
pub open spec fn is_blank(bytes: Seq<u8>, from: int, to: int) -> bool {
    forall|i: int| from <= i < to ==> is_white(#[trigger] bytes[i]) || in_comment(bytes, from, i)
}

/// Whether the last comment before a place ends before it.
pub open spec fn is_behind_comments(bytes: Seq<u8>, from: int, to: int) -> bool {
    to < bytes.len() && bytes[to] != ';' as u8 ==> !in_comment(bytes, from, to)
}

/// Where the tokens up to one end.
pub open spec fn end_before(tokens: Seq<Lexeme>, index: int) -> int {
    if index <= 0 {
        0
    } else {
        tokens[index - 1].span.end as int
    }
}

/// Whether a token stands at its place in the source, behind nothing but white space and comments.
#[verifier::opaque]
pub open spec fn stands(bytes: Seq<u8>, tokens: Seq<Lexeme>, index: int) -> bool {
    let span = tokens[index].span;
    &&& end_before(tokens, index) <= span.start < span.end <= bytes.len()
    &&& writes_token(bytes.subrange(span.start as int, span.end as int), tokens[index].kind)
    &&& is_whole(bytes, span.end as int, tokens[index].kind)
    &&& is_blank(bytes, end_before(tokens, index), span.start as int)
    &&& !in_comment(bytes, end_before(tokens, index), span.start as int)
}

/// Whether a string is opened at a place behind a string and not closed.
pub open spec fn left_open(bytes: Seq<u8>, tokens: Seq<Lexeme>, at: int) -> bool {
    &&& tokens.len() > 0 && tokens.last().kind is Text
    &&& 0 <= at < bytes.len() && bytes[at] == '"' as u8
    &&& forall|i: int| at < i < bytes.len() && #[trigger] bytes[i] == '"' as u8 ==> bytes[i - 1] == '\\' as u8
}

/// Whether there is no token from the last one on up to the end: only white space and comments, and
/// possibly a string that is not closed behind a string.
pub open spec fn ends_there(bytes: Seq<u8>, tokens: Seq<Lexeme>) -> bool {
    let last = end_before(tokens, tokens.len() as int);
    ||| is_blank(bytes, last, bytes.len() as int)
    ||| exists|at: int| last <= at && is_blank(bytes, last, at) && #[trigger] left_open(bytes, tokens, at)
}

proof fn lemma_tables(byte: u8)
    ensures
        is_space(byte) == is_white(byte),
        ends_token(byte) == is_delimiting(byte),
        is_digit(byte) == is_numeral(byte),
        unescaped(byte) matches Some(content) ==> escapes(byte, content),
{
}

proof fn lemma_token_end(bytes: Seq<u8>, index: int)
    requires
        0 <= index <= bytes.len(),
    ensures
        index <= token_end(bytes, index) <= bytes.len(),
        forall|i: int| index <= i < token_end(bytes, index) ==> !is_delimiting(#[trigger] bytes[i]),
        token_end(bytes, index) == bytes.len() || is_delimiting(bytes[token_end(bytes, index)]),
    decreases bytes.len() - index,
{
    if index < bytes.len() && !ends_token(bytes[index]) {
        lemma_token_end(bytes, index + 1);
    }
}

proof fn lemma_line_end(bytes: Seq<u8>, index: int)
    requires
        0 <= index <= bytes.len(),
    ensures
        index <= line_end(bytes, index) <= bytes.len(),
        forall|i: int| index <= i < line_end(bytes, index) ==> #[trigger] bytes[i] != '\n' as u8,
        line_end(bytes, index) == bytes.len() || bytes[line_end(bytes, index)] == '\n' as u8,
    decreases bytes.len() - index,
{
    if index < bytes.len() && bytes[index] != '\n' as u8 {
        lemma_line_end(bytes, index + 1);
    }
}

proof fn lemma_digits_end(bytes: Seq<u8>, index: int)
    requires
        0 <= index <= bytes.len(),
    ensures
        index <= digits_end(bytes, index) <= bytes.len(),
        forall|i: int| index <= i < digits_end(bytes, index) ==> is_numeral(#[trigger] bytes[i]),
        digits_end(bytes, index) == bytes.len() || !is_numeral(bytes[digits_end(bytes, index)]),
    decreases bytes.len() - index,
{
    if index < bytes.len() && is_digit(bytes[index]) {
        lemma_digits_end(bytes, index + 1);
    }
}

proof fn lemma_digits_value(bytes: Seq<u8>, start: int, end: int)
    requires
        0 <= start <= end <= bytes.len(),
        forall|i: int| start <= i < end ==> is_numeral(#[trigger] bytes[i]),
    ensures
        digits_value(bytes, start, end) == numeral_value(bytes.subrange(start, end)),
    decreases end - start,
{
    if start < end {
        lemma_digits_value(bytes, start, end - 1);
        assert(bytes.subrange(start, end).drop_last() =~= bytes.subrange(start, end - 1));
        assert(bytes.subrange(start, end).last() == bytes[end - 1]);
    }
}

/// What a string is read as, behind content that was read before.
proof fn lemma_string_from(bytes: Seq<u8>, index: int, before: Seq<char>)
    requires
        0 <= index,
    ensures
        match string_from(bytes, index, before) {
            Ok(Some((content, end))) => {
                &&& index < end <= bytes.len()
                &&& bytes[end - 1] == '"' as u8
                &&& before.is_prefix_of(content)
                &&& writes_string(bytes.subrange(index, end - 1), content.skip(before.len() as int))
            },
            Ok(None) => index >= bytes.len() || forall|i: int|
                index <= i < bytes.len() && #[trigger] bytes[i] == '"' as u8 ==> i > index && bytes[i - 1] == '\\' as u8,
            Err(_) => true,
        },
    decreases bytes.len() - index,
{
    if index >= bytes.len() {
    } else if bytes[index] == '"' as u8 {
        assert(before.skip(before.len() as int) =~= Seq::<char>::empty());
        assert(bytes.subrange(index, index) =~= Seq::<u8>::empty());
    } else if bytes[index] == '\\' as u8 {
        if index + 1 < bytes.len() {
            if let Some(escaped) = unescaped(bytes[index + 1]) {
                lemma_tables(bytes[index + 1]);
                lemma_string_from(bytes, index + 2, before.push(escaped));
                if let Ok(Some((content, end))) = string_from(bytes, index, before) {
                    let part = bytes.subrange(index, end - 1);
                    let rest = content.skip(before.len() as int);
                    assert(part.skip(2) =~= bytes.subrange(index + 2, end - 1));
                    assert(rest.skip(1) =~= content.skip(before.push(escaped).len() as int));
                    assert(content[before.len() as int] == before.push(escaped)[before.len() as int]);
                    assert(before =~= content.subrange(0, before.len() as int)) by {
                        assert forall|i: int| 0 <= i < before.len() implies before[i] == content[i] by {
                            assert(before.push(escaped)[i] == content[i]);
                        }
                    }
                }
            }
        }
    } else {
        let read = bytes[index] as char;
        lemma_string_from(bytes, index + 1, before.push(read));
        if let Ok(Some((content, end))) = string_from(bytes, index, before) {
            let part = bytes.subrange(index, end - 1);
            let rest = content.skip(before.len() as int);
            assert(part.skip(1) =~= bytes.subrange(index + 1, end - 1));
            assert(rest.skip(1) =~= content.skip(before.push(read).len() as int));
            assert(content[before.len() as int] == before.push(read)[before.len() as int]);
            assert(before =~= content.subrange(0, before.len() as int)) by {
                assert forall|i: int| 0 <= i < before.len() implies before[i] == content[i] by {
                    assert(before.push(read)[i] == content[i]);
                }
            }
        }
    }
}

proof fn lemma_symbol_token(bytes: Seq<u8>, index: int)
    requires
        0 <= index < bytes.len() <= usize::MAX,
        !is_delimiting(bytes[index]),
        bytes[index] != '#' as u8,
        bytes[index] == '.' as u8 ==> index + 1 < bytes.len() && !is_delimiting(bytes[index + 1]),
        are_numerals(bytes.subrange(index, token_end(bytes, index))) ==> false,
        bytes[index] == '-' as u8 ==> !are_numerals(bytes.subrange(index + 1, token_end(bytes, index))),
    ensures
        symbol_token(bytes, index) matches Ok((Some(token), next)) && index < next <= bytes.len() && token.span == (
        Span { start: index as usize, end: next as usize }) && writes_token(bytes.subrange(index, next), token.kind)
            && is_whole(bytes, next, token.kind),
{
    lemma_token_end(bytes, index);
    lemma_token_end(bytes, index + 1);
    let end = token_end(bytes, index);
    let part = bytes.subrange(index, end);
    assert(end > index);
    assert(part.skip(1) =~= bytes.subrange(index + 1, end));
    assert(part != seq!['.' as u8]) by {
        if bytes[index] == '.' as u8 {
            lemma_token_end(bytes, index + 2);
            assert(end >= index + 2);
        } else {
            assert(part[0] != '.' as u8);
        }
    }
}

proof fn lemma_number_token(bytes: Seq<u8>, index: int)
    requires
        0 <= index < bytes.len() <= usize::MAX,
        bytes[index] == '-' as u8 || is_numeral(bytes[index]),
    ensures
        number_token(bytes, index) matches Ok((lexeme, next)) ==> index < next <= bytes.len() && (lexeme matches Some(
            token,
        ) && token.span == (Span { start: index as usize, end: next as usize }) && writes_token(
            bytes.subrange(index, next),
            token.kind,
        ) && is_whole(bytes, next, token.kind)),
{
    let first = if bytes[index] == '-' as u8 { index + 1 } else { index };
    lemma_digits_end(bytes, first);
    lemma_token_end(bytes, index);
    let end = digits_end(bytes, first);
    let digits = bytes.subrange(first, end);
    if end > first && (end == bytes.len() || ends_token(bytes[end])) {
        lemma_digits_value(bytes, first, end);
        if first == index + 1 {
            assert(bytes.subrange(index, end).skip(1) =~= digits);
        }
        assert(are_numerals(digits));
    } else {
        let stop = token_end(bytes, index);
        assert(!are_numerals(bytes.subrange(first, stop))) by {
            if are_numerals(bytes.subrange(first, stop)) {
                assert forall|i: int| first <= i < stop implies is_numeral(#[trigger] bytes[i]) by {
                    assert(bytes.subrange(first, stop)[i - first] == bytes[i]);
                }
                if end < stop {
                    assert(is_numeral(bytes[end]));
                } else if stop < end {
                    assert(is_numeral(bytes[stop]));
                }
            }
        }
        if first == index + 1 {
            assert(!are_numerals(bytes.subrange(index, stop))) by {
                assert(stop > index) by {
                    lemma_token_end(bytes, index + 1);
                }
                assert(bytes.subrange(index, stop)[0] == '-' as u8);
            }
        }
        lemma_symbol_token(bytes, index);
    }
}

proof fn lemma_sharp_token(bytes: Seq<u8>, index: int)
    requires
        0 <= index < bytes.len() <= usize::MAX,
        bytes[index] == '#' as u8,
    ensures
        sharp_token(bytes, index) matches Ok((lexeme, next)) ==> index < next <= bytes.len() && (lexeme matches Some(
            token,
        ) && token.span == (Span { start: index as usize, end: next as usize }) && writes_token(
            bytes.subrange(index, next),
            token.kind,
        ) && is_whole(bytes, next, token.kind)),
{
    if index + 1 < bytes.len() {
        if bytes[index + 1] == '\\' as u8 {
            lemma_token_end(bytes, index + 2);
            let end = token_end(bytes, index + 2);
            let part = bytes.subrange(index, end);
            assert(part.skip(2) =~= bytes.subrange(index + 2, end));
            let literal = text_between(bytes, index + 2, end);
            if literal.len() == 1 {
                assert(literal =~= seq![literal[0]]);
            }
        } else if bytes[index + 1] == 't' as u8 || bytes[index + 1] == 'f' as u8 {
            let value = bytes[index + 1] == 't' as u8;
            assert(bytes.subrange(index, index + 2) =~= seq!['#' as u8, if value { 't' as u8 } else { 'f' as u8 }]);
        }
    }
}

/// A token that is read is written where it is read.
proof fn lemma_next(bytes: Seq<u8>, index: int, after_string: bool)
    requires
        0 <= index < bytes.len() <= usize::MAX,
    ensures
        match next_lexeme(bytes, index, after_string) {
            Ok((Some(token), next)) => index < next <= bytes.len() && token.span == (Span {
                start: index as usize,
                end: next as usize,
            }) && writes_token(bytes.subrange(index, next), token.kind) && is_whole(bytes, next, token.kind),
            Ok((None, next)) => index < next <= bytes.len() && (is_blank(bytes, index, next) && (bytes[index] == ';' as u8
                ==> next == bytes.len() || bytes[next] == '\n' as u8) && (bytes[index] == ';' as u8 || next == index + 1)
                || (after_string && next
                == bytes.len() && bytes[index] == '"' as u8 && forall|i: int|
                index < i < bytes.len() && #[trigger] bytes[i] == '"' as u8 ==> bytes[i - 1] == '\\' as u8)),
            Err(_) => true,
        },
{
    reveal(in_comment);
    let byte = bytes[index];
    lemma_tables(byte);
    if index + 1 < bytes.len() {
        lemma_tables(bytes[index + 1]);
    }
    if is_white(byte) {
    } else if byte == ';' as u8 {
        lemma_line_end(bytes, index);
        lemma_line_end(bytes, index + 1);
        let end = line_end(bytes, index);
        assert forall|i: int| index <= i < end implies is_white(#[trigger] bytes[i]) || in_comment(bytes, index, i) by {
            assert(bytes[index] == ';' as u8);
        }
    } else if byte == '(' as u8 || byte == ')' as u8 || byte == '\'' as u8 {
        assert(bytes.subrange(index, index + 1) =~= seq![byte]);
    } else if byte == '.' as u8 && (index + 1 == bytes.len() || is_delimiting(bytes[index + 1])) {
        assert(bytes.subrange(index, index + 1) =~= seq![byte]);
    } else if byte == '#' as u8 {
        lemma_sharp_token(bytes, index);
    } else if byte == '"' as u8 {
        lemma_string_from(bytes, index + 1, Seq::empty());
        if let Ok(Some((content, end))) = string_from(bytes, index + 1, Seq::empty()) {
            let part = bytes.subrange(index, end);
            assert(part.subrange(1, part.len() - 1) =~= bytes.subrange(index + 1, end - 1));
            assert(content.skip(0) =~= content);
        }
    } else if byte == '-' as u8 || is_numeral(byte) {
        lemma_number_token(bytes, index);
    } else {
        lemma_token_end(bytes, index);
        lemma_token_end(bytes, index + 1);
        let part = bytes.subrange(index, token_end(bytes, index));
        assert(part[0] == byte);
        lemma_symbol_token(bytes, index);
    }
}

proof fn lemma_blank_joined(bytes: Seq<u8>, from: int, middle: int, to: int)
    requires
        is_blank(bytes, from, middle),
        is_blank(bytes, middle, to),
        from <= middle,
    ensures
        is_blank(bytes, from, to),
{
    reveal(in_comment);
    assert forall|i: int| from <= i < to implies is_white(#[trigger] bytes[i]) || in_comment(bytes, from, i) by {
        if i >= middle && !is_white(bytes[i]) {
            let start = choose|start: int|
                middle <= start <= i && #[trigger] bytes[start] == ';' as u8 && forall|k: int|
                    start <= k <= i ==> #[trigger] bytes[k] != '\n' as u8;
            assert(bytes[start] == ';' as u8);
        }
    }
}

proof fn lemma_all_stand(bytes: Seq<u8>, index: int, before: Seq<Lexeme>)
    requires
        0 <= index <= bytes.len() <= usize::MAX,
        forall|i: int| 0 <= i < before.len() ==> #[trigger] stands(bytes, before, i),
        end_before(before, before.len() as int) <= index,
        is_blank(bytes, end_before(before, before.len() as int), index),
        is_behind_comments(bytes, end_before(before, before.len() as int), index),
    ensures
        lexemes_from(bytes, index, before) matches Ok(tokens) ==> (forall|i: int|
            0 <= i < tokens.len() ==> #[trigger] stands(bytes, tokens, i)) && ends_there(bytes, tokens),
    decreases bytes.len() - index,
{
    reveal(in_comment);
    reveal(stands);
    let last = end_before(before, before.len() as int);
    if index < bytes.len() {
        let after_string = before.len() > 0 && before.last().kind is Text;
        lemma_next(bytes, index, after_string);
        match next_lexeme(bytes, index, after_string) {
            Ok((Some(token), next)) => {
                let more = before.push(token);
                assert forall|i: int| 0 <= i < more.len() implies #[trigger] stands(bytes, more, i) by {
                    if i < before.len() {
                        assert(stands(bytes, before, i));
                        assert(more[i] == before[i]);
                        if i > 0 {
                            assert(more[i - 1] == before[i - 1]);
                        }
                    } else {
                        if i > 0 {
                            assert(more[i - 1] == before[i - 1]);
                        }
                    }
                }
                lemma_all_stand(bytes, next, more);
            },
            Ok((None, next)) => {
                if is_blank(bytes, index, next) {
                    lemma_blank_joined(bytes, last, index, next);
                    lemma_all_stand(bytes, next, before);
                } else {
                    assert(left_open(bytes, before, index));
                }
            },
            Err(_) => {},
        }
    }
}

/// Every token of a source is written where it stands, goes on as far as it can, and stands behind
/// nothing but white space and comments. Behind the last token nothing else follows.
pub proof fn lemma_tokens_are_written(source: Seq<char>)
    requires
        encode_utf8(source).len() <= usize::MAX,
    ensures
        lexed(source) matches Ok(tokens) ==> (forall|i: int|
            0 <= i < tokens.len() ==> #[trigger] stands(encode_utf8(source), tokens, i)) && ends_there(
            encode_utf8(source),
            tokens,
        ),
{
    reveal(in_comment);
    lemma_all_stand(encode_utf8(source), 0, Seq::empty());
}

/// A string that is written between double quotes is read as what is written.
proof fn lemma_string_read(bytes: Seq<u8>, index: int, end: int, before: Seq<char>, content: Seq<char>)
    requires
        0 <= index <= end < bytes.len(),
        bytes[end] == '"' as u8,
        writes_string(bytes.subrange(index, end), content),
    ensures
        string_from(bytes, index, before) == Ok::<Option<(Seq<char>, int)>, Seq<char>>(Some((before + content, end + 1))),
    decreases end - index,
{
    let part = bytes.subrange(index, end);
    if index == end {
        assert(before + content =~= before);
    } else if bytes[index] == '\\' as u8 {
        assert(part[0] == bytes[index] && part[1] == bytes[index + 1]);
        assert(part.skip(2) =~= bytes.subrange(index + 2, end));
        assert(unescaped(bytes[index + 1]) == Some(content[0]));
        lemma_string_read(bytes, index + 2, end, before.push(content[0]), content.skip(1));
        assert(before.push(content[0]) + content.skip(1) =~= before + content);
    } else {
        assert(part[0] == bytes[index]);
        assert(part.skip(1) =~= bytes.subrange(index + 1, end));
        lemma_string_read(bytes, index + 1, end, before.push(content[0]), content.skip(1));
        assert(before.push(content[0]) + content.skip(1) =~= before + content);
    }
}

/// Bytes that are neither double quotes nor backslashes write the string of their characters.
proof fn lemma_plain_string(bytes: Seq<u8>)
    requires
        forall|i: int| 0 <= i < bytes.len() ==> #[trigger] bytes[i] != '"' as u8 && bytes[i] != '\\' as u8,
    ensures
        writes_string(bytes, Seq::new(bytes.len(), |i: int| bytes[i] as char)),
    decreases bytes.len(),
{
    if bytes.len() > 0 {
        let rest = bytes.skip(1);
        assert forall|i: int| 0 <= i < rest.len() implies #[trigger] rest[i] != '"' as u8 && rest[i] != '\\' as u8 by {
            assert(rest[i] == bytes[i + 1]);
        }
        lemma_plain_string(rest);
        assert(Seq::new(bytes.len(), |i: int| bytes[i] as char).skip(1) =~= Seq::new(
            rest.len(),
            |i: int| rest[i] as char,
        ));
    }
}

/// Wherever a string literal is read, it is one token, which holds the string that is written
/// between its double quotes.
pub proof fn lemma_string_literal(bytes: Seq<u8>, index: int, end: int, content: Seq<char>, after_string: bool)
    requires
        0 <= index < end < bytes.len(),
        bytes[index] == '"' as u8,
        bytes[end] == '"' as u8,
        writes_string(bytes.subrange(index + 1, end), content),
    ensures
        next_lexeme(bytes, index, after_string) == Ok::<(Option<Lexeme>, int), Seq<char>>(
            (
                Some(
                    Lexeme {
                        kind: LexemeKind::Text(content),
                        span: Span { start: index as usize, end: (end + 1) as usize },
                    },
                ),
                end + 1,
            ),
        ),
{
    lemma_string_read(bytes, index + 1, end, Seq::empty(), content);
    assert(Seq::<char>::empty() + content =~= content);
}

/// A source that is a string literal without backslashes is one token, whose content has a character
/// for each byte between the double quotes.
pub proof fn lemma_plain_string_literal(source: Seq<char>)
    requires
        encode_utf8(source).len() <= usize::MAX,
        encode_utf8(source).len() >= 2,
        encode_utf8(source)[0] == '"' as u8,
        encode_utf8(source).last() == '"' as u8,
        forall|i: int|
            0 < i < encode_utf8(source).len() - 1 ==> #[trigger] encode_utf8(source)[i] != '"' as u8 && encode_utf8(
                source,
            )[i] != '\\' as u8,
    ensures
        lexed(source) matches Ok(tokens) && tokens.len() == 1 && tokens[0].span == (Span {
            start: 0,
            end: encode_utf8(source).len() as usize,
        }) && (tokens[0].kind matches LexemeKind::Text(content) && content.len() == encode_utf8(source).len() - 2
            && forall|i: int| 0 <= i < content.len() ==> #[trigger] content[i] == encode_utf8(source)[i + 1] as char),
{
    let bytes = encode_utf8(source);
    let end = bytes.len() - 1;
    let inner = bytes.subrange(1, end);
    assert forall|i: int| 0 <= i < inner.len() implies #[trigger] inner[i] != '"' as u8 && inner[i] != '\\' as u8 by {
        assert(inner[i] == bytes[i + 1]);
    }
    lemma_plain_string(inner);
    let content = Seq::new(inner.len(), |i: int| inner[i] as char);
    lemma_string_literal(bytes, 0, end, content, false);
    reveal_with_fuel(lexemes_from, 2);
}

/// The tokens that write a form.
pub open spec fn tokens_of(form: Form) -> Seq<LexemeKind>
    decreases form, 0nat,
{
    match form.kind {
        FormKind::Integer(value) => seq![LexemeKind::Integer(value)],
        FormKind::Boolean(value) => seq![LexemeKind::Boolean(value)],
        FormKind::Char(value) => seq![LexemeKind::Char(value)],
        FormKind::Text(value) => seq![LexemeKind::Text(value)],
        FormKind::Symbol(value) => seq![LexemeKind::Symbol(value)],
        FormKind::Quote(inner) => seq![LexemeKind::Quote] + tokens_of(*inner),
        FormKind::List { items, tail } => seq![LexemeKind::LParen] + tokens_of_items(items) + match tail {
            Some(tail) => seq![LexemeKind::Dot] + tokens_of(*tail),
            None => Seq::empty(),
        } + seq![LexemeKind::RParen],
    }
}

/// The tokens that write forms one behind the other.
pub open spec fn tokens_of_items(items: Seq<Form>) -> Seq<LexemeKind>
    decreases items, items.len(),
{
    if items.len() == 0 {
        Seq::empty()
    } else {
        tokens_of_items(items.drop_last()) + tokens_of(items.last())
    }
}

/// What the tokens from one place up to another are.
pub open spec fn kinds(tokens: Seq<Lexeme>, from: int, to: int) -> Seq<LexemeKind> {
    Seq::new((to - from) as nat, |i: int| tokens[from + i].kind)
}

proof fn lemma_kinds_joined(tokens: Seq<Lexeme>, from: int, middle: int, to: int)
    requires
        from <= middle <= to,
    ensures
        kinds(tokens, from, to) == kinds(tokens, from, middle) + kinds(tokens, middle, to),
{
    assert(kinds(tokens, from, to) =~= kinds(tokens, from, middle) + kinds(tokens, middle, to));
}

proof fn lemma_one_kind(tokens: Seq<Lexeme>, at: int)
    ensures
        kinds(tokens, at, at + 1) == seq![tokens[at].kind],
{
    assert(kinds(tokens, at, at + 1) =~= seq![tokens[at].kind]);
}

proof fn lemma_form_tokens(tokens: Seq<Lexeme>, cursor: int)
    requires
        0 <= cursor,
    ensures
        form_at(tokens, cursor) matches Ok((form, next)) ==> cursor < next <= tokens.len() && kinds(tokens, cursor, next)
            == tokens_of(form),
    decreases tokens.len() - cursor, 0nat,
{
    if cursor < tokens.len() {
        lemma_one_kind(tokens, cursor);
        match tokens[cursor].kind {
            LexemeKind::Quote => {
                lemma_form_tokens(tokens, cursor + 1);
                if let Ok((form, next)) = form_at(tokens, cursor) {
                    lemma_kinds_joined(tokens, cursor, cursor + 1, next);
                }
            },
            LexemeKind::LParen => {
                assert(kinds(tokens, cursor + 1, cursor + 1) =~= tokens_of_items(Seq::empty()));
                lemma_list_tokens(tokens, cursor + 1, cursor + 1, tokens[cursor].span.start, Seq::empty());
                if let Ok((form, next)) = form_at(tokens, cursor) {
                    lemma_kinds_joined(tokens, cursor, cursor + 1, next);
                }
            },
            _ => {},
        }
    }
}

proof fn lemma_list_tokens(tokens: Seq<Lexeme>, first: int, cursor: int, start: usize, items: Seq<Form>)
    requires
        0 < first <= cursor,
        tokens[first - 1].kind is LParen,
        kinds(tokens, first, cursor) == tokens_of_items(items),
    ensures
        list_from(tokens, cursor, start, items) matches Ok((form, next)) ==> first < next <= tokens.len() && kinds(
            tokens,
            first - 1,
            next,
        ) == tokens_of(form),
    decreases tokens.len() - cursor, 1nat,
{
    if cursor < tokens.len() {
        lemma_one_kind(tokens, first - 1);
        lemma_one_kind(tokens, cursor);
        lemma_kinds_joined(tokens, first - 1, first, cursor);
        if tokens[cursor].kind is RParen {
            lemma_kinds_joined(tokens, first - 1, cursor, cursor + 1);
            let whole = seq![LexemeKind::LParen] + tokens_of_items(items);
            assert(whole + Seq::<LexemeKind>::empty() =~= whole);
        } else if tokens[cursor].kind is Dot && items.len() > 0 {
            lemma_form_tokens(tokens, cursor + 1);
            if let Ok((tail, next)) = form_at(tokens, cursor + 1) {
                if next < tokens.len() {
                    lemma_one_kind(tokens, next);
                    lemma_kinds_joined(tokens, cursor, cursor + 1, next);
                    lemma_kinds_joined(tokens, first - 1, cursor, next);
                    lemma_kinds_joined(tokens, first - 1, next, next + 1);
                }
            }
        } else {
            lemma_form_tokens(tokens, cursor);
            if let Ok((form, next)) = form_at(tokens, cursor) {
                lemma_kinds_joined(tokens, first, cursor, next);
                assert(items.push(form).drop_last() =~= items);
                lemma_list_tokens(tokens, first, next, start, items.push(form));
            }
        }
    }
}

proof fn lemma_forms_tokens(tokens: Seq<Lexeme>, cursor: int, forms: Seq<Form>)
    requires
        0 <= cursor <= tokens.len(),
        kinds(tokens, 0, cursor) == tokens_of_items(forms),
    ensures
        forms_from(tokens, cursor, forms) matches Ok(all) ==> kinds(tokens, 0, tokens.len() as int) == tokens_of_items(
            all,
        ),
    decreases tokens.len() - cursor,
{
    if cursor < tokens.len() {
        lemma_form_tokens(tokens, cursor);
        if let Ok((form, next)) = form_at(tokens, cursor) {
            lemma_kinds_joined(tokens, 0, cursor, next);
            assert(forms.push(form).drop_last() =~= forms);
            lemma_forms_tokens(tokens, next, forms.push(form));
        }
    }
}

/// The forms of a source are written by its tokens, one behind the other, with none left out.
pub proof fn lemma_forms_are_written(source: Seq<char>)
    ensures
        parsed(source) matches Ok(forms) ==> (lexed(source) matches Ok(tokens) && kinds(tokens, 0, tokens.len() as int)
            == tokens_of_items(forms)),
{
    if let Ok(tokens) = lexed(source) {
        assert(kinds(tokens, 0, 0) =~= tokens_of_items(Seq::empty()));
        lemma_forms_tokens(tokens, 0, Seq::empty());
    }
}

proof fn lemma_token_end_is(bytes: Seq<u8>, index: int, end: int)
    requires
        0 <= index <= end <= bytes.len(),
        forall|i: int| index <= i < end ==> !is_delimiting(#[trigger] bytes[i]),
        end == bytes.len() || is_delimiting(bytes[end]),
    ensures
        token_end(bytes, index) == end,
{
    lemma_token_end(bytes, index);
    let found = token_end(bytes, index);
    if found < end {
        assert(!is_delimiting(bytes[found]));
    } else if end < found {
        assert(!is_delimiting(bytes[end]));
    }
}

proof fn lemma_digits_end_is(bytes: Seq<u8>, index: int, end: int)
    requires
        0 <= index <= end <= bytes.len(),
        forall|i: int| index <= i < end ==> is_numeral(#[trigger] bytes[i]),
        end == bytes.len() || is_delimiting(bytes[end]),
    ensures
        digits_end(bytes, index) == end,
{
    lemma_digits_end(bytes, index);
    let found = digits_end(bytes, index);
    if found < end {
        assert(is_numeral(bytes[found]));
    } else if end < found {
        assert(is_numeral(bytes[end]));
    }
}

/// A token that is written at a place is read there.
proof fn lemma_token_read(bytes: Seq<u8>, start: int, end: int, kind: LexemeKind, after_string: bool)
    requires
        0 <= start < end <= bytes.len() <= usize::MAX,
        writes_token(bytes.subrange(start, end), kind),
        is_whole(bytes, end, kind),
    ensures
        next_lexeme(bytes, start, after_string) == Ok::<(Option<Lexeme>, int), Seq<char>>(
            (Some(Lexeme { kind, span: Span { start: start as usize, end: end as usize } }), end),
        ),
{
    let part = bytes.subrange(start, end);
    assert(part[0] == bytes[start]);
    lemma_tables(bytes[start]);
    if start + 1 < bytes.len() {
        lemma_tables(bytes[start + 1]);
    }
    match kind {
        LexemeKind::Integer(value) => {
            let negative = bytes[start] == '-' as u8;
            let first = if negative {
                start + 1
            } else {
                start
            };
            let digits = bytes.subrange(first, end);
            assert(negative ==> part.skip(1) =~= digits);
            assert(!negative ==> part =~= digits);
            if negative {
                assert(!is_numeral(part[0]));
            }
            assert(are_numerals(digits));
            assert forall|i: int| first <= i < end implies is_numeral(#[trigger] bytes[i]) by {
                assert(digits[i - first] == bytes[i]);
            }
            lemma_digits_end_is(bytes, first, end);
            lemma_digits_value(bytes, first, end);
            if end < bytes.len() {
                lemma_tables(bytes[end]);
            }
        },
        LexemeKind::Symbol(name) => {
            assert forall|i: int| start <= i < end implies !is_delimiting(#[trigger] bytes[i]) by {
                assert(part[i - start] == bytes[i]);
            }
            lemma_token_end_is(bytes, start, end);
            if bytes[start] == '.' as u8 && end == start + 1 {
                assert(part =~= seq!['.' as u8]);
            }
            if bytes[start] == '-' as u8 || is_numeral(bytes[start]) {
                let first = if bytes[start] == '-' as u8 {
                    start + 1
                } else {
                    start
                };
                lemma_digits_end(bytes, first);
                let stop = digits_end(bytes, first);
                if stop > first && (stop == bytes.len() || ends_token(bytes[stop])) {
                    if stop < bytes.len() {
                        lemma_tables(bytes[stop]);
                    }
                    assert forall|i: int| first <= i < stop implies !is_delimiting(#[trigger] bytes[i]) by {}
                    lemma_token_end_is(bytes, start, stop);
                    let digits = bytes.subrange(first, end);
                    assert forall|i: int| 0 <= i < digits.len() implies is_numeral(#[trigger] digits[i]) by {
                        assert(digits[i] == bytes[first + i]);
                    }
                    assert(first == start ==> part =~= digits);
                    assert(first == start + 1 ==> part.skip(1) =~= digits);
                }
            }
        },
        LexemeKind::Char(value) => {
            let literal = bytes.subrange(start + 2, end);
            assert(part[1] == bytes[start + 1]);
            assert(part.skip(2) =~= literal);
            assert forall|i: int| start + 2 <= i < end implies !is_delimiting(#[trigger] bytes[i]) by {
                assert(literal[i - start - 2] == bytes[i]);
            }
            lemma_token_end_is(bytes, start + 2, end);
            reveal_strlit("space");
            reveal_strlit("newline");
            assert("space"@.len() == 5 && "newline"@.len() == 7);
        },
        LexemeKind::Text(content) => {
            assert(part.last() == bytes[end - 1]);
            assert(part.subrange(1, part.len() - 1) =~= bytes.subrange(start + 1, end - 1));
            lemma_string_literal(bytes, start, end - 1, content, after_string);
        },
        LexemeKind::Boolean(value) => {
            assert(part[1] == bytes[start + 1]);
        },
        LexemeKind::Dot => {
            if end < bytes.len() {
                lemma_tables(bytes[end]);
            }
        },
        _ => {},
    }
}

/// Where the token with a number starts, or the source ends.
spec fn start_of(bytes: Seq<u8>, tokens: Seq<Lexeme>, k: int) -> int {
    if k < tokens.len() {
        tokens[k].span.start as int
    } else {
        bytes.len() as int
    }
}

proof fn lemma_all_read(bytes: Seq<u8>, tokens: Seq<Lexeme>, k: int, index: int)
    requires
        bytes.len() <= usize::MAX,
        0 <= k <= tokens.len(),
        forall|i: int| 0 <= i < tokens.len() ==> #[trigger] stands(bytes, tokens, i),
        is_blank(bytes, end_before(tokens, tokens.len() as int), bytes.len() as int),
        0 <= end_before(tokens, k) <= index <= start_of(bytes, tokens, k) <= bytes.len(),
        is_behind_comments(bytes, end_before(tokens, k), index),
    ensures
        lexemes_from(bytes, index, tokens.subrange(0, k)) == Ok::<Seq<Lexeme>, Seq<char>>(tokens),
    decreases bytes.len() - index,
{
    let last = end_before(tokens, k);
    let before = tokens.subrange(0, k);
    let next = start_of(bytes, tokens, k);
    let after_string = before.len() > 0 && before.last().kind is Text;
    assert(is_blank(bytes, last, next)) by {
        if k < tokens.len() {
            lemma_standing(bytes, tokens, k);
        }
    }
    if index >= bytes.len() {
        if k < tokens.len() {
            lemma_standing(bytes, tokens, k);
        }
        assert(before =~= tokens);
    } else if index == next {
        lemma_standing(bytes, tokens, k);
        let span = tokens[k].span;
        lemma_token_at(bytes, tokens, k, after_string);
        assert(tokens.subrange(0, k + 1) =~= before.push(tokens[k]));
        if k + 1 < tokens.len() {
            lemma_standing(bytes, tokens, k + 1);
        }
        lemma_behind_itself(bytes, span.end as int);
        lemma_all_read(bytes, tokens, k + 1, span.end as int);
    } else {
        let byte = bytes[index];
        lemma_tables(byte);
        if is_white(byte) {
            lemma_blank_step(bytes, last, index);
            lemma_all_read(bytes, tokens, k, index + 1);
        } else {
            assert(in_comment(bytes, last, index));
            assert(byte == ';' as u8);
            let end = line_end(bytes, index);
            if k < tokens.len() {
                lemma_standing(bytes, tokens, k);
            }
            lemma_comment_skipped(bytes, last, index, next);
            lemma_all_read(bytes, tokens, k, end);
        }
    }
}

/// No comment before a place goes on there if it would have to start there.
proof fn lemma_behind_itself(bytes: Seq<u8>, at: int)
    ensures
        is_behind_comments(bytes, at, at),
{
    reveal(in_comment);
}

/// Where a token that stands in a source starts and ends.
proof fn lemma_standing(bytes: Seq<u8>, tokens: Seq<Lexeme>, k: int)
    requires
        stands(bytes, tokens, k),
    ensures
        end_before(tokens, k) <= tokens[k].span.start < tokens[k].span.end <= bytes.len(),
        is_blank(bytes, end_before(tokens, k), tokens[k].span.start as int),
        !in_comment(bytes, end_before(tokens, k), tokens[k].span.start as int),
{
    reveal(stands);
}

/// A token that stands in a source is read there.
proof fn lemma_token_at(bytes: Seq<u8>, tokens: Seq<Lexeme>, k: int, after_string: bool)
    requires
        bytes.len() <= usize::MAX,
        stands(bytes, tokens, k),
        0 <= end_before(tokens, k),
    ensures
        next_lexeme(bytes, tokens[k].span.start as int, after_string) == Ok::<(Option<Lexeme>, int), Seq<char>>(
            (Some(tokens[k]), tokens[k].span.end as int),
        ),
{
    reveal(stands);
    let span = tokens[k].span;
    lemma_token_read(bytes, span.start as int, span.end as int, tokens[k].kind, after_string);
    assert(tokens[k] == (Lexeme { kind: tokens[k].kind, span: Span { start: span.start, end: span.end } }));
}

/// A comment ends before the next token.
proof fn lemma_comment_skipped(bytes: Seq<u8>, from: int, index: int, next: int)
    requires
        0 <= from <= index < next <= bytes.len(),
        bytes[index] == ';' as u8,
        next == bytes.len() || !in_comment(bytes, from, next),
    ensures
        index < line_end(bytes, index) <= next,
        is_behind_comments(bytes, from, line_end(bytes, index)),
{
    reveal(in_comment);
    lemma_line_end(bytes, index);
    lemma_line_end(bytes, index + 1);
    let end = line_end(bytes, index);
    if next < end {
        assert(bytes[index] == ';' as u8);
        assert(in_comment(bytes, from, next));
    }
    if end < bytes.len() && in_comment(bytes, from, end) {
        let start = choose|start: int|
            from <= start <= end && #[trigger] bytes[start] == ';' as u8 && forall|i: int|
                start <= i <= end ==> #[trigger] bytes[i] != '\n' as u8;
        assert(bytes[end] != '\n' as u8);
    }
}

/// Behind white space outside a comment nothing is in a comment unless a comment starts there.
proof fn lemma_blank_step(bytes: Seq<u8>, from: int, index: int)
    requires
        from <= index < bytes.len(),
        is_white(bytes[index]),
        is_behind_comments(bytes, from, index),
    ensures
        is_behind_comments(bytes, from, index + 1),
{
    reveal(in_comment);
    if index + 1 < bytes.len() && bytes[index + 1] != ';' as u8 && in_comment(bytes, from, index + 1) {
        let start = choose|start: int|
            from <= start <= index + 1 && #[trigger] bytes[start] == ';' as u8 && forall|i: int|
                start <= i <= index + 1 ==> #[trigger] bytes[i] != '\n' as u8;
        assert(bytes[start] == ';' as u8);
        assert(in_comment(bytes, from, index));
    }
}

/// A source in which tokens are written one behind the other, with nothing but white space and comments
/// between and behind them, is read as these tokens.
pub proof fn lemma_written_tokens_are_read(source: Seq<char>, tokens: Seq<Lexeme>)
    requires
        encode_utf8(source).len() <= usize::MAX,
        forall|i: int| 0 <= i < tokens.len() ==> #[trigger] stands(encode_utf8(source), tokens, i),
        is_blank(
            encode_utf8(source),
            end_before(tokens, tokens.len() as int),
            encode_utf8(source).len() as int,
        ),
    ensures
        lexed(source) == Ok::<Seq<Lexeme>, Problem>(tokens),
{
    reveal(in_comment);
    let bytes = encode_utf8(source);
    assert(tokens.subrange(0, 0) =~= Seq::<Lexeme>::empty());
    if tokens.len() > 0 {
        lemma_standing(bytes, tokens, 0);
    }
    assert(is_behind_comments(bytes, 0, 0));
    lemma_all_read(bytes, tokens, 0, 0);
}

} // verus!
