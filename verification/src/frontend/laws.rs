//! What holds of all sources: which of them can be read, and that tokens and forms know where they
//! stand.
use crate::frontend::ast::{Form, FormKind, Span};
use crate::frontend::lexer::{
    digits_end, ends_token, is_digit, lemma_after_ascii, lemma_ascii_boundary, lemma_end_boundary, lemma_token_end, lexed,
    lexemes_from, line_end, next_lexeme, string_from, text_between, unescaped, Lexeme, BACKSLASH, DOUBLE_QUOTE, MINUS,
    NEWLINE,
};
use crate::frontend::parser::{form_at, forms_from, is_empty_symbol, list_from, parsed};
use vstd::prelude::*;
use vstd::utf8::*;

verus! {

broadcast use vstd::seq_lib::group_seq_properties;

/// Whether tokens follow each other without overlapping, and end before a position.
pub open spec fn tokens_in_order(tokens: Seq<Lexeme>, limit: int) -> bool {
    &&& forall|i: int|
        0 <= i < tokens.len() ==> (#[trigger] tokens[i]).span.start < tokens[i].span.end && tokens[i].span.end <= limit
    &&& forall|i: int, j: int|
        0 <= i < j < tokens.len() ==> (#[trigger] tokens[i]).span.end <= (#[trigger] tokens[j]).span.start
}

/// Whether one range lies within another.
pub open spec fn within(inner: Span, outer: Span) -> bool {
    outer.start <= inner.start && inner.end <= outer.end
}

/// Whether forms follow each other without overlapping.
pub open spec fn forms_in_order(forms: Seq<Form>) -> bool {
    forall|i: int, j: int|
        0 <= i < j < forms.len() ==> (#[trigger] forms[i]).span.end <= (#[trigger] forms[j]).span.start
}

/// Whether a form takes up a part of the source that holds the parts of its own parts, one after
/// the other.
pub open spec fn well_placed(form: Form) -> bool
    decreases form,
{
    &&& form.span.start < form.span.end
    &&& match form.kind {
        FormKind::Quote(inner) => within(inner.span, form.span) && well_placed(*inner),
        FormKind::List { items, tail } => {
            &&& forms_in_order(items)
            &&& forall|i: int|
                0 <= i < items.len() ==> within(items[i].span, form.span) && #[trigger] well_placed(items[i])
            &&& match tail {
                Some(tail) => {
                    &&& within(tail.span, form.span)
                    &&& well_placed(*tail)
                    &&& items.len() > 0 ==> items.last().span.end <= tail.span.start
                },
                None => true,
            }
        },
        _ => true,
    }
}

proof fn lemma_next_span(bytes: Seq<u8>, index: int, after_string: bool)
    requires
        0 <= index < bytes.len() <= usize::MAX,
    ensures
        next_lexeme(bytes, index, after_string) matches Ok((Some(token), next)) ==> (index < next <= bytes.len()
            ==> token.span == (Span { start: index as usize, end: next as usize })),
{
}

proof fn lemma_tokens_from(bytes: Seq<u8>, index: int, before: Seq<Lexeme>)
    requires
        0 <= index <= bytes.len() <= usize::MAX,
        tokens_in_order(before, index),
    ensures
        lexemes_from(bytes, index, before) matches Ok(tokens) ==> tokens_in_order(tokens, bytes.len() as int),
    decreases bytes.len() - index,
{
    if index < bytes.len() {
        let after_string = before.len() > 0 && before.last().kind is Text;
        lemma_next_span(bytes, index, after_string);
        if let Ok((lexeme, next)) = next_lexeme(bytes, index, after_string) {
            if index < next <= bytes.len() {
                let more = match lexeme {
                    Some(lexeme) => before.push(lexeme),
                    None => before,
                };
                lemma_tokens_from(bytes, next, more);
            }
        }
    }
}

/// The tokens of a source follow each other without overlapping, within the source.
pub proof fn lemma_tokens_in_order(source: Seq<char>)
    requires
        encode_utf8(source).len() <= usize::MAX,
    ensures
        lexed(source) matches Ok(tokens) ==> tokens_in_order(tokens, encode_utf8(source).len() as int),
{
    lemma_tokens_from(encode_utf8(source), 0, Seq::empty());
}

/// Whether a form takes up the tokens from one up to another.
pub open spec fn takes_up(form: Form, tokens: Seq<Lexeme>, cursor: int, next: int) -> bool {
    &&& 0 <= cursor < next <= tokens.len()
    &&& form.span == Span { start: tokens[cursor].span.start, end: tokens[next - 1].span.end }
}

proof fn lemma_form_placed(tokens: Seq<Lexeme>, cursor: int, limit: int)
    requires
        tokens_in_order(tokens, limit),
    ensures
        form_at(tokens, cursor) matches Ok((form, next)) ==> takes_up(form, tokens, cursor, next) && well_placed(form),
    decreases tokens.len() - cursor, 0nat,
{
    if 0 <= cursor < tokens.len() {
        if tokens[cursor].kind is Quote {
            lemma_form_placed(tokens, cursor + 1, limit);
            if let Ok((inner, next)) = form_at(tokens, cursor + 1) {
                assert(tokens[cursor].span.end <= tokens[cursor + 1].span.start);
                assert(cursor + 1 < next);
                assert(tokens[cursor].span.start < tokens[cursor].span.end);
                assert(tokens[next - 1].span.end > tokens[next - 1].span.start);
                assert(cursor + 1 == next - 1 || tokens[cursor + 1].span.end <= tokens[next - 1].span.start);
            }
        } else if tokens[cursor].kind is LParen {
            lemma_list_placed(tokens, cursor + 1, cursor, Seq::empty(), limit);
        }
    }
}

/// A form is well placed where its parts are.
proof fn lemma_list_parts_placed(form: Form, items: Seq<Form>, tail: Option<Box<Form>>)
    requires
        form.kind == (FormKind::List { items, tail }),
        form.span.start < form.span.end,
        forms_in_order(items),
        forall|i: int| 0 <= i < items.len() ==> #[trigger] well_placed(items[i]),
        forall|i: int| 0 <= i < items.len() ==> within((#[trigger] items[i]).span, form.span),
        tail matches Some(tail) ==> within(tail.span, form.span) && well_placed(*tail) && (items.len() > 0
            ==> items.last().span.end <= tail.span.start),
    ensures
        well_placed(form),
{
    assert forall|i: int| 0 <= i < items.len() implies well_placed(#[trigger] items[i]) by {}
}

/// Whether a row of forms lies between two tokens.
pub open spec fn row_placed(items: Seq<Form>, tokens: Seq<Lexeme>, opening: int, cursor: int) -> bool {
    &&& forms_in_order(items)
    &&& forall|i: int| 0 <= i < items.len() ==> #[trigger] well_placed(items[i])
    &&& forall|i: int|
        0 <= i < items.len() ==> tokens[opening].span.end <= (#[trigger] items[i]).span.start && items[i].span.end
            <= tokens[cursor - 1].span.end
}

proof fn lemma_list_placed(tokens: Seq<Lexeme>, cursor: int, opening: int, items: Seq<Form>, limit: int)
    requires
        tokens_in_order(tokens, limit),
        0 <= opening < cursor,
        opening < tokens.len(),
        cursor <= tokens.len(),
        row_placed(items, tokens, opening, cursor),
    ensures
        list_from(tokens, cursor, tokens[opening].span.start, items) matches Ok((form, next)) ==> takes_up(
            form,
            tokens,
            opening,
            next,
        ) && well_placed(form) && cursor < next,
    decreases tokens.len() - cursor, 1nat,
{
    let start = tokens[opening].span.start;
    if cursor < tokens.len() {
        assert(tokens[cursor - 1].span.end <= tokens[cursor].span.start);
        assert(tokens[opening].span.end <= tokens[cursor].span.start);
        if tokens[cursor].kind is RParen {
            let form = Form {
                kind: FormKind::List { items, tail: None },
                span: Span { start, end: tokens[cursor].span.end },
            };
            lemma_list_parts_placed(form, items, None);
        } else if tokens[cursor].kind is Dot && items.len() > 0 {
            lemma_form_placed(tokens, cursor + 1, limit);
            if let Ok((tail, next)) = form_at(tokens, cursor + 1) {
                assert(tokens[cursor].span.end <= tokens[cursor + 1].span.start);
                if next < tokens.len() && tokens[next].kind is RParen {
                    assert(tokens[next - 1].span.end <= tokens[next].span.start);
                    assert(tokens[cursor].span.end <= tokens[next].span.start);
                    let form = Form {
                        kind: FormKind::List { items, tail: Some(Box::new(tail)) },
                        span: Span { start, end: tokens[next].span.end },
                    };
                    lemma_list_parts_placed(form, items, Some(Box::new(tail)));
                }
            }
        } else {
            lemma_form_placed(tokens, cursor, limit);
            if let Ok((item, next)) = form_at(tokens, cursor) {
                if cursor < next <= tokens.len() {
                    let more = items.push(item);
                    assert(cursor == next - 1 || tokens[cursor].span.end <= tokens[next - 1].span.start);
                    assert(tokens[next - 1].span.start < tokens[next - 1].span.end);
                    assert forall|i: int| 0 <= i < more.len() implies #[trigger] well_placed(more[i]) by {
                        if i < items.len() {
                            assert(well_placed(items[i]));
                        }
                    }
                    assert forall|i: int| 0 <= i < more.len() implies tokens[opening].span.end <= (
                    #[trigger] more[i]).span.start && more[i].span.end <= tokens[next - 1].span.end by {
                        if i < items.len() {
                            assert(more[i] == items[i]);
                        }
                    }
                    assert forall|i: int, j: int| 0 <= i < j < more.len() implies (#[trigger] more[i]).span.end
                        <= (#[trigger] more[j]).span.start by {
                        assert(more[i] == items[i]);
                        if j < items.len() {
                            assert(more[j] == items[j]);
                        }
                    }
                    lemma_list_placed(tokens, next, opening, more, limit);
                }
            }
        }
    }
}

proof fn lemma_forms_placed(tokens: Seq<Lexeme>, cursor: int, forms: Seq<Form>, limit: int)
    requires
        tokens_in_order(tokens, limit),
        0 <= cursor <= tokens.len(),
        forms_in_order(forms),
        forall|i: int| 0 <= i < forms.len() ==> #[trigger] well_placed(forms[i]) && forms[i].span.end <= limit,
        forms.len() > 0 ==> cursor > 0 && forms.last().span.end <= tokens[cursor - 1].span.end,
    ensures
        forms_from(tokens, cursor, forms) matches Ok(all) ==> forms_in_order(all) && forall|i: int|
            0 <= i < all.len() ==> #[trigger] well_placed(all[i]) && all[i].span.end <= limit,
    decreases tokens.len() - cursor,
{
    if cursor < tokens.len() {
        lemma_form_placed(tokens, cursor, limit);
        if let Ok((form, next)) = form_at(tokens, cursor) {
            if cursor < next <= tokens.len() {
                let more = forms.push(form);
                assert forall|i: int| 0 <= i < more.len() implies #[trigger] well_placed(more[i])
                    && more[i].span.end <= limit by {
                    if i < forms.len() {
                        assert(well_placed(forms[i]));
                        assert(more[i] == forms[i]);
                    }
                }
                assert forall|i: int, j: int| 0 <= i < j < more.len() implies (#[trigger] more[i]).span.end
                    <= (#[trigger] more[j]).span.start by {
                    assert(more[i] == forms[i]);
                    if j < forms.len() {
                        assert(more[j] == forms[j]);
                    } else {
                        assert(tokens[cursor - 1].span.end <= tokens[cursor].span.start);
                        if i < forms.len() - 1 {
                            assert(forms[i].span.end <= forms[forms.len() - 1].span.start);
                            assert(well_placed(forms[forms.len() - 1]));
                        }
                    }
                }
                lemma_forms_placed(tokens, next, more, limit);
            }
        }
    }
}

/// The forms of a source follow each other without overlapping, within the source, and so do the
/// parts of each form within the form.
pub proof fn lemma_forms_well_placed(source: Seq<char>)
    requires
        encode_utf8(source).len() <= usize::MAX,
    ensures
        parsed(source) matches Ok(forms) ==> forms_in_order(forms) && forall|i: int|
            0 <= i < forms.len() ==> #[trigger] well_placed(forms[i]) && forms[i].span.end <= encode_utf8(
                source,
            ).len(),
{
    lemma_tokens_in_order(source);
    if let Ok(tokens) = lexed(source) {
        lemma_forms_placed(tokens, 0, Seq::empty(), encode_utf8(source).len() as int);
    }
}

/// How many more parentheses are opened than closed by the first tokens.
pub open spec fn depth(tokens: Seq<Lexeme>, count: int) -> int
    decreases count,
{
    if count <= 0 {
        0
    } else if tokens[count - 1].kind is LParen {
        depth(tokens, count - 1) + 1
    } else if tokens[count - 1].kind is RParen {
        depth(tokens, count - 1) - 1
    } else {
        depth(tokens, count - 1)
    }
}

/// Whether as many parentheses are opened as closed, and none is closed before it is opened.
pub open spec fn balanced(tokens: Seq<Lexeme>) -> bool {
    &&& depth(tokens, tokens.len() as int) == 0
    &&& forall|count: int| 0 <= count <= tokens.len() ==> #[trigger] depth(tokens, count) >= 0
}

/// Whether behind the quote at a place, if there is one, something follows that is not `)`.
pub open spec fn quotes_something(tokens: Seq<Lexeme>, place: int) -> bool {
    tokens[place].kind is Quote ==> place + 1 < tokens.len() && !(tokens[place + 1].kind is RParen)
}

/// Whether no quote stands last or directly before `)`.
pub open spec fn quotes_filled(tokens: Seq<Lexeme>) -> bool {
    forall|i: int| 0 <= i < tokens.len() ==> #[trigger] quotes_something(tokens, i)
}

/// Whether there is no dot that stands by itself.
pub open spec fn dotless(tokens: Seq<Lexeme>) -> bool {
    forall|i: int| 0 <= i < tokens.len() ==> !((#[trigger] tokens[i]).kind is Dot)
}

/// Whether all quotes from one token up to another quote something.
spec fn filled_between(tokens: Seq<Lexeme>, cursor: int, next: int) -> bool {
    forall|i: int| cursor <= i < next ==> #[trigger] quotes_something(tokens, i)
}

/// Whether the depth from one token up to another stays what it is at the first or above.
spec fn stays_above(tokens: Seq<Lexeme>, cursor: int, next: int) -> bool {
    forall|count: int| cursor <= count < next ==> #[trigger] depth(tokens, count) >= depth(tokens, cursor)
}

proof fn lemma_form_balanced(tokens: Seq<Lexeme>, cursor: int)
    requires
        dotless(tokens),
    ensures
        form_at(tokens, cursor) matches Ok((form, next)) ==> {
            &&& 0 <= cursor < next <= tokens.len()
            &&& !(tokens[cursor].kind is RParen)
            &&& depth(tokens, next) == depth(tokens, cursor)
            &&& stays_above(tokens, cursor, next)
            &&& filled_between(tokens, cursor, next)
        },
    decreases tokens.len() - cursor, 0nat,
{
    if 0 <= cursor < tokens.len() {
        assert(quotes_something(tokens, cursor) || tokens[cursor].kind is Quote);
        if tokens[cursor].kind is Quote {
            lemma_form_balanced(tokens, cursor + 1);
            if form_at(tokens, cursor + 1) is Ok {
                assert(quotes_something(tokens, cursor));
            }
        } else if tokens[cursor].kind is LParen {
            lemma_list_balanced(tokens, cursor + 1, tokens[cursor].span.start, Seq::empty());
        }
    }
}

proof fn lemma_list_balanced(tokens: Seq<Lexeme>, cursor: int, start: usize, items: Seq<Form>)
    requires
        dotless(tokens),
    ensures
        list_from(tokens, cursor, start, items) matches Ok((form, next)) ==> {
            &&& 0 <= cursor < next <= tokens.len()
            &&& depth(tokens, next) == depth(tokens, cursor) - 1
            &&& stays_above(tokens, cursor, next)
            &&& filled_between(tokens, cursor, next)
        },
    decreases tokens.len() - cursor, 1nat,
{
    if 0 <= cursor < tokens.len() && !(tokens[cursor].kind is RParen) {
        lemma_form_balanced(tokens, cursor);
        if let Ok((item, next)) = form_at(tokens, cursor) {
            lemma_list_balanced(tokens, next, start, items.push(item));
        }
    }
}

proof fn lemma_forms_balanced(tokens: Seq<Lexeme>, cursor: int, forms: Seq<Form>)
    requires
        dotless(tokens),
        0 <= cursor <= tokens.len(),
        forms_from(tokens, cursor, forms) is Ok,
    ensures
        depth(tokens, tokens.len() as int) == depth(tokens, cursor),
        stays_above(tokens, cursor, tokens.len() as int),
        filled_between(tokens, cursor, tokens.len() as int),
    decreases tokens.len() - cursor,
{
    if cursor < tokens.len() {
        lemma_form_balanced(tokens, cursor);
        if let Ok((form, next)) = form_at(tokens, cursor) {
            lemma_forms_balanced(tokens, next, forms.push(form));
        }
    }
}

/// A form is refused only where a parenthesis is not closed.
proof fn lemma_form_read(tokens: Seq<Lexeme>, cursor: int)
    requires
        dotless(tokens),
        quotes_filled(tokens),
        0 <= cursor < tokens.len(),
        !(tokens[cursor].kind is RParen),
    ensures
        form_at(tokens, cursor) is Err ==> depth(tokens, tokens.len() as int) > depth(tokens, cursor),
    decreases tokens.len() - cursor, 0nat,
{
    if tokens[cursor].kind is Quote {
        assert(quotes_something(tokens, cursor));
        lemma_form_read(tokens, cursor + 1);
        assert(depth(tokens, cursor + 1) == depth(tokens, cursor));
    } else if tokens[cursor].kind is LParen {
        lemma_list_read(tokens, cursor + 1, tokens[cursor].span.start, Seq::empty());
        assert(depth(tokens, cursor + 1) == depth(tokens, cursor) + 1);
    }
}

/// A list is refused only where a parenthesis is not closed.
proof fn lemma_list_read(tokens: Seq<Lexeme>, cursor: int, start: usize, items: Seq<Form>)
    requires
        dotless(tokens),
        quotes_filled(tokens),
        0 <= cursor <= tokens.len(),
    ensures
        list_from(tokens, cursor, start, items) is Err ==> depth(tokens, tokens.len() as int) >= depth(
            tokens,
            cursor,
        ),
    decreases tokens.len() - cursor, 1nat,
{
    if cursor < tokens.len() && !(tokens[cursor].kind is RParen) {
        lemma_form_read(tokens, cursor);
        lemma_form_balanced(tokens, cursor);
        if let Ok((item, next)) = form_at(tokens, cursor) {
            lemma_list_read(tokens, next, start, items.push(item));
        }
    }
}

proof fn lemma_forms_read(tokens: Seq<Lexeme>, cursor: int, forms: Seq<Form>)
    requires
        dotless(tokens),
        quotes_filled(tokens),
        balanced(tokens),
        0 <= cursor <= tokens.len(),
        depth(tokens, cursor) == 0,
    ensures
        forms_from(tokens, cursor, forms) is Ok,
    decreases tokens.len() - cursor,
{
    if cursor < tokens.len() {
        assert(depth(tokens, cursor + 1) >= 0);
        lemma_form_read(tokens, cursor);
        lemma_form_balanced(tokens, cursor);
        if let Ok((form, next)) = form_at(tokens, cursor) {
            lemma_forms_read(tokens, next, forms.push(form));
        }
    }
}

/// A line ends before a character, or where the text ends.
proof fn lemma_line_end(bytes: Seq<u8>, index: int)
    requires
        valid_utf8(bytes),
        0 <= index <= bytes.len(),
    ensures
        is_char_boundary(bytes, line_end(bytes, index)),
    decreases bytes.len() - index,
{
    if index >= bytes.len() {
        lemma_end_boundary(bytes);
    } else if bytes[index] == NEWLINE {
        lemma_ascii_boundary(bytes, index);
    } else {
        lemma_line_end(bytes, index + 1);
    }
}

/// A string ends before a character, or where the text ends.
proof fn lemma_string_end(bytes: Seq<u8>, index: int, content: Seq<char>)
    requires
        valid_utf8(bytes),
        0 <= index,
    ensures
        string_from(bytes, index, content) matches Ok(Some((content, end))) ==> is_char_boundary(bytes, end),
    decreases bytes.len() - index,
{
    if index < bytes.len() {
        if bytes[index] == DOUBLE_QUOTE {
            lemma_after_ascii(bytes, index);
        } else if bytes[index] == BACKSLASH {
            if index + 1 < bytes.len() {
                if let Some(escaped) = unescaped(bytes[index + 1]) {
                    lemma_string_end(bytes, index + 2, content.push(escaped));
                }
            }
        } else {
            lemma_string_end(bytes, index + 1, content.push(bytes[index] as char));
        }
    }
}

proof fn lemma_digits_end(bytes: Seq<u8>, index: int)
    requires
        0 <= index <= bytes.len(),
    ensures
        index <= digits_end(bytes, index) <= bytes.len(),
    decreases bytes.len() - index,
{
    if index < bytes.len() && is_digit(bytes[index]) {
        lemma_digits_end(bytes, index + 1);
    }
}

/// What starts with a character ends before one, or where the text ends.
proof fn lemma_next_boundary(bytes: Seq<u8>, index: int, after_string: bool)
    requires
        valid_utf8(bytes),
        0 <= index < bytes.len(),
    ensures
        next_lexeme(bytes, index, after_string) matches Ok((lexeme, next)) ==> is_char_boundary(bytes, next),
{
    let byte = bytes[index];
    if byte < 0x80 {
        lemma_after_ascii(bytes, index);
    }
    lemma_end_boundary(bytes);
    lemma_line_end(bytes, index);
    lemma_token_end(bytes, index);
    lemma_string_end(bytes, index + 1, Seq::empty());
    if index + 1 < bytes.len() {
        if bytes[index + 1] < 0x80 {
            lemma_after_ascii(bytes, index + 1);
        }
        lemma_token_end(bytes, index + 2);
    }
    let first = if byte == MINUS { index + 1 } else { index };
    lemma_digits_end(bytes, first);
    let end = digits_end(bytes, first);
    if end < bytes.len() && ends_token(bytes[end]) {
        lemma_ascii_boundary(bytes, end);
    }
}

/// There are characters between two positions that differ and at which characters start.
proof fn lemma_text_between(bytes: Seq<u8>, start: int, end: int)
    requires
        valid_utf8(bytes),
        0 <= start < end <= bytes.len(),
        is_char_boundary(bytes, start),
        is_char_boundary(bytes, end),
    ensures
        text_between(bytes, start, end).len() > 0,
{
    valid_utf8_split(bytes, end);
    let head = bytes.subrange(0, end);
    is_char_boundary_iff_not_is_continuation_byte(bytes, start);
    is_char_boundary_iff_not_is_continuation_byte(head, start);
    valid_utf8_split(head, start);
    assert(head.subrange(start, head.len() as int) =~= bytes.subrange(start, end));
}

/// No symbol from a place on is empty.
proof fn lemma_symbols_from(bytes: Seq<u8>, index: int, before: Seq<Lexeme>)
    requires
        valid_utf8(bytes),
        0 <= index <= bytes.len(),
        is_char_boundary(bytes, index),
        forall|i: int| 0 <= i < before.len() ==> !is_empty_symbol(#[trigger] before[i]),
    ensures
        lexemes_from(bytes, index, before) matches Ok(tokens) ==> forall|i: int|
            0 <= i < tokens.len() ==> !is_empty_symbol(#[trigger] tokens[i]),
    decreases bytes.len() - index,
{
    if index < bytes.len() {
        let after_string = before.len() > 0 && before.last().kind is Text;
        lemma_next_boundary(bytes, index, after_string);
        if let Ok((lexeme, next)) = next_lexeme(bytes, index, after_string) {
            if index < next <= bytes.len() {
                lemma_text_between(bytes, index, next);
                let more = match lexeme {
                    Some(lexeme) => before.push(lexeme),
                    None => before,
                };
                lemma_symbols_from(bytes, next, more);
            }
        }
    }
}

/// A source without dots can be read exactly where its tokens can, its parentheses balance, and no
/// quote stands last or directly before `)`.
pub proof fn lemma_read_where_balanced(source: Seq<char>)
    requires
        lexed(source) matches Ok(tokens) ==> dotless(tokens),
    ensures
        parsed(source) is Ok <==> (lexed(source) matches Ok(tokens) && balanced(tokens) && quotes_filled(tokens)),
{
    encode_utf8_valid_utf8(source);
    lemma_end_boundary(encode_utf8(source));
    lemma_symbols_from(encode_utf8(source), 0, Seq::empty());
    if let Ok(tokens) = lexed(source) {
        assert(depth(tokens, 0) == 0);
        if parsed(source) is Ok {
            lemma_forms_balanced(tokens, 0, Seq::empty());
        }
        if balanced(tokens) && quotes_filled(tokens) {
            lemma_forms_read(tokens, 0, Seq::empty());
        }
    }
}

} // verus!
