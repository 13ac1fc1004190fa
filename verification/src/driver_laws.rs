//! What reading numbers, words and lines, and replacing parts of texts, does.
use crate::driver::{
    digits_value, is_digit, is_white, lines_from, lines_of, number_of, replaced_from, stands_at,
    words_from,
};
use crate::text::{decimal_text, digit_char};
use vstd::prelude::*;

verus! {

broadcast use vstd::seq_lib::group_seq_properties;

proof fn lemma_digit(digit: nat)
    requires
        digit < 10,
    ensures
        is_digit(digit_char(digit)),
        digit_char(digit) as nat - '0' as nat == digit,
{
}

proof fn lemma_digits_read(number: nat)
    ensures
        decimal_text(number).len() > 0,
        forall|i: int| 0 <= i < decimal_text(number).len() ==> is_digit(#[trigger] decimal_text(number)[i]),
        digits_value(decimal_text(number)) == number,
    decreases number,
{
    let text = decimal_text(number);
    if number < 10 {
        lemma_digit(number);
        assert(text.drop_last() =~= Seq::<char>::empty());
        reveal_with_fuel(digits_value, 2);
    } else {
        lemma_digits_read(number / 10);
        lemma_digit(number % 10);
        assert(text.drop_last() =~= decimal_text(number / 10));
    }
}

/// A number is read back from its digits, with or without a plus sign.
pub proof fn lemma_number_read(number: nat)
    requires
        number <= usize::MAX,
    ensures
        number_of(decimal_text(number)) == Some(number),
        number_of(seq!['+'] + decimal_text(number)) == Some(number),
{
    let text = decimal_text(number);
    lemma_digits_read(number);
    assert(is_digit(text[0]));
    assert((seq!['+'] + text).skip(1) =~= text);
}

/// The texts of a row, one behind the other.
pub open spec fn all_of(row: Seq<Seq<char>>) -> Seq<char>
    decreases row.len(),
{
    if row.len() == 0 {
        Seq::empty()
    } else {
        row[0] + all_of(row.skip(1))
    }
}

/// What of a text from a place on is no white space.
pub open spec fn dark(text: Seq<char>, at: int) -> Seq<char>
    decreases text.len() - at,
{
    if at < 0 || at >= text.len() {
        Seq::empty()
    } else if is_white(text[at]) {
        dark(text, at + 1)
    } else {
        seq![text[at]] + dark(text, at + 1)
    }
}

/// How many words start in a text from a place on, where one may have started before.
pub open spec fn starts_from(text: Seq<char>, at: int, inside: bool) -> nat
    decreases text.len() - at,
{
    if at < 0 || at >= text.len() {
        0
    } else if is_white(text[at]) {
        starts_from(text, at + 1, false)
    } else if inside {
        starts_from(text, at + 1, true)
    } else {
        1 + starts_from(text, at + 1, true)
    }
}

/// Whether a text is not empty and holds no white space.
pub open spec fn is_word(text: Seq<char>) -> bool {
    text.len() > 0 && forall|k: int| 0 <= k < text.len() ==> !is_white(#[trigger] text[k])
}

/// Whether all texts of a row are words.
pub open spec fn are_words(row: Seq<Seq<char>>) -> bool {
    forall|i: int| 0 <= i < row.len() ==> is_word(#[trigger] row[i])
}

proof fn lemma_words_from(text: Seq<char>, at: int, word: Seq<char>)
    requires
        0 <= at,
        forall|k: int| 0 <= k < word.len() ==> !is_white(#[trigger] word[k]),
    ensures
        are_words(words_from(text, at, word)),
        all_of(words_from(text, at, word)) == word + dark(text, at),
        words_from(text, at, word).len() == starts_from(text, at, word.len() > 0) + (if word.len() > 0 {
            1nat
        } else {
            0nat
        }),
    decreases text.len() - at,
{
    let words = words_from(text, at, word);
    if at >= text.len() {
        if word.len() > 0 {
            assert(words.skip(1) =~= Seq::<Seq<char>>::empty());
            reveal_with_fuel(all_of, 2);
            assert(all_of(words) =~= word);
        } else {
            assert(word + dark(text, at) =~= Seq::<char>::empty());
        }
    } else if is_white(text[at]) {
        let rest = words_from(text, at + 1, Seq::empty());
        lemma_words_from(text, at + 1, Seq::empty());
        assert(Seq::<char>::empty() + dark(text, at + 1) =~= dark(text, at + 1));
        if word.len() > 0 {
            assert(words.skip(1) =~= rest);
            assert forall|i: int| 0 <= i < words.len() implies is_word(#[trigger] words[i]) by {
                if i > 0 {
                    assert(words[i] == rest[i - 1]);
                }
            }
        } else {
            assert(word + dark(text, at) =~= dark(text, at + 1));
        }
    } else {
        let more = word.push(text[at]);
        lemma_words_from(text, at + 1, more);
        assert(more + dark(text, at + 1) =~= word + dark(text, at));
    }
}

/// The words of a text hold no white space and are not empty, together they are the text without its white
/// space, and there are as many as start in the text.
pub proof fn lemma_words(text: Seq<char>)
    ensures
        are_words(words_from(text, 0, Seq::empty())),
        all_of(words_from(text, 0, Seq::empty())) == dark(text, 0),
        words_from(text, 0, Seq::empty()).len() == starts_from(text, 0, false),
{
    lemma_words_from(text, 0, Seq::empty());
    assert(Seq::<char>::empty() + dark(text, 0) =~= dark(text, 0));
}

/// The lines of a row, each with a newline behind it.
pub open spec fn ended(row: Seq<Seq<char>>) -> Seq<char>
    decreases row.len(),
{
    if row.len() == 0 {
        Seq::empty()
    } else {
        row[0].push('\n') + ended(row.skip(1))
    }
}

/// Whether no line of a row holds a newline.
pub open spec fn are_lines(row: Seq<Seq<char>>) -> bool {
    forall|i: int| 0 <= i < row.len() ==> !(#[trigger] row[i]).contains('\n')
}

proof fn lemma_lines_from(text: Seq<char>, start: int, at: int)
    requires
        0 <= start <= at <= text.len(),
        !text.contains('\r'),
        !text.subrange(start, at).contains('\n'),
    ensures
        are_lines(lines_from(text, start, at)),
        ended(lines_from(text, start, at)) == (if start < text.len() && text.last() != '\n' {
            text.skip(start).push('\n')
        } else {
            text.skip(start)
        }),
    decreases text.len() - at,
{
    let lines = lines_from(text, start, at);
    if at >= text.len() {
        assert(text.subrange(start, at) =~= text.skip(start));
        if start < text.len() {
            assert(text.skip(start)[text.len() - 1 - start] == text.last());
            assert(lines.skip(1) =~= Seq::<Seq<char>>::empty());
            reveal_with_fuel(ended, 2);
            assert(ended(lines) =~= text.skip(start).push('\n'));
        } else {
            assert(text.skip(start) =~= Seq::<char>::empty());
        }
    } else if text[at] == '\n' {
        let line = text.subrange(start, at);
        if line.len() > 0 {
            assert(line.last() == text[at - 1]);
            assert(text.contains(text[at - 1]));
        }
        let rest = lines_from(text, at + 1, at + 1);
        assert(text.subrange(at + 1, at + 1) =~= Seq::<char>::empty());
        lemma_lines_from(text, at + 1, at + 1);
        assert(lines.skip(1) =~= rest);
        assert(lines[0] == line);
        assert forall|i: int| 0 <= i < lines.len() implies !(#[trigger] lines[i]).contains('\n') by {
            if i > 0 {
                assert(lines[i] == rest[i - 1]);
            }
        }
        lemma_line_joined(text, start, at);
    } else {
        let line = text.subrange(start, at + 1);
        assert(line =~= text.subrange(start, at).push(text[at]));
        if line.contains('\n') {
            let i = choose|i: int| 0 <= i < line.len() && line[i] == '\n';
            assert(text.subrange(start, at)[i] == '\n');
        }
        lemma_lines_from(text, start, at + 1);
    }
}

proof fn lemma_line_joined(text: Seq<char>, start: int, at: int)
    requires
        0 <= start <= at < text.len(),
        text[at] == '\n',
    ensures
        text.skip(start) == text.subrange(start, at).push('\n') + text.skip(at + 1),
        text.skip(start).push('\n') == text.subrange(start, at).push('\n') + text.skip(at + 1).push('\n'),
        at + 1 == text.len() ==> text.last() == '\n',
{
    let line = text.subrange(start, at).push('\n');
    assert(text.skip(start) =~= line + text.skip(at + 1));
    assert(text.skip(start).push('\n') =~= line + text.skip(at + 1).push('\n'));
}

/// The lines of a text without carriage returns hold no newlines, and with a newline behind each of them
/// they are the text, but for a newline that may be missing at its end.
pub proof fn lemma_lines(text: Seq<char>)
    requires
        !text.contains('\r'),
    ensures
        are_lines(lines_of(text)),
        ended(lines_of(text)) == (if text.len() > 0 && text.last() != '\n' {
            text.push('\n')
        } else {
            text
        }),
{
    assert(text.subrange(0, 0) =~= Seq::<char>::empty());
    lemma_lines_from(text, 0, 0);
    assert(text.skip(0) =~= text);
}

/// Replacing keeps what stands before the first occurrence of a part, puts the replacement in the place of
/// the part, and goes on behind it. Where the part does not occur, nothing changes.
pub proof fn lemma_replaced(text: Seq<char>, part: Seq<char>, by: Seq<char>, from: int, first: int)
    requires
        part.len() > 0,
        0 <= from <= first <= text.len(),
        forall|at: int| from <= at < first ==> !#[trigger] stands_at(text, part, at),
        first == text.len() || stands_at(text, part, first),
    ensures
        replaced_from(text, part, by, from) == text.subrange(from, first) + (if first == text.len() {
            Seq::empty()
        } else {
            by + replaced_from(text, part, by, first + part.len())
        }),
    decreases first - from,
{
    let rest = if first == text.len() {
        Seq::empty()
    } else {
        by + replaced_from(text, part, by, first + part.len())
    };
    if from < first {
        lemma_replaced(text, part, by, from + 1, first);
        assert(text.subrange(from, first) + rest =~= seq![text[from]] + (text.subrange(from + 1, first) + rest));
    } else {
        assert(text.subrange(from, first) + rest =~= rest);
    }
}

} // verus!
