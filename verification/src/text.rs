//! Text helpers: comparing, joining, numbering and ordering strings.
use vstd::prelude::*;
use vstd::string::*;
use vstd::utf8::*;

verus! {

broadcast use vstd::seq_lib::group_seq_properties;

/// `str`'s `==`: two strings are equal when they hold the same characters in the same order.
pub assume_specification[ <str as PartialEq<str>>::eq ](left: &str, right: &str) -> (equal: bool)
    ensures
        equal == (left@ == right@),
;

/// `String::push` appends one character.
pub assume_specification[ std::string::String::push ](text: &mut std::string::String, ch: char)
    ensures
        final(text)@ == old(text)@.push(ch),
;

/// Whether two strings hold the same characters.
pub fn same(left: &str, right: &str) -> (equal: bool)
    ensures
        equal == (left@ == right@),
{
    *left == *right
}

/// `left` followed by `right`.
pub fn join(left: &str, right: &str) -> (joined: String)
    ensures
        joined@ == left@ + right@,
{
    let mut joined = left.to_owned();
    joined.append(right);
    joined
}

/// Three pieces of text in a row.
pub fn join3(first: &str, second: &str, third: &str) -> (joined: String)
    ensures
        joined@ == first@ + second@ + third@,
{
    let mut joined = first.to_owned();
    joined.append(second);
    joined.append(third);
    joined
}

/// Five pieces of text in a row.
pub fn join5(first: &str, second: &str, third: &str, fourth: &str, fifth: &str) -> (joined: String)
    ensures
        joined@ == first@ + second@ + third@ + fourth@ + fifth@,
{
    let mut joined = join3(first, second, third);
    joined.append(fourth);
    joined.append(fifth);
    joined
}

/// The character of a decimal digit.
pub open spec fn digit_char(digit: nat) -> char {
    if digit == 0 {
        '0'
    } else if digit == 1 {
        '1'
    } else if digit == 2 {
        '2'
    } else if digit == 3 {
        '3'
    } else if digit == 4 {
        '4'
    } else if digit == 5 {
        '5'
    } else if digit == 6 {
        '6'
    } else if digit == 7 {
        '7'
    } else if digit == 8 {
        '8'
    } else {
        '9'
    }
}

/// A natural number in decimal notation, without leading zeros.
pub open spec fn decimal_text(number: nat) -> Seq<char>
    decreases number,
{
    if number < 10 {
        seq![digit_char(number)]
    } else {
        decimal_text(number / 10).push(digit_char(number % 10))
    }
}

/// An integer in decimal notation, with a leading `-` when negative.
pub open spec fn integer_text(number: int) -> Seq<char> {
    if number < 0 {
        seq!['-'] + decimal_text((-number) as nat)
    } else {
        decimal_text(number as nat)
    }
}

fn digit(value: u64) -> (ch: char)
    requires
        value < 10,
    ensures
        ch == digit_char(value as nat),
{
    if value == 0 {
        '0'
    } else if value == 1 {
        '1'
    } else if value == 2 {
        '2'
    } else if value == 3 {
        '3'
    } else if value == 4 {
        '4'
    } else if value == 5 {
        '5'
    } else if value == 6 {
        '6'
    } else if value == 7 {
        '7'
    } else if value == 8 {
        '8'
    } else {
        '9'
    }
}

/// Writes a number in decimal notation.
pub fn decimal_wide(number: u128) -> (text: String)
    ensures
        text@ == decimal_text(number as nat),
    decreases number,
{
    if number < 10 {
        let mut text = String::new();
        text.push(digit(number as u64));
        assert(text@ =~= seq![digit_char(number as nat)]);
        text
    } else {
        let mut text = decimal_wide(number / 10);
        text.push(digit((number % 10) as u64));
        text
    }
}

/// Writes a count or an offset in decimal notation.
pub fn decimal(number: usize) -> (text: String)
    ensures
        text@ == decimal_text(number as nat),
{
    decimal_wide(number as u128)
}

/// Writes a signed number in decimal notation.
pub fn integer(number: i64) -> (text: String)
    ensures
        text@ == integer_text(number as int),
{
    if number < 0 {
        let magnitude: u64 = if number == i64::MIN {
            0x8000_0000_0000_0000u64
        } else {
            (-number) as u64
        };
        let digits = decimal_wide(magnitude as u128);
        let mut text = String::new();
        text.push('-');
        text.append(digits.as_str());
        assert(text@ =~= seq!['-'] + digits@);
        text
    } else {
        decimal_wide(number as u128)
    }
}

/// The order of `str`: by the first byte of the UTF-8 encodings that differs, a proper
/// prefix before what it is a prefix of.
pub open spec fn bytes_before(left: Seq<u8>, right: Seq<u8>) -> bool
    decreases left.len(),
{
    if right.len() == 0 {
        false
    } else if left.len() == 0 {
        true
    } else if left[0] != right[0] {
        left[0] < right[0]
    } else {
        bytes_before(left.subrange(1, left.len() as int), right.subrange(1, right.len() as int))
    }
}

/// Whether the name `left` sorts before the name `right`.
pub open spec fn name_before(left: Seq<char>, right: Seq<char>) -> bool {
    bytes_before(encode_utf8(left), encode_utf8(right))
}

proof fn lemma_bytes_common_prefix(left: Seq<u8>, right: Seq<u8>, n: int)
    requires
        0 <= n <= left.len(),
        n <= right.len(),
        left.subrange(0, n) == right.subrange(0, n),
    ensures
        bytes_before(left, right) == bytes_before(
            left.subrange(n, left.len() as int),
            right.subrange(n, right.len() as int),
        ),
    decreases n,
{
    if n == 0 {
        assert(left.subrange(0, left.len() as int) =~= left);
        assert(right.subrange(0, right.len() as int) =~= right);
    } else {
        assert(left[0] == left.subrange(0, n)[0]);
        assert(right[0] == right.subrange(0, n)[0]);
        let left_rest = left.subrange(1, left.len() as int);
        let right_rest = right.subrange(1, right.len() as int);
        assert(left_rest.subrange(0, n - 1) =~= left.subrange(0, n).subrange(1, n));
        assert(right_rest.subrange(0, n - 1) =~= right.subrange(0, n).subrange(1, n));
        lemma_bytes_common_prefix(left_rest, right_rest, n - 1);
        assert(left_rest.subrange(n - 1, left_rest.len() as int) =~= left.subrange(n, left.len() as int));
        assert(right_rest.subrange(n - 1, right_rest.len() as int) =~= right.subrange(n, right.len() as int));
    }
}

/// Whether `left` sorts before `right`.
pub fn before(left: &str, right: &str) -> (result: bool)
    ensures
        result == name_before(left@, right@),
{
    let left_bytes = left.as_bytes();
    let right_bytes = right.as_bytes();
    let mut index: usize = 0;
    while index < left_bytes.len() && index < right_bytes.len()
        invariant
            index <= left_bytes@.len(),
            index <= right_bytes@.len(),
            left_bytes@ == encode_utf8(left@),
            right_bytes@ == encode_utf8(right@),
            left_bytes@.subrange(0, index as int) == right_bytes@.subrange(0, index as int),
        decreases left_bytes@.len() - index,
    {
        proof {
            lemma_bytes_common_prefix(left_bytes@, right_bytes@, index as int);
        }
        if left_bytes[index] != right_bytes[index] {
            return left_bytes[index] < right_bytes[index];
        }
        assert(left_bytes@.subrange(0, index + 1) =~= left_bytes@.subrange(0, index as int).push(left_bytes@[index as int]));
        assert(right_bytes@.subrange(0, index + 1) =~= right_bytes@.subrange(0, index as int).push(right_bytes@[index as int]));
        index = index + 1;
    }
    proof {
        lemma_bytes_common_prefix(left_bytes@, right_bytes@, index as int);
    }
    index < right_bytes.len()
}

proof fn lemma_bytes_before_order(a: Seq<u8>, b: Seq<u8>, c: Seq<u8>)
    ensures
        !bytes_before(a, a),
        a != b ==> bytes_before(a, b) || bytes_before(b, a),
        bytes_before(a, b) && bytes_before(b, c) ==> bytes_before(a, c),
    decreases a.len(),
{
    if a.len() > 0 {
        let ar = a.subrange(1, a.len() as int);
        let br = if b.len() > 0 { b.subrange(1, b.len() as int) } else { b };
        let cr = if c.len() > 0 { c.subrange(1, c.len() as int) } else { c };
        lemma_bytes_before_order(ar, br, cr);
        if b.len() > 0 && a[0] == b[0] && ar == br {
            assert(a =~= seq![a[0]] + ar);
            assert(b =~= seq![b[0]] + br);
        }
    } else if b.len() == 0 {
        assert(a =~= b);
    }
}

/// The order of names is strict and total: no name comes before itself, of two different
/// names one comes before the other, and the order is transitive.
pub proof fn lemma_name_order(a: Seq<char>, b: Seq<char>, c: Seq<char>)
    ensures
        !name_before(a, a),
        a != b ==> name_before(a, b) || name_before(b, a),
        name_before(a, b) && name_before(b, c) ==> name_before(a, c),
{
    lemma_bytes_before_order(encode_utf8(a), encode_utf8(b), encode_utf8(c));
    encode_utf8_decode_utf8(a);
    encode_utf8_decode_utf8(b);
}

/// The characters of a text, one by one.
pub fn characters(text: &str) -> (chars: Vec<char>)
    ensures
        chars@ == text@,
{
    let mut chars: Vec<char> = Vec::new();
    for ch in iter: text.chars()
        invariant
            iter.seq() == text@,
            chars@ == text@.subrange(0, iter.index() as int),
    {
        chars.push(ch);
        assert(chars@ =~= text@.subrange(0, iter.index() + 1));
    }
    assert(chars@ =~= text@);
    chars
}

/// The string of a row of characters.
pub fn string_of(chars: &Vec<char>) -> (text: String)
    ensures
        text@ == chars@,
{
    let mut text: String = String::new();
    let mut index: usize = 0;
    assert(text@ =~= chars@.subrange(0, 0));
    while index < chars.len()
        invariant
            index <= chars@.len(),
            text@ == chars@.subrange(0, index as int),
        decreases chars@.len() - index,
    {
        text.push(chars[index]);
        assert(text@ =~= chars@.subrange(0, index + 1));
        index = index + 1;
    }
    assert(chars@.subrange(0, chars@.len() as int) =~= chars@);
    text
}

} // verus!
