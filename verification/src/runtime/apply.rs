//! Built-in procedures that are called as values: with their number and a list of arguments.
use crate::runtime::access::{
    after_write, car_changed, cdr_changed, encode, encode_length, encoded, string_byte, string_interned,
    string_length, symbol_named, vector_changed, vector_element, vector_length,
};
use crate::runtime::compare::{
    assoc_found, assoc_search_ends, comparison_ends, equal_contents, member_found, member_search_ends,
};
use crate::runtime::error::RuntimeError;
use crate::runtime::heap::{
    allocated, allocated_rooted, allocated_row, raised, tag_at, with_symbol, Outcome, Runtime, World,
};
use crate::runtime::layout::{
    BOOL_FALSE, BOOL_TRUE, EMPTY_LIST, HEADER_TAG_PAIR, HEADER_TAG_STRING, HEADER_TAG_SYMBOL, HEADER_TAG_VECTOR,
    UNSPECIFIED,
};
use crate::runtime::lists::{
    appended, chain_ends, element_of, elements_of, list_copied, list_made, list_reversed, pair_at, tail_of,
};
use crate::runtime::object::{copy_words, Thing};
use crate::runtime::value::{
    char_bits, fixnum_of, immediate_of, is_fixnum_word, is_scalar_value, Immediate, Value,
};
use crate::runtime::writer::{text_ends, text_of};
use vstd::prelude::*;
use vstd::utf8::encode_utf8;

verus! {

broadcast use vstd::seq_lib::group_seq_properties;

pub const BUILTIN_ADD: u16 = 0;

pub const BUILTIN_SUB: u16 = 1;

pub const BUILTIN_MUL: u16 = 2;

pub const BUILTIN_DIV: u16 = 3;

pub const BUILTIN_NOT: u16 = 4;

pub const BUILTIN_BOOLEAN_PREDICATE: u16 = 5;

pub const BUILTIN_ZERO_PREDICATE: u16 = 6;

pub const BUILTIN_CHAR_PREDICATE: u16 = 7;

pub const BUILTIN_CHAR_EQ: u16 = 8;

pub const BUILTIN_CHAR_LT: u16 = 9;

pub const BUILTIN_CHAR_GT: u16 = 10;

pub const BUILTIN_CHAR_LE: u16 = 11;

pub const BUILTIN_CHAR_GE: u16 = 12;

pub const BUILTIN_CHAR_TO_INTEGER: u16 = 13;

pub const BUILTIN_INTEGER_TO_CHAR: u16 = 14;

pub const BUILTIN_SYMBOL_PREDICATE: u16 = 15;

pub const BUILTIN_SYMBOL_TO_STRING: u16 = 16;

pub const BUILTIN_STRING_TO_SYMBOL: u16 = 17;

pub const BUILTIN_PROCEDURE_PREDICATE: u16 = 18;

pub const BUILTIN_EQ: u16 = 19;

pub const BUILTIN_EQV: u16 = 20;

pub const BUILTIN_EQUAL: u16 = 21;

pub const BUILTIN_LIST: u16 = 22;

pub const BUILTIN_APPEND: u16 = 23;

pub const BUILTIN_MEMQ: u16 = 24;

pub const BUILTIN_MEMV: u16 = 25;

pub const BUILTIN_MEMBER: u16 = 26;

pub const BUILTIN_ASSQ: u16 = 27;

pub const BUILTIN_ASSV: u16 = 28;

pub const BUILTIN_ASSOC: u16 = 29;

pub const BUILTIN_LIST_COPY: u16 = 30;

pub const BUILTIN_REVERSE: u16 = 31;

pub const BUILTIN_CONS: u16 = 32;

pub const BUILTIN_CAR: u16 = 33;

pub const BUILTIN_CDR: u16 = 34;

pub const BUILTIN_SET_CAR: u16 = 35;

pub const BUILTIN_SET_CDR: u16 = 36;

pub const BUILTIN_PAIR_PREDICATE: u16 = 37;

pub const BUILTIN_LIST_PREDICATE: u16 = 38;

pub const BUILTIN_LENGTH: u16 = 39;

pub const BUILTIN_LIST_TAIL: u16 = 40;

pub const BUILTIN_LIST_REF: u16 = 41;

pub const BUILTIN_NULL_PREDICATE: u16 = 42;

pub const BUILTIN_STRING_PREDICATE: u16 = 43;

pub const BUILTIN_STRING_LENGTH: u16 = 44;

pub const BUILTIN_STRING_REF: u16 = 45;

pub const BUILTIN_DISPLAY: u16 = 46;

pub const BUILTIN_WRITE: u16 = 47;

pub const BUILTIN_NEWLINE: u16 = 48;

pub const BUILTIN_GC_STRESS: u16 = 49;

pub const BUILTIN_VECTOR: u16 = 50;

pub const BUILTIN_VECTOR_PREDICATE: u16 = 51;

pub const BUILTIN_VECTOR_LENGTH: u16 = 52;

pub const BUILTIN_VECTOR_REF: u16 = 53;

pub const BUILTIN_VECTOR_SET: u16 = 54;

pub const BUILTIN_RAISE: u16 = 55;

pub const BUILTIN_ERROR: u16 = 56;

/// The word of a truth value.
pub open spec fn truth(value: bool) -> usize {
    if value {
        BOOL_TRUE
    } else {
        BOOL_FALSE
    }
}

/// The word of a truth value.
pub fn truth_word(value: bool) -> (word: usize)
    ensures
        word == truth(value),
{
    if value {
        BOOL_TRUE
    } else {
        BOOL_FALSE
    }
}

/// The integer of a word.
pub open spec fn fixnum_at(bits: usize) -> Result<int, RuntimeError> {
    if is_fixnum_word(bits) {
        Ok(fixnum_of(bits))
    } else {
        Err(RuntimeError::InvalidObjectKind)
    }
}

fn expect_fixnum(bits: usize) -> (result: Result<i64, RuntimeError>)
    ensures
        match result {
            Ok(value) => fixnum_at(bits) == Ok::<int, RuntimeError>(value as int),
            Err(error) => fixnum_at(bits) == Err::<int, RuntimeError>(error),
        },
{
    match Value::from_bits(bits).decode_fixnum() {
        Some(value) => Ok(value),
        None => Err(RuntimeError::InvalidObjectKind),
    }
}

/// The character of a word.
pub open spec fn char_at(bits: usize) -> Result<char, RuntimeError> {
    match immediate_of(bits) {
        Some(Immediate::Char(value)) => Ok(value),
        _ => Err(RuntimeError::InvalidObjectKind),
    }
}

fn expect_char(bits: usize) -> (result: Result<char, RuntimeError>)
    ensures
        result == char_at(bits),
{
    match Value::from_bits(bits).decode_immediate() {
        Some(Immediate::Char(value)) => Ok(value),
        _ => Err(RuntimeError::InvalidObjectKind),
    }
}

/// The index that a word stands for.
pub open spec fn index_at(bits: usize) -> Result<nat, RuntimeError> {
    match fixnum_at(bits) {
        Err(error) => Err(error),
        Ok(value) => if value < 0 {
            Err(RuntimeError::IndexOutOfBounds)
        } else {
            Ok(value as nat)
        },
    }
}

fn expect_index(bits: usize) -> (result: Result<usize, RuntimeError>)
    ensures
        match result {
            Ok(index) => index_at(bits) == Ok::<nat, RuntimeError>(index as nat),
            Err(error) => index_at(bits) == Err::<nat, RuntimeError>(error),
        },
{
    let value: i64 = expect_fixnum(bits)?;
    if value < 0 {
        return Err(RuntimeError::IndexOutOfBounds);
    }
    Ok(value as usize)
}

/// What an operation is done to.
#[derive(Clone, Copy, PartialEq, Eq, Structural)]
pub enum Arithmetic {
    Add,
    Sub,
    Mul,
    Div,
}

/// Division that rounds toward zero.
pub open spec fn truncated(left: int, right: int) -> int {
    let magnitude = (if left < 0 { -left } else { left }) / (if right < 0 { -right } else { right });
    if (left < 0) == (right < 0) {
        magnitude
    } else {
        -magnitude
    }
}

/// One step of a computation; nothing where there is no result or it is too large.
pub open spec fn combined(operation: Arithmetic, left: int, right: int) -> Option<int> {
    if operation is Div && right == 0 {
        None
    } else {
        let result = match operation {
            Arithmetic::Add => left + right,
            Arithmetic::Sub => left - right,
            Arithmetic::Mul => left * right,
            Arithmetic::Div => truncated(left, right),
        };
        if i64::MIN <= result <= i64::MAX {
            Some(result)
        } else {
            None
        }
    }
}

fn combine(operation: Arithmetic, left: i64, right: i64) -> (result: Option<i64>)
    ensures
        match result {
            Some(value) => combined(operation, left as int, right as int) == Some(value as int),
            None => combined(operation, left as int, right as int) is None,
        },
{
    match operation {
        Arithmetic::Add => left.checked_add(right),
        Arithmetic::Sub => left.checked_sub(right),
        Arithmetic::Mul => left.checked_mul(right),
        Arithmetic::Div => {
            if right == 0 {
                return None;
            }
            let left_size: u128 = if left < 0 {
                (-(left as i128)) as u128
            } else {
                left as u128
            };
            let right_size: u128 = if right < 0 {
                (-(right as i128)) as u128
            } else {
                right as u128
            };
            let size: u128 = left_size / right_size;
            assert(size <= left_size) by (nonlinear_arith)
                requires
                    size == left_size / right_size,
                    right_size >= 1,
            ;
            if (left < 0) == (right < 0) {
                if size > 0x7fff_ffff_ffff_ffff {
                    return None;
                }
                Some(size as i64)
            } else {
                Some((-(size as i128)) as i64)
            }
        },
    }
}

/// A computation over the arguments from one on.
pub open spec fn folded(operation: Arithmetic, args: Seq<usize>, index: nat, total: int) -> Result<int, RuntimeError>
    decreases args.len() - index,
{
    if index >= args.len() {
        Ok(total)
    } else {
        match fixnum_at(args[index as int]) {
            Err(error) => Err(error),
            Ok(value) => match combined(operation, total, value) {
                None => Err(RuntimeError::FixnumOutOfRange),
                Some(total) => folded(operation, args, index + 1, total),
            },
        }
    }
}

fn fold(operation: Arithmetic, args: &Vec<usize>, start: usize, initial: i64) -> (result: Result<i64, RuntimeError>)
    requires
        start <= args@.len(),
    ensures
        match result {
            Ok(total) => folded(operation, args@, start as nat, initial as int) == Ok::<int, RuntimeError>(
                total as int,
            ),
            Err(error) => folded(operation, args@, start as nat, initial as int) == Err::<int, RuntimeError>(
                error,
            ),
        },
{
    let mut total: i64 = initial;
    let mut index: usize = start;
    while index < args.len()
        invariant
            index <= args@.len(),
            folded(operation, args@, start as nat, initial as int) == folded(
                operation,
                args@,
                index as nat,
                total as int,
            ),
        decreases args@.len() - index,
    {
        let value: i64 = expect_fixnum(args[index])?;
        match combine(operation, total, value) {
            None => {
                return Err(RuntimeError::FixnumOutOfRange);
            },
            Some(next) => {
                total = next;
            },
        }
        index = index + 1;
    }
    Ok(total)
}

/// A number as a result.
pub open spec fn numeric(result: Result<int, RuntimeError>) -> Result<usize, RuntimeError> {
    match result {
        Err(error) => Err(error),
        Ok(value) => encoded(value),
    }
}

/// What `+`, `-`, `*` and `/` come to.
#[verifier::opaque]
pub open spec fn arithmetic_result(id: u16, args: Seq<usize>) -> Result<usize, RuntimeError> {
    if id == BUILTIN_ADD {
        numeric(folded(Arithmetic::Add, args, 0, 0))
    } else if id == BUILTIN_MUL {
        numeric(folded(Arithmetic::Mul, args, 0, 1))
    } else if args.len() == 0 || (id == BUILTIN_DIV && args.len() == 1) {
        Err(RuntimeError::InvalidObjectKind)
    } else {
        match fixnum_at(args[0]) {
            Err(error) => Err(error),
            Ok(first) => if id == BUILTIN_DIV {
                numeric(folded(Arithmetic::Div, args, 1, first))
            } else if args.len() == 1 {
                encoded(-first)
            } else {
                numeric(folded(Arithmetic::Sub, args, 1, first))
            },
        }
    }
}

fn apply_arithmetic(id: u16, args: &Vec<usize>) -> (result: Result<usize, RuntimeError>)
    ensures
        result == arithmetic_result(id, args@),
{
    reveal(arithmetic_result);
    if id == BUILTIN_ADD {
        let total: i64 = fold(Arithmetic::Add, args, 0, 0)?;
        return encode(total);
    }
    if id == BUILTIN_MUL {
        let total: i64 = fold(Arithmetic::Mul, args, 0, 1)?;
        return encode(total);
    }
    if args.len() == 0 || (id == BUILTIN_DIV && args.len() == 1) {
        return Err(RuntimeError::InvalidObjectKind);
    }
    let first: i64 = expect_fixnum(args[0])?;
    if id == BUILTIN_DIV {
        let total: i64 = fold(Arithmetic::Div, args, 1, first)?;
        return encode(total);
    }
    if args.len() == 1 {
        return encode(-first);
    }
    let total: i64 = fold(Arithmetic::Sub, args, 1, first)?;
    encode(total)
}

/// Whether two characters are in the order that a comparison asks for.
pub open spec fn chars_in_order(id: u16, left: char, right: char) -> bool {
    if id == BUILTIN_CHAR_EQ {
        left == right
    } else if id == BUILTIN_CHAR_LT {
        (left as int) < (right as int)
    } else if id == BUILTIN_CHAR_GT {
        left as int > right as int
    } else if id == BUILTIN_CHAR_LE {
        left as int <= right as int
    } else {
        left as int >= right as int
    }
}

/// Whether the characters from one on are in order. The first that is not ends the comparison.
pub open spec fn chars_from(id: u16, args: Seq<usize>, index: nat, previous: char) -> Result<bool, RuntimeError>
    decreases args.len() - index,
{
    if index >= args.len() {
        Ok(true)
    } else {
        match char_at(args[index as int]) {
            Err(error) => Err(error),
            Ok(current) => if chars_in_order(id, previous, current) {
                chars_from(id, args, index + 1, current)
            } else {
                Ok(false)
            },
        }
    }
}

/// What a comparison of characters comes to.
#[verifier::opaque]
pub open spec fn char_comparison(id: u16, args: Seq<usize>) -> Result<usize, RuntimeError> {
    if args.len() < 2 {
        Err(RuntimeError::InvalidObjectKind)
    } else {
        match char_at(args[0]) {
            Err(error) => Err(error),
            Ok(first) => match chars_from(id, args, 1, first) {
                Err(error) => Err(error),
                Ok(ordered) => Ok(truth(ordered)),
            },
        }
    }
}

fn in_order(id: u16, left: char, right: char) -> (result: bool)
    ensures
        result == chars_in_order(id, left, right),
{
    let a: u32 = left as u32;
    let b: u32 = right as u32;
    if id == BUILTIN_CHAR_EQ {
        a == b
    } else if id == BUILTIN_CHAR_LT {
        a < b
    } else if id == BUILTIN_CHAR_GT {
        a > b
    } else if id == BUILTIN_CHAR_LE {
        a <= b
    } else {
        a >= b
    }
}

fn apply_char_comparison(id: u16, args: &Vec<usize>) -> (result: Result<usize, RuntimeError>)
    ensures
        result == char_comparison(id, args@),
{
    reveal(char_comparison);
    if args.len() < 2 {
        return Err(RuntimeError::InvalidObjectKind);
    }
    let first: char = expect_char(args[0])?;
    let mut previous: char = first;
    let mut index: usize = 1;
    while index < args.len()
        invariant
            2 <= args@.len(),
            index <= args@.len(),
            char_at(args@[0]) == Ok::<char, RuntimeError>(first),
            chars_from(id, args@, 1, first) == chars_from(id, args@, index as nat, previous),
        decreases args@.len() - index,
    {
        reveal(char_comparison);
        let current: char = expect_char(args[index])?;
        if !in_order(id, previous, current) {
            return Ok(BOOL_FALSE);
        }
        previous = current;
        index = index + 1;
    }
    Ok(BOOL_TRUE)
}

/// The character with a number.
#[verifier::opaque]
pub open spec fn char_numbered(bits: usize) -> Result<usize, RuntimeError> {
    match fixnum_at(bits) {
        Err(error) => Err(error),
        Ok(value) => if is_scalar_value(value) {
            Ok(char_bits(value as char) as usize)
        } else {
            Err(RuntimeError::InvalidObjectKind)
        },
    }
}

fn integer_to_char(bits: usize) -> (result: Result<usize, RuntimeError>)
    ensures
        result == char_numbered(bits),
{
    reveal(char_numbered);
    let value: i64 = expect_fixnum(bits)?;
    if value < 0 || value > 0x10ffff {
        return Err(RuntimeError::InvalidObjectKind);
    }
    match std::char::from_u32(value as u32) {
        Some(ch) => Ok(Value::encode_char(ch).bits()),
        None => Err(RuntimeError::InvalidObjectKind),
    }
}

/// How many arguments a built-in procedure takes, where it takes a fixed number.
pub open spec fn fixed_arity(id: u16) -> Option<nat> {
    if id == BUILTIN_NEWLINE {
        Some(0)
    } else if id == BUILTIN_EQ || id == BUILTIN_EQV || id == BUILTIN_EQUAL || id == BUILTIN_MEMQ || id == BUILTIN_MEMV
        || id == BUILTIN_MEMBER || id == BUILTIN_ASSQ || id == BUILTIN_ASSV || id == BUILTIN_ASSOC || id
        == BUILTIN_CONS || id == BUILTIN_SET_CAR || id == BUILTIN_SET_CDR || id == BUILTIN_LIST_TAIL || id
        == BUILTIN_LIST_REF || id == BUILTIN_STRING_REF || id == BUILTIN_VECTOR_REF {
        Some(2)
    } else if id == BUILTIN_VECTOR_SET {
        Some(3)
    } else if id <= BUILTIN_DIV || (BUILTIN_CHAR_EQ <= id <= BUILTIN_CHAR_GE) || id == BUILTIN_LIST || id
        == BUILTIN_APPEND || id == BUILTIN_VECTOR || id >= BUILTIN_ERROR {
        None
    } else {
        Some(1)
    }
}

fn has_arity(id: u16, count: usize) -> (result: bool)
    ensures
        result == (match fixed_arity(id) {
            Some(arity) => arity == count,
            None => true,
        }),
{
    if id == BUILTIN_NEWLINE {
        count == 0
    } else if id == BUILTIN_EQ || id == BUILTIN_EQV || id == BUILTIN_EQUAL || id == BUILTIN_MEMQ || id == BUILTIN_MEMV
        || id == BUILTIN_MEMBER || id == BUILTIN_ASSQ || id == BUILTIN_ASSV || id == BUILTIN_ASSOC || id
        == BUILTIN_CONS || id == BUILTIN_SET_CAR || id == BUILTIN_SET_CDR || id == BUILTIN_LIST_TAIL || id
        == BUILTIN_LIST_REF || id == BUILTIN_STRING_REF || id == BUILTIN_VECTOR_REF {
        count == 2
    } else if id == BUILTIN_VECTOR_SET {
        count == 3
    } else if id <= BUILTIN_DIV || (BUILTIN_CHAR_EQ <= id && id <= BUILTIN_CHAR_GE) || id == BUILTIN_LIST || id
        == BUILTIN_APPEND || id == BUILTIN_VECTOR || id >= BUILTIN_ERROR {
        true
    } else {
        count == 1
    }
}

/// Whether a word is an immediate of a kind that a predicate asks for, or refers to an object of
/// such a kind.
#[verifier::opaque]
pub open spec fn predicate_holds(objects: Map<usize, Thing>, id: u16, bits: usize) -> bool {
    if id == BUILTIN_NOT {
        immediate_of(bits) == Some(Immediate::Bool(false))
    } else if id == BUILTIN_BOOLEAN_PREDICATE {
        immediate_of(bits) matches Some(Immediate::Bool(_))
    } else if id == BUILTIN_CHAR_PREDICATE {
        immediate_of(bits) matches Some(Immediate::Char(_))
    } else if id == BUILTIN_NULL_PREDICATE {
        immediate_of(bits) == Some(Immediate::EmptyList)
    } else if id == BUILTIN_SYMBOL_PREDICATE {
        tag_at(objects, bits) == Some(HEADER_TAG_SYMBOL)
    } else if id == BUILTIN_PAIR_PREDICATE {
        tag_at(objects, bits) == Some(HEADER_TAG_PAIR)
    } else if id == BUILTIN_STRING_PREDICATE {
        tag_at(objects, bits) == Some(HEADER_TAG_STRING)
    } else if id == BUILTIN_VECTOR_PREDICATE {
        tag_at(objects, bits) == Some(HEADER_TAG_VECTOR)
    } else {
        false
    }
}

/// Whether a procedure only looks at one argument and answers yes or no.
pub open spec fn is_predicate(id: u16) -> bool {
    id == BUILTIN_NOT || id == BUILTIN_BOOLEAN_PREDICATE || id == BUILTIN_CHAR_PREDICATE || id
        == BUILTIN_NULL_PREDICATE || id == BUILTIN_SYMBOL_PREDICATE || id == BUILTIN_PAIR_PREDICATE || id
        == BUILTIN_STRING_PREDICATE || id == BUILTIN_VECTOR_PREDICATE || id == BUILTIN_PROCEDURE_PREDICATE
}

/// A result, or that there is none.
pub open spec fn or_unspecified(result: Result<usize, RuntimeError>) -> usize {
    match result {
        Ok(value) => value,
        Err(_) => UNSPECIFIED,
    }
}

/// What a procedure comes to that only reads values, where it has the right number of arguments.
#[verifier::opaque]
pub open spec fn reading_result(objects: Map<usize, Thing>, id: u16, args: Seq<usize>) -> Result<usize, RuntimeError> {
    if id == BUILTIN_ZERO_PREDICATE {
        match fixnum_at(args[0]) {
            Err(error) => Err(error),
            Ok(value) => Ok(truth(value == 0)),
        }
    } else if id == BUILTIN_CHAR_TO_INTEGER {
        match char_at(args[0]) {
            Err(error) => Err(error),
            Ok(value) => encoded(value as int),
        }
    } else if id == BUILTIN_INTEGER_TO_CHAR {
        char_numbered(args[0])
    } else if id == BUILTIN_EQ || id == BUILTIN_EQV {
        Ok(truth(args[0] == args[1]))
    } else if id == BUILTIN_EQUAL {
        Ok(truth(equal_contents(objects, args[0], args[1])))
    } else if id == BUILTIN_MEMQ || id == BUILTIN_MEMV || id == BUILTIN_MEMBER {
        member_found(objects, args[0], args[1], id == BUILTIN_MEMBER)
    } else if id == BUILTIN_ASSQ || id == BUILTIN_ASSV || id == BUILTIN_ASSOC {
        assoc_found(objects, args[0], args[1], id == BUILTIN_ASSOC)
    } else if id == BUILTIN_CAR {
        match pair_at(objects, args[0]) {
            Some((car, cdr)) => Ok(car),
            None => Err(RuntimeError::InvalidObjectKind),
        }
    } else if id == BUILTIN_CDR {
        match pair_at(objects, args[0]) {
            Some((car, cdr)) => Ok(cdr),
            None => Err(RuntimeError::InvalidObjectKind),
        }
    } else if id == BUILTIN_LIST_PREDICATE {
        Ok(truth(elements_of(objects, args[0]) is Ok))
    } else if id == BUILTIN_LENGTH {
        match elements_of(objects, args[0]) {
            Err(error) => Err(error),
            Ok(elements) => encoded(elements.len() as int),
        }
    } else if id == BUILTIN_STRING_LENGTH {
        Ok(or_unspecified(string_length(objects, args[0])))
    } else if id == BUILTIN_VECTOR_LENGTH {
        Ok(or_unspecified(vector_length(objects, args[0])))
    } else {
        match index_at(args[1]) {
            Err(error) => Err(error),
            Ok(index) => if id == BUILTIN_LIST_TAIL {
                tail_of(objects, args[0], index)
            } else if id == BUILTIN_LIST_REF {
                element_of(objects, args[0], index)
            } else if id == BUILTIN_STRING_REF {
                Ok(or_unspecified(string_byte(objects, args[0], index)))
            } else {
                Ok(or_unspecified(vector_element(objects, args[0], index)))
            },
        }
    }
}

/// Whether a procedure only reads values.
pub open spec fn is_reading(id: u16) -> bool {
    id == BUILTIN_ZERO_PREDICATE || id == BUILTIN_CHAR_TO_INTEGER || id == BUILTIN_INTEGER_TO_CHAR || (BUILTIN_EQ <= id
        <= BUILTIN_EQUAL) || (BUILTIN_MEMQ <= id <= BUILTIN_ASSOC) || id == BUILTIN_CAR || id == BUILTIN_CDR || (
    BUILTIN_LIST_PREDICATE <= id <= BUILTIN_LIST_REF) || id == BUILTIN_STRING_LENGTH || id == BUILTIN_STRING_REF || id
        == BUILTIN_VECTOR_LENGTH || id == BUILTIN_VECTOR_REF
}

/// Whether reading comes to an end.
pub open spec fn reading_ends(objects: Map<usize, Thing>, id: u16, args: Seq<usize>) -> bool {
    if id == BUILTIN_EQUAL {
        comparison_ends(objects, args[0], args[1])
    } else if id == BUILTIN_MEMQ || id == BUILTIN_MEMV || id == BUILTIN_MEMBER {
        member_search_ends(objects, args[0], args[1], id == BUILTIN_MEMBER)
    } else if id == BUILTIN_ASSQ || id == BUILTIN_ASSV || id == BUILTIN_ASSOC {
        assoc_search_ends(objects, args[0], args[1], id == BUILTIN_ASSOC)
    } else if id == BUILTIN_LIST_PREDICATE || id == BUILTIN_LENGTH {
        chain_ends(objects, args[0])
    } else {
        true
    }
}

/// All of the first `count` lists before `result`.
pub open spec fn all_appended(world: World, args: Seq<usize>, count: nat, result: usize) -> Outcome<usize>
    decreases count,
{
    if count == 0 {
        (world, Ok(result))
    } else {
        match appended(world, args[count - 1], result) {
            (world, Err(error)) => (world, Err(error)),
            (world, Ok(result)) => all_appended(world, args, (count - 1) as nat, result),
        }
    }
}

/// Whether appending comes to an end.
pub open spec fn appending_ends(world: World, args: Seq<usize>, count: nat, result: usize) -> bool
    decreases count,
{
    count == 0 || (chain_ends(world.objects, args[count - 1]) && match appended(world, args[count - 1], result) {
        (world, Err(error)) => true,
        (world, Ok(result)) => appending_ends(world, args, (count - 1) as nat, result),
    })
}

/// A list that describes an error: the symbol `error` and the arguments.
#[verifier::opaque]
pub open spec fn error_made(world: World, args: Seq<usize>) -> Outcome<usize> {
    match with_symbol(world, encode_utf8("error"@)) {
        (world, Err(error)) => (world, Err(error)),
        (world, Ok(symbol)) => list_made(world, seq![symbol] + args, EMPTY_LIST),
    }
}

/// A call whose failure does not show.
pub open spec fn unfailing(outcome: Outcome<usize>) -> Outcome<usize> {
    (outcome.0, Ok(or_unspecified(outcome.1)))
}

/// What comes behind what was written before.
pub open spec fn shown(world: World, bits: usize, quoted: bool) -> Outcome<usize> {
    let text = text_of(world.objects, bits, quoted);
    (
        World { output: world.output + text.bytes, ..world },
        if text.complete { Ok(UNSPECIFIED) } else { Err(RuntimeError::InvalidObjectKind) },
    )
}

/// The state after a round of allocation: it makes a string, a vector with the string and the
/// number of the round, and a pair with both.
pub open spec fn stress_round(world: World, round: nat) -> Outcome<()> {
    match encoded(round as int) {
        Err(error) => (world, Err(error)),
        Ok(number) => match allocated(world, Thing::Text(encode_utf8("gc"@))) {
            (world, Err(error)) => (world, Err(error)),
            (world, Ok(text)) => match allocated_row(world, 3, Thing::Vector(seq![number, text, EMPTY_LIST])) {
                (world, Err(error)) => (world, Err(error)),
                (world, Ok(vector)) => match allocated_rooted(world, Thing::Pair { car: vector, cdr: text }) {
                    (world, Err(error)) => (world, Err(error)),
                    (world, Ok(_)) => (world, Ok(())),
                },
            },
        },
    }
}

/// The state after as many rounds of allocation as were asked for, from one on.
pub open spec fn stressed_from(world: World, round: nat, rounds: nat) -> Outcome<()>
    decreases rounds - round,
{
    if round >= rounds {
        (world, Ok(()))
    } else {
        match stress_round(world, round) {
            (world, Err(error)) => (world, Err(error)),
            (world, Ok(_)) => stressed_from(world, round + 1, rounds),
        }
    }
}

/// The state after rounds of allocation by a bound thread.
#[verifier::opaque]
pub open spec fn stressed(world: World, rounds: nat) -> Outcome<()> {
    if world.current == 0 {
        (world, Err(RuntimeError::ThreadNotBound))
    } else {
        stressed_from(world, 0, rounds)
    }
}

/// What a procedure comes to that changes the state.
#[verifier::opaque]
pub open spec fn changing_result(world: World, id: u16, args: Seq<usize>) -> Outcome<usize> {
    if id == BUILTIN_SYMBOL_TO_STRING {
        unfailing(symbol_named(world, args[0]))
    } else if id == BUILTIN_STRING_TO_SYMBOL {
        unfailing(string_interned(world, args[0]))
    } else if id == BUILTIN_LIST {
        list_made(world, args, EMPTY_LIST)
    } else if id == BUILTIN_APPEND {
        if args.len() == 0 {
            (world, Ok(EMPTY_LIST))
        } else {
            all_appended(world, args, (args.len() - 1) as nat, args.last())
        }
    } else if id == BUILTIN_LIST_COPY {
        list_copied(world, args[0])
    } else if id == BUILTIN_REVERSE {
        list_reversed(world, args[0])
    } else if id == BUILTIN_CONS {
        allocated_rooted(world, Thing::Pair { car: args[0], cdr: args[1] })
    } else if id == BUILTIN_SET_CAR {
        unfailing(car_changed(world, args[0], args[1]))
    } else if id == BUILTIN_SET_CDR {
        unfailing(cdr_changed(world, args[0], args[1]))
    } else if id == BUILTIN_DISPLAY {
        shown(world, args[0], false)
    } else if id == BUILTIN_WRITE {
        shown(world, args[0], true)
    } else if id == BUILTIN_NEWLINE {
        (World { output: world.output + encode_utf8("\n"@), ..world }, Ok(UNSPECIFIED))
    } else if id == BUILTIN_GC_STRESS {
        match fixnum_at(args[0]) {
            Err(error) => (world, Err(error)),
            Ok(rounds) => after_write(
                stressed(world, if rounds < 0 { (rounds + usize::MAX + 1) as nat } else { rounds as nat }),
                UNSPECIFIED,
            ),
        }
    } else if id == BUILTIN_VECTOR {
        allocated_row(world, args.len(), Thing::Vector(args))
    } else if id == BUILTIN_VECTOR_SET {
        match index_at(args[1]) {
            Err(error) => (world, Err(error)),
            Ok(index) => unfailing(vector_changed(world, args[0], index, args[2])),
        }
    } else if id == BUILTIN_RAISE {
        after_write(raised(world, args[0]), UNSPECIFIED)
    } else if id == BUILTIN_ERROR {
        if args.len() == 0 {
            (world, Err(RuntimeError::InvalidArgument))
        } else {
            match error_made(world, args) {
                (world, Err(error)) => (world, Err(error)),
                (world, Ok(value)) => after_write(raised(world, value), UNSPECIFIED),
            }
        }
    } else {
        (world, Err(RuntimeError::InvalidObjectKind))
    }
}

/// Whether a procedure that changes the state comes to an end.
pub open spec fn changing_ends(world: World, id: u16, args: Seq<usize>) -> bool {
    if id == BUILTIN_APPEND {
        args.len() == 0 || appending_ends(world, args, (args.len() - 1) as nat, args.last())
    } else if id == BUILTIN_LIST_COPY || id == BUILTIN_REVERSE {
        chain_ends(world.objects, args[0])
    } else if id == BUILTIN_DISPLAY {
        text_ends(world.objects, args[0], false)
    } else if id == BUILTIN_WRITE {
        text_ends(world.objects, args[0], true)
    } else {
        true
    }
}

/// What a built-in procedure comes to.
pub open spec fn builtin_result(world: World, id: u16, args: Seq<usize>) -> Outcome<usize> {
    if fixed_arity(id) is Some && fixed_arity(id)->0 != args.len() {
        (world, Err(RuntimeError::InvalidObjectKind))
    } else if id <= BUILTIN_DIV {
        (world, arithmetic_result(id, args))
    } else if BUILTIN_CHAR_EQ <= id <= BUILTIN_CHAR_GE {
        (world, char_comparison(id, args))
    } else if is_predicate(id) {
        (world, Ok(truth(predicate_holds(world.objects, id, args[0]))))
    } else if is_reading(id) {
        (world, reading_result(world.objects, id, args))
    } else {
        changing_result(world, id, args)
    }
}

/// Whether a built-in procedure comes to an end.
pub open spec fn builtin_ends(world: World, id: u16, args: Seq<usize>) -> bool {
    if fixed_arity(id) is Some && fixed_arity(id)->0 != args.len() {
        true
    } else if is_reading(id) {
        reading_ends(world.objects, id, args)
    } else {
        changing_ends(world, id, args)
    }
}

/// What a built-in procedure comes to that is called with a list of arguments.
#[verifier::opaque]
pub open spec fn builtin_applied(world: World, id: u16, list: usize) -> Outcome<usize> {
    match elements_of(world.objects, list) {
        Err(error) => (world, Err(error)),
        Ok(args) => builtin_result(world, id, args),
    }
}

/// Whether a built-in procedure that is called with a list of arguments comes to an end.
pub open spec fn application_ends(world: World, id: u16, list: usize) -> bool {
    chain_ends(world.objects, list) && match elements_of(world.objects, list) {
        Err(error) => true,
        Ok(args) => builtin_ends(world, id, args),
    }
}

fn is_reading_id(id: u16) -> (result: bool)
    ensures
        result == is_reading(id),
{
    id == BUILTIN_ZERO_PREDICATE || id == BUILTIN_CHAR_TO_INTEGER || id == BUILTIN_INTEGER_TO_CHAR || (BUILTIN_EQ <= id
        && id <= BUILTIN_EQUAL) || (BUILTIN_MEMQ <= id && id <= BUILTIN_ASSOC) || id == BUILTIN_CAR || id
        == BUILTIN_CDR || (BUILTIN_LIST_PREDICATE <= id && id <= BUILTIN_LIST_REF) || id == BUILTIN_STRING_LENGTH || id
        == BUILTIN_STRING_REF || id == BUILTIN_VECTOR_LENGTH || id == BUILTIN_VECTOR_REF
}

fn is_predicate_id(id: u16) -> (result: bool)
    ensures
        result == is_predicate(id),
{
    id == BUILTIN_NOT || id == BUILTIN_BOOLEAN_PREDICATE || id == BUILTIN_CHAR_PREDICATE || id
        == BUILTIN_NULL_PREDICATE || id == BUILTIN_SYMBOL_PREDICATE || id == BUILTIN_PAIR_PREDICATE || id
        == BUILTIN_STRING_PREDICATE || id == BUILTIN_VECTOR_PREDICATE || id == BUILTIN_PROCEDURE_PREDICATE
}

fn value_or_unspecified(result: Result<usize, RuntimeError>) -> (value: usize)
    ensures
        value == or_unspecified(result),
{
    match result {
        Ok(value) => value,
        Err(_) => UNSPECIFIED,
    }
}

impl Runtime {
    /// Whether a word refers to an object with a tag.
    pub fn has_tag(&self, bits: usize, tag: u16) -> (result: bool)
        requires
            self@.well_formed(),
        ensures
            result == (tag_at(self@.objects, bits) == Some(tag)),
    {
        match self.object_kind(bits) {
            Ok(found) => found == tag,
            Err(_) => false,
        }
    }

    fn apply_predicate(&self, id: u16, bits: usize) -> (result: bool)
        requires
            self@.well_formed(),
        ensures
            result == predicate_holds(self@.objects, id, bits),
    {
        reveal(predicate_holds);
        let immediate = Value::from_bits(bits).decode_immediate();
        if id == BUILTIN_NOT {
            immediate == Some(Immediate::Bool(false))
        } else if id == BUILTIN_BOOLEAN_PREDICATE {
            matches!(immediate, Some(Immediate::Bool(_)))
        } else if id == BUILTIN_CHAR_PREDICATE {
            matches!(immediate, Some(Immediate::Char(_)))
        } else if id == BUILTIN_NULL_PREDICATE {
            immediate == Some(Immediate::EmptyList)
        } else if id == BUILTIN_SYMBOL_PREDICATE {
            self.has_tag(bits, HEADER_TAG_SYMBOL)
        } else if id == BUILTIN_PAIR_PREDICATE {
            self.has_tag(bits, HEADER_TAG_PAIR)
        } else if id == BUILTIN_STRING_PREDICATE {
            self.has_tag(bits, HEADER_TAG_STRING)
        } else if id == BUILTIN_VECTOR_PREDICATE {
            self.has_tag(bits, HEADER_TAG_VECTOR)
        } else {
            false
        }
    }

    fn apply_reading(&self, id: u16, args: &Vec<usize>) -> (result: Result<usize, RuntimeError>)
        requires
            self@.well_formed(),
            is_reading(id),
            fixed_arity(id) == Some(args@.len()),
            reading_ends(self@.objects, id, args@),
        ensures
            result == reading_result(self@.objects, id, args@),
    {
        reveal(reading_result);
        if id == BUILTIN_ZERO_PREDICATE {
            let value: i64 = expect_fixnum(args[0])?;
            return Ok(truth_word(value == 0));
        }
        if id == BUILTIN_CHAR_TO_INTEGER {
            let value: char = expect_char(args[0])?;
            return encode(value as u32 as i64);
        }
        if id == BUILTIN_INTEGER_TO_CHAR {
            return integer_to_char(args[0]);
        }
        if id == BUILTIN_EQ || id == BUILTIN_EQV {
            return Ok(truth_word(args[0] == args[1]));
        }
        if id == BUILTIN_EQUAL {
            return Ok(truth_word(self.equal_value(args[0], args[1])));
        }
        if id == BUILTIN_MEMQ || id == BUILTIN_MEMV || id == BUILTIN_MEMBER {
            return self.member_with(args[0], args[1], id == BUILTIN_MEMBER);
        }
        if id == BUILTIN_ASSQ || id == BUILTIN_ASSV || id == BUILTIN_ASSOC {
            return self.assoc_with(args[0], args[1], id == BUILTIN_ASSOC);
        }
        if id == BUILTIN_CAR {
            return match self.pair(args[0]) {
                Some((car, _)) => Ok(car),
                None => Err(RuntimeError::InvalidObjectKind),
            };
        }
        if id == BUILTIN_CDR {
            return match self.pair(args[0]) {
                Some((_, cdr)) => Ok(cdr),
                None => Err(RuntimeError::InvalidObjectKind),
            };
        }
        if id == BUILTIN_LIST_PREDICATE {
            return Ok(truth_word(self.is_proper_list(args[0])));
        }
        if id == BUILTIN_LENGTH {
            let length: usize = self.proper_list_length(args[0])?;
            return encode_length(length);
        }
        if id == BUILTIN_STRING_LENGTH {
            return Ok(value_or_unspecified(self.string_length(args[0])));
        }
        if id == BUILTIN_VECTOR_LENGTH {
            return Ok(value_or_unspecified(self.vector_length(args[0])));
        }
        let index: usize = expect_index(args[1])?;
        if id == BUILTIN_LIST_TAIL {
            self.list_tail_value(args[0], index)
        } else if id == BUILTIN_LIST_REF {
            self.list_ref_value(args[0], index)
        } else if id == BUILTIN_STRING_REF {
            Ok(value_or_unspecified(self.string_ref(args[0], index)))
        } else {
            Ok(value_or_unspecified(self.vector_ref(args[0], index)))
        }
    }

    fn append_all(&mut self, args: &Vec<usize>) -> (result: Result<usize, RuntimeError>)
        requires
            old(self)@.well_formed(),
            args@.len() == 0 || appending_ends(old(self)@, args@, (args@.len() - 1) as nat, args@.last()),
        ensures
            final(self)@.well_formed(),
            (final(self)@, result) == (if args@.len() == 0 {
                (old(self)@, Ok::<usize, RuntimeError>(EMPTY_LIST))
            } else {
                all_appended(old(self)@, args@, (args@.len() - 1) as nat, args@.last())
            }),
    {
        if args.len() == 0 {
            return Ok(EMPTY_LIST);
        }
        let mut list: usize = args[args.len() - 1];
        let mut left: usize = args.len() - 1;
        while left > 0
            invariant
                left < args@.len(),
                self@.well_formed(),
                appending_ends(self@, args@, left as nat, list),
                all_appended(old(self)@, args@, (args@.len() - 1) as nat, args@.last()) == all_appended(
                    self@,
                    args@,
                    left as nat,
                    list,
                ),
            decreases left,
        {
            left = left - 1;
            match self.append_two_lists(args[left], list) {
                Ok(next) => {
                    list = next;
                },
                Err(error) => {
                    return Err(error);
                },
            }
        }
        Ok(list)
    }

    /// A list that describes an error: the symbol `error` and the arguments.
    fn make_error_value(&mut self, args: &Vec<usize>) -> (result: Result<usize, RuntimeError>)
        requires
            old(self)@.well_formed(),
        ensures
            final(self)@.well_formed(),
            (final(self)@, result) == error_made(old(self)@, args@),
    {
        reveal(error_made);
        let mut name: Vec<u8> = Vec::new();
        crate::runtime::writer::put_text(&mut name, "error");
        assert(name@ =~= encode_utf8("error"@));
        let symbol: usize = self.intern_symbol(name)?;
        let mut parts: Vec<usize> = copy_words(args);
        parts.insert(0, symbol);
        assert(parts@ =~= seq![symbol] + args@);
        self.make_list(&parts, EMPTY_LIST)
    }

    /// Writes a value behind what was written before.
    pub fn show(&mut self, bits: usize, quoted: bool) -> (result: Result<usize, RuntimeError>)
        requires
            old(self)@.well_formed(),
            text_ends(old(self)@.objects, bits, quoted),
        ensures
            final(self)@.well_formed(),
            (final(self)@, result) == shown(old(self)@, bits, quoted),
    {
        let mut text: Vec<u8> = Vec::new();
        let complete = self.write_value(&mut text, bits, quoted);
        let ghost expected = text_of(self@.objects, bits, quoted);
        assert(text@ =~= expected.bytes);
        self.put_output(text);
        if complete {
            Ok(UNSPECIFIED)
        } else {
            Err(RuntimeError::InvalidObjectKind)
        }
    }

    /// Puts bytes behind what was written before.
    pub fn put_output(&mut self, bytes: Vec<u8>)
        requires
            old(self)@.well_formed(),
        ensures
            final(self)@.well_formed(),
            final(self)@ == (World { output: old(self)@.output + bytes@, ..old(self)@ }),
    {
        let mut bytes = bytes;
        let ghost added = bytes@;
        self.output.append(&mut bytes);
        assert(self@ == (World { output: old(self)@.output + added, ..old(self)@ }));
    }

    /// Makes the objects of one round of allocation and keeps none.
    pub fn gc_stress_round(&mut self, round: usize) -> (result: Result<(), RuntimeError>)
        requires
            old(self)@.well_formed(),
        ensures
            final(self)@.well_formed(),
            (final(self)@, result) == stress_round(old(self)@, round as nat),
    {
        let number: usize = encode_length(round)?;
        let mut name: Vec<u8> = Vec::new();
        crate::runtime::writer::put_text(&mut name, "gc");
        assert(name@ =~= encode_utf8("gc"@));
        let text: usize = self.alloc_string_checked(name)?;
        let elements: Vec<usize> = vec![number, text, EMPTY_LIST];
        assert(elements@ =~= seq![number, text, EMPTY_LIST]);
        let vector: usize = self.alloc_vector_checked(elements)?;
        self.alloc_pair_checked(vector, text)?;
        Ok(())
    }

    /// Makes many objects and keeps none.
    pub fn gc_stress_checked(&mut self, rounds: usize) -> (result: Result<(), RuntimeError>)
        requires
            old(self)@.well_formed(),
        ensures
            final(self)@.well_formed(),
            (final(self)@, result) == stressed(old(self)@, rounds as nat),
    {
        reveal(stressed);
        if self.current == 0 {
            return Err(RuntimeError::ThreadNotBound);
        }
        let mut round: usize = 0;
        while round < rounds
            invariant
                round <= rounds,
                self@.well_formed(),
                stressed_from(old(self)@, 0, rounds as nat) == stressed_from(self@, round as nat, rounds as nat),
                stressed(old(self)@, rounds as nat) == stressed_from(old(self)@, 0, rounds as nat),
            decreases rounds - round,
        {
            self.gc_stress_round(round)?;
            round = round + 1;
        }
        Ok(())
    }

    fn apply_changing(&mut self, id: u16, args: Vec<usize>) -> (result: Result<usize, RuntimeError>)
        requires
            old(self)@.well_formed(),
            fixed_arity(id) is Some ==> fixed_arity(id) == Some(args@.len()),
            changing_ends(old(self)@, id, args@),
        ensures
            final(self)@.well_formed(),
            (final(self)@, result) == changing_result(old(self)@, id, args@),
    {
        reveal(changing_result);
        if id == BUILTIN_SYMBOL_TO_STRING {
            return Ok(value_or_unspecified(self.symbol_to_string(args[0])));
        }
        if id == BUILTIN_STRING_TO_SYMBOL {
            return Ok(value_or_unspecified(self.string_to_symbol(args[0])));
        }
        if id == BUILTIN_LIST {
            return self.make_list(&args, EMPTY_LIST);
        }
        if id == BUILTIN_APPEND {
            return self.append_all(&args);
        }
        if id == BUILTIN_LIST_COPY {
            return self.copy_list(args[0]);
        }
        if id == BUILTIN_REVERSE {
            return self.reverse_list(args[0]);
        }
        if id == BUILTIN_CONS {
            return self.alloc_pair_checked(args[0], args[1]);
        }
        if id == BUILTIN_SET_CAR {
            return Ok(value_or_unspecified(self.pair_set_car(args[0], args[1])));
        }
        if id == BUILTIN_SET_CDR {
            return Ok(value_or_unspecified(self.pair_set_cdr(args[0], args[1])));
        }
        if id == BUILTIN_DISPLAY {
            return self.show(args[0], false);
        }
        if id == BUILTIN_WRITE {
            return self.show(args[0], true);
        }
        if id == BUILTIN_NEWLINE {
            let mut text: Vec<u8> = Vec::new();
            crate::runtime::writer::put_text(&mut text, "\n");
            assert(text@ =~= encode_utf8("\n"@));
            self.put_output(text);
            return Ok(UNSPECIFIED);
        }
        if id == BUILTIN_GC_STRESS {
            let value: i64 = expect_fixnum(args[0])?;
            let rounds: usize = if value < 0 {
                usize::MAX - ((-(value + 1)) as usize)
            } else {
                value as usize
            };
            self.gc_stress_checked(rounds)?;
            return Ok(UNSPECIFIED);
        }
        if id == BUILTIN_VECTOR {
            return self.alloc_vector_checked(args);
        }
        if id == BUILTIN_VECTOR_SET {
            let index: usize = expect_index(args[1])?;
            return Ok(value_or_unspecified(self.vector_set(args[0], index, args[2])));
        }
        if id == BUILTIN_RAISE {
            self.raise_checked(args[0])?;
            return Ok(UNSPECIFIED);
        }
        if id == BUILTIN_ERROR {
            if args.len() == 0 {
                return Err(RuntimeError::InvalidArgument);
            }
            let value: usize = self.make_error_value(&args)?;
            self.raise_checked(value)?;
            return Ok(UNSPECIFIED);
        }
        Err(RuntimeError::InvalidObjectKind)
    }

    /// Calls a built-in procedure with a list of arguments.
    pub fn apply_builtin_value(&mut self, id: u16, list: usize) -> (result: Result<usize, RuntimeError>)
        requires
            old(self)@.well_formed(),
            application_ends(old(self)@, id, list),
        ensures
            final(self)@.well_formed(),
            (final(self)@, result) == builtin_applied(old(self)@, id, list),
    {
        reveal(builtin_applied);
        let args = self.collect_list_elements(list)?;
        if !has_arity(id, args.len()) {
            return Err(RuntimeError::InvalidObjectKind);
        }
        if id <= BUILTIN_DIV {
            return apply_arithmetic(id, &args);
        }
        if BUILTIN_CHAR_EQ <= id && id <= BUILTIN_CHAR_GE {
            return apply_char_comparison(id, &args);
        }
        if is_predicate_id(id) {
            return Ok(truth_word(self.apply_predicate(id, args[0])));
        }
        if is_reading_id(id) {
            return self.apply_reading(id, &args);
        }
        self.apply_changing(id, args)
    }
}

} // verus!
