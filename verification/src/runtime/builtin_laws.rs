//! What the built-in procedures come to, over the values that their arguments stand for.

use vstd::prelude::*;

use crate::runtime::access::encoded;
use crate::runtime::apply::{
    arithmetic_result, builtin_result, char_at, char_comparison, chars_from, chars_in_order, fixnum_at, folded,
    reading_result, truncated, Arithmetic, BUILTIN_ADD, BUILTIN_ASSQ, BUILTIN_ASSV, BUILTIN_CAR, BUILTIN_CDR,
    BUILTIN_CHAR_EQ, BUILTIN_CHAR_GE, BUILTIN_CHAR_GT, BUILTIN_CHAR_LE, BUILTIN_CHAR_LT,
    BUILTIN_CHAR_TO_INTEGER, BUILTIN_DIV, BUILTIN_EQ, BUILTIN_LENGTH, BUILTIN_LIST_PREDICATE, BUILTIN_LIST_REF,
    BUILTIN_LIST_TAIL, BUILTIN_MEMQ, BUILTIN_MEMV, BUILTIN_MUL, BUILTIN_SUB, BUILTIN_ZERO_PREDICATE,
};
use crate::runtime::compare::{assoc_within, member_within};
use crate::runtime::error::RuntimeError;
use crate::runtime::heap::World;
use crate::runtime::layout::{BOOL_FALSE, BOOL_TRUE, EMPTY_LIST};
use crate::runtime::lists::{elements_of, lemma_spine, pair_at, spine_within, tail_of};
use crate::runtime::object::Thing;

verus! {

/// Whether words are the words of characters.
pub open spec fn stand_for_characters(args: Seq<usize>, chars: Seq<char>) -> bool {
    args.len() == chars.len() && forall|k: int| 0 <= k < args.len() ==> #[trigger] args[k] as int == chars[k] as int * 8 + 4
}

/// Whether words are the words of integers.
pub open spec fn stand_for_integers(args: Seq<usize>, numbers: Seq<int>) -> bool {
    args.len() == numbers.len() && forall|k: int|
        0 <= k < args.len() ==> encoded(numbers[k]) == Ok::<usize, RuntimeError>(#[trigger] args[k])
}

/// The word of a truth value.
pub open spec fn word_of(holds: bool) -> usize {
    if holds {
        BOOL_TRUE
    } else {
        BOOL_FALSE
    }
}

proof fn lemma_character_at(bits: usize, value: char)
    requires
        bits as int == value as int * 8 + 4,
    ensures
        char_at(bits) == Ok::<char, RuntimeError>(value),
{
    assert(bits as int / 8 == value as int);
    assert(bits % 8 == 4);
}

proof fn lemma_integer_at(bits: usize, value: int)
    requires
        encoded(value) == Ok::<usize, RuntimeError>(bits),
    ensures
        fixnum_at(bits) == Ok::<int, RuntimeError>(value),
{
}

proof fn lemma_characters_from(id: u16, args: Seq<usize>, chars: Seq<char>, index: nat)
    requires
        stand_for_characters(args, chars),
        1 <= index <= args.len(),
    ensures
        chars_from(id, args, index, chars[index - 1]) == Ok::<bool, RuntimeError>(
            forall|k: int|
                index <= k < chars.len() ==> chars_in_order(id, #[trigger] chars[k - 1], chars[k]),
        ),
    decreases args.len() - index,
{
    if index < args.len() {
        lemma_character_at(args[index as int], chars[index as int]);
        lemma_characters_from(id, args, chars, index + 1);
        assert(chars[index - 1] == chars[index as int - 1]);
    }
}

/// A comparison of characters holds if each character stands to the next in the relation that the
/// procedure is named after.
pub proof fn lemma_characters_compared(world: World, args: Seq<usize>, chars: Seq<char>)
    requires
        stand_for_characters(args, chars),
        args.len() >= 2,
    ensures
        builtin_result(world, BUILTIN_CHAR_EQ, args) == (
            world,
            Ok::<usize, RuntimeError>(word_of(forall|k: int| 1 <= k < chars.len() ==> #[trigger] chars[k - 1] == chars[k])),
        ),
        builtin_result(world, BUILTIN_CHAR_LT, args) == (
            world,
            Ok::<usize, RuntimeError>(
                word_of(forall|k: int| 1 <= k < chars.len() ==> (#[trigger] chars[k - 1] as int) < chars[k] as int),
            ),
        ),
        builtin_result(world, BUILTIN_CHAR_GT, args) == (
            world,
            Ok::<usize, RuntimeError>(
                word_of(forall|k: int| 1 <= k < chars.len() ==> #[trigger] chars[k - 1] as int > chars[k] as int),
            ),
        ),
        builtin_result(world, BUILTIN_CHAR_LE, args) == (
            world,
            Ok::<usize, RuntimeError>(
                word_of(forall|k: int| 1 <= k < chars.len() ==> #[trigger] chars[k - 1] as int <= chars[k] as int),
            ),
        ),
        builtin_result(world, BUILTIN_CHAR_GE, args) == (
            world,
            Ok::<usize, RuntimeError>(
                word_of(forall|k: int| 1 <= k < chars.len() ==> #[trigger] chars[k - 1] as int >= chars[k] as int),
            ),
        ),
{
    reveal(char_comparison);
    lemma_character_at(args[0], chars[0]);
    lemma_characters_from(BUILTIN_CHAR_EQ, args, chars, 1);
    lemma_characters_from(BUILTIN_CHAR_LT, args, chars, 1);
    lemma_characters_from(BUILTIN_CHAR_GT, args, chars, 1);
    lemma_characters_from(BUILTIN_CHAR_LE, args, chars, 1);
    lemma_characters_from(BUILTIN_CHAR_GE, args, chars, 1);
    assert(chars[1 - 1] == chars[0]);
}

/// Whether a number is a quotient rounded toward zero: the remainder is smaller than the divisor
/// and has the sign of the dividend.
pub open spec fn is_quotient(quotient: int, left: int, right: int) -> bool {
    let rest = left - quotient * right;
    &&& right != 0
    &&& -rest < right || -rest < -right
    &&& rest < right || rest < -right
    &&& rest == 0 || (rest < 0) == (left < 0)
}

proof fn lemma_quotient(quotient: int, left: int, right: int)
    requires
        is_quotient(quotient, left, right),
    ensures
        truncated(left, right) == quotient,
{
    let size = if left < 0 { -left } else { left };
    let divisor = if right < 0 { -right } else { right };
    let rest = left - quotient * right;
    let magnitude = if (left < 0) == (right < 0) { quotient } else { -quotient };
    let left_over = if left < 0 { -rest } else { rest };
    assert(0 <= left_over < divisor);
    assert(size == magnitude * divisor + left_over) by (nonlinear_arith)
        requires
            size == (if left < 0 { -left } else { left }),
            divisor == (if right < 0 { -right } else { right }),
            rest == left - quotient * right,
            magnitude == (if (left < 0) == (right < 0) { quotient } else { -quotient }),
            left_over == (if left < 0 { -rest } else { rest }),
    ;
    vstd::arithmetic::div_mod::lemma_fundamental_div_mod_converse(size, divisor, magnitude, left_over);
}

/// Whether one step of a computation comes to a number.
pub open spec fn steps_to(operation: Arithmetic, left: int, right: int, next: int) -> bool {
    match operation {
        Arithmetic::Add => next == left + right,
        Arithmetic::Sub => next == left - right,
        Arithmetic::Mul => next == left * right,
        Arithmetic::Div => is_quotient(next, left, right),
    }
}

/// Whether numbers are what a computation comes to on its way: each comes from the one before it
/// and the next argument, and none is too large for a machine word.
pub open spec fn are_totals(operation: Arithmetic, numbers: Seq<int>, start: int, totals: Seq<int>) -> bool {
    &&& totals.len() == numbers.len() - start + 1
    &&& forall|k: int|
        1 <= k < totals.len() ==> steps_to(operation, totals[k - 1], numbers[start + k - 1], #[trigger] totals[k])
    &&& forall|k: int| 0 <= k < totals.len() ==> i64::MIN <= #[trigger] totals[k] <= i64::MAX
}

proof fn lemma_folded(
    operation: Arithmetic,
    args: Seq<usize>,
    numbers: Seq<int>,
    start: int,
    totals: Seq<int>,
    at: int,
)
    requires
        stand_for_integers(args, numbers),
        are_totals(operation, numbers, start, totals),
        0 <= start <= numbers.len(),
        0 <= at < totals.len(),
    ensures
        folded(operation, args, (start + at) as nat, totals[at]) == Ok::<int, RuntimeError>(totals.last()),
    decreases totals.len() - at,
{
    if at + 1 < totals.len() {
        let index = start + at;
        lemma_integer_at(args[index], numbers[index]);
        assert(steps_to(operation, totals[at + 1 - 1], numbers[start + (at + 1) - 1], totals[at + 1]));
        if operation is Div {
            lemma_quotient(totals[at + 1], totals[at], numbers[index]);
        }
        lemma_folded(operation, args, numbers, start, totals, at + 1);
    }
}

/// A sum starts at nothing and takes in every argument. The result is an error only where it is too
/// large.
pub proof fn lemma_sum(world: World, args: Seq<usize>, numbers: Seq<int>, totals: Seq<int>)
    requires
        stand_for_integers(args, numbers),
        are_totals(Arithmetic::Add, numbers, 0, totals),
        totals[0] == 0,
    ensures
        builtin_result(world, BUILTIN_ADD, args) == (world, encoded(totals.last())),
{
    reveal(arithmetic_result);
    lemma_folded(Arithmetic::Add, args, numbers, 0, totals, 0);
}

/// A product starts at one and takes in every argument.
pub proof fn lemma_product(world: World, args: Seq<usize>, numbers: Seq<int>, totals: Seq<int>)
    requires
        stand_for_integers(args, numbers),
        are_totals(Arithmetic::Mul, numbers, 0, totals),
        totals[0] == 1,
    ensures
        builtin_result(world, BUILTIN_MUL, args) == (world, encoded(totals.last())),
{
    reveal(arithmetic_result);
    lemma_folded(Arithmetic::Mul, args, numbers, 0, totals, 0);
}

/// A difference starts at the first argument and takes off the others; of one argument it is the
/// negative.
pub proof fn lemma_difference(world: World, args: Seq<usize>, numbers: Seq<int>, totals: Seq<int>)
    requires
        stand_for_integers(args, numbers),
        args.len() >= 1,
        are_totals(Arithmetic::Sub, numbers, 1, totals),
        totals[0] == numbers[0],
    ensures
        builtin_result(world, BUILTIN_SUB, args) == (
            world,
            encoded(if args.len() == 1 { -numbers[0] } else { totals.last() }),
        ),
{
    reveal(arithmetic_result);
    lemma_integer_at(args[0], numbers[0]);
    lemma_folded(Arithmetic::Sub, args, numbers, 1, totals, 0);
}

/// A quotient starts at the first argument and is divided by the others, each time rounded toward
/// zero.
pub proof fn lemma_quotients(world: World, args: Seq<usize>, numbers: Seq<int>, totals: Seq<int>)
    requires
        stand_for_integers(args, numbers),
        args.len() >= 2,
        are_totals(Arithmetic::Div, numbers, 1, totals),
        totals[0] == numbers[0],
    ensures
        builtin_result(world, BUILTIN_DIV, args) == (world, encoded(totals.last())),
{
    reveal(arithmetic_result);
    lemma_integer_at(args[0], numbers[0]);
    lemma_folded(Arithmetic::Div, args, numbers, 1, totals, 0);
}

/// Whether pairs make up a list: each holds an element and leads to the next, and the last leads
/// to the empty list.
pub open spec fn is_spine(objects: Map<usize, Thing>, spine: Seq<usize>, elements: Seq<usize>) -> bool {
    &&& spine.len() == elements.len() + 1
    &&& spine.last() == EMPTY_LIST
    &&& forall|k: int|
        0 <= k < elements.len() ==> spine[k] != EMPTY_LIST && pair_at(objects, spine[k]) == Some(
            (#[trigger] elements[k], spine[k + 1]),
        )
}

/// Whether a value stands first at a place.
pub open spec fn is_first_at(elements: Seq<usize>, target: usize, place: int) -> bool {
    &&& 0 <= place <= elements.len()
    &&& place < elements.len() ==> elements[place] == target
    &&& forall|k: int| 0 <= k < place ==> #[trigger] elements[k] != target
}

proof fn lemma_member_within(
    objects: Map<usize, Thing>,
    spine: Seq<usize>,
    elements: Seq<usize>,
    target: usize,
    place: int,
    at: int,
    limit: nat,
)
    requires
        is_spine(objects, spine, elements),
        is_first_at(elements, target, place),
        0 <= at <= place,
    ensures
        limit > elements.len() - at ==> member_within(objects, target, spine[at], false, limit) is Some,
        member_within(objects, target, spine[at], false, limit) is Some ==> member_within(
            objects,
            target,
            spine[at],
            false,
            limit,
        )->0 == Ok::<usize, RuntimeError>(if place < elements.len() { spine[place] } else { BOOL_FALSE }),
    decreases limit,
{
    if at < elements.len() {
        assert(pair_at(objects, spine[at]) == Some((elements[at], spine[at + 1])));
    }
    if at < place && limit > 0 {
        lemma_member_within(objects, spine, elements, target, place, at + 1, (limit - 1) as nat);
    }
}

/// `memq` and `memv` give the part of a list from the first place on that holds the value, and false where
/// none does.
pub proof fn lemma_member_found(
    world: World,
    args: Seq<usize>,
    spine: Seq<usize>,
    elements: Seq<usize>,
    place: int,
)
    requires
        args.len() == 2,
        args[1] == spine[0],
        is_spine(world.objects, spine, elements),
        is_first_at(elements, args[0], place),
    ensures
        builtin_result(world, BUILTIN_MEMQ, args) == (
            world,
            Ok::<usize, RuntimeError>(if place < elements.len() { spine[place] } else { BOOL_FALSE }),
        ),
        builtin_result(world, BUILTIN_MEMV, args) == builtin_result(world, BUILTIN_MEMQ, args),
{
    reveal(reading_result);
    lemma_member_within(world.objects, spine, elements, args[0], place, 0, elements.len() + 1);
    let limit = choose|limit: nat|
        (#[trigger] member_within(world.objects, args[0], args[1], false, limit)) is Some;
    lemma_member_within(world.objects, spine, elements, args[0], place, 0, limit);
}

proof fn lemma_assoc_within(
    objects: Map<usize, Thing>,
    spine: Seq<usize>,
    elements: Seq<usize>,
    keys: Seq<usize>,
    target: usize,
    place: int,
    at: int,
    limit: nat,
)
    requires
        is_spine(objects, spine, elements),
        are_keys(objects, elements, keys),
        is_first_at(keys, target, place),
        0 <= at <= place,
    ensures
        limit > elements.len() - at ==> assoc_within(objects, target, spine[at], false, limit) is Some,
        assoc_within(objects, target, spine[at], false, limit) is Some ==> assoc_within(
            objects,
            target,
            spine[at],
            false,
            limit,
        )->0 == Ok::<usize, RuntimeError>(if place < elements.len() { elements[place] } else { BOOL_FALSE }),
    decreases limit,
{
    if at < elements.len() {
        assert(pair_at(objects, elements[at]) is Some);
        assert((pair_at(objects, elements[at])->0).0 == keys[at]);
        if limit > 0 && at < place {
            lemma_assoc_within(objects, spine, elements, keys, target, place, at + 1, (limit - 1) as nat);
        }
    }
}

/// Whether the elements of a list are pairs that start with keys.
pub open spec fn are_keys(objects: Map<usize, Thing>, elements: Seq<usize>, keys: Seq<usize>) -> bool {
    elements.len() == keys.len() && forall|k: int|
        0 <= k < elements.len() ==> pair_at(objects, #[trigger] elements[k]) is Some && (pair_at(
            objects,
            elements[k],
        )->0).0 == keys[k]
}

/// `assq` and `assv` give the first pair of a list of pairs that starts with the value, and false
/// where none does.
pub proof fn lemma_association_found(
    world: World,
    args: Seq<usize>,
    spine: Seq<usize>,
    elements: Seq<usize>,
    keys: Seq<usize>,
    place: int,
)
    requires
        args.len() == 2,
        args[1] == spine[0],
        is_spine(world.objects, spine, elements),
        are_keys(world.objects, elements, keys),
        is_first_at(keys, args[0], place),
    ensures
        builtin_result(world, BUILTIN_ASSQ, args) == (
            world,
            Ok::<usize, RuntimeError>(if place < elements.len() { elements[place] } else { BOOL_FALSE }),
        ),
        builtin_result(world, BUILTIN_ASSV, args) == builtin_result(world, BUILTIN_ASSQ, args),
{
    reveal(reading_result);
    lemma_assoc_within(world.objects, spine, elements, keys, args[0], place, 0, elements.len() + 1);
    let limit = choose|limit: nat|
        (#[trigger] assoc_within(world.objects, args[0], args[1], false, limit)) is Some;
    lemma_assoc_within(world.objects, spine, elements, keys, args[0], place, 0, limit);
}

proof fn lemma_spine_read(objects: Map<usize, Thing>, spine: Seq<usize>, elements: Seq<usize>, at: int)
    requires
        is_spine(objects, spine, elements),
        0 <= at <= elements.len(),
    ensures
        spine_within(objects, spine[at], (elements.len() - at) as nat) == Some(
            (elements.subrange(at, elements.len() as int), EMPTY_LIST),
        ),
    decreases elements.len() - at,
{
    let rest = elements.subrange(at, elements.len() as int);
    if at < elements.len() {
        lemma_spine_read(objects, spine, elements, at + 1);
        assert(rest =~= seq![elements[at]] + elements.subrange(at + 1, elements.len() as int));
    } else {
        assert(pair_at(objects, EMPTY_LIST) is None);
        assert(rest =~= Seq::empty());
    }
}

proof fn lemma_tail_read(objects: Map<usize, Thing>, spine: Seq<usize>, elements: Seq<usize>, at: int, index: nat)
    requires
        is_spine(objects, spine, elements),
        0 <= at,
        at + index <= elements.len(),
    ensures
        tail_of(objects, spine[at], index) == Ok::<usize, RuntimeError>(spine[at + index]),
    decreases index,
{
    if index > 0 {
        assert(pair_at(objects, spine[at]) == Some((elements[at], spine[at + 1])));
        lemma_tail_read(objects, spine, elements, at + 1, (index - 1) as nat);
    }
}

/// `list?` and `length` of a list, the part of it that follows a number of elements, and the element
/// that stands there.
pub proof fn lemma_list_read(world: World, spine: Seq<usize>, elements: Seq<usize>, index: nat, word: usize)
    requires
        is_spine(world.objects, spine, elements),
        index <= elements.len(),
        encoded(index as int) == Ok::<usize, RuntimeError>(word),
    ensures
        builtin_result(world, BUILTIN_LIST_PREDICATE, seq![spine[0]]) == (world, Ok::<usize, RuntimeError>(BOOL_TRUE)),
        builtin_result(world, BUILTIN_LENGTH, seq![spine[0]]) == (world, encoded(elements.len() as int)),
        builtin_result(world, BUILTIN_LIST_TAIL, seq![spine[0], word]) == (
            world,
            Ok::<usize, RuntimeError>(spine[index as int]),
        ),
        builtin_result(world, BUILTIN_LIST_REF, seq![spine[0], word]) == (
            world,
            if index < elements.len() {
                Ok::<usize, RuntimeError>(elements[index as int])
            } else {
                Err(RuntimeError::InvalidObjectKind)
            },
        ),
{
    reveal(reading_result);
    lemma_spine_read(world.objects, spine, elements, 0);
    lemma_spine(world.objects, spine[0], elements.len());
    assert(elements.subrange(0, elements.len() as int) =~= elements);
    assert(elements_of(world.objects, spine[0]) == Ok::<Seq<usize>, RuntimeError>(elements));
    lemma_tail_read(world.objects, spine, elements, 0, index);
    lemma_integer_at(word, index as int);
    assert(pair_at(world.objects, EMPTY_LIST) is None);
    if index < elements.len() {
        assert(pair_at(world.objects, spine[index as int]) == Some((elements[index as int], spine[index as int + 1])));
    }
}

/// `zero?`, `char->integer`, `eq?`, `car` and `cdr` on the arguments that they are for.
pub proof fn lemma_values_read(world: World, first: usize, second: usize, number: int, value: char, car: usize, cdr: usize)
    ensures
        encoded(number) == Ok::<usize, RuntimeError>(first) ==> builtin_result(
            world,
            BUILTIN_ZERO_PREDICATE,
            seq![first],
        ) == (world, Ok::<usize, RuntimeError>(word_of(number == 0))),
        first as int == value as int * 8 + 4 ==> builtin_result(world, BUILTIN_CHAR_TO_INTEGER, seq![first]) == (
            world,
            encoded(value as int),
        ),
        builtin_result(world, BUILTIN_EQ, seq![first, second]) == (
            world,
            Ok::<usize, RuntimeError>(word_of(first == second)),
        ),
        pair_at(world.objects, first) == Some((car, cdr)) ==> builtin_result(world, BUILTIN_CAR, seq![first]) == (
            world,
            Ok::<usize, RuntimeError>(car),
        ) && builtin_result(world, BUILTIN_CDR, seq![first]) == (world, Ok::<usize, RuntimeError>(cdr)),
{
    reveal(reading_result);
    if encoded(number) == Ok::<usize, RuntimeError>(first) {
        lemma_integer_at(first, number);
    }
    if first as int == value as int * 8 + 4 {
        lemma_character_at(first, value);
    }
}

} // verus!
