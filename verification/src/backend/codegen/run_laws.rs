//! What code does when it runs: what the values of operations are, and which blocks are reached.
use crate::backend::abi::RuntimeFunction;
use crate::backend::codegen::plan_builtins::{chain_steps, char_predicate, fold_steps, numeric_predicate};
use crate::backend::codegen::state::{binary_steps, compare_steps, State};
use crate::backend::codegen::values::{
    char_operand_steps, decode_fixnum_steps, encode_fixnum_value_steps, ensure_fixnum_steps, fixnum_operand_steps,
    is_char_steps, tagged_bool_steps, trap_if_false_steps,
};
use crate::backend::ir::{
    continues, group_continues, lemma_continues, BinaryOp, FunctionRef, Op, Operand, Predicate, Step,
};
use vstd::prelude::*;

verus! {

/// One more than the largest word.
pub open spec fn modulus() -> int {
    0x1_0000_0000_0000_0000
}

/// The word that an integer wraps around to.
pub open spec fn wrapped(value: int) -> int {
    value % modulus()
}

/// The integer that a word stands for in two's complement.
pub open spec fn signed(word: int) -> int {
    if word < 0x8000_0000_0000_0000 {
        word
    } else {
        word - modulus()
    }
}

/// A power of two.
pub open spec fn power(exponent: int) -> int
    decreases exponent,
{
    if exponent <= 0 {
        1
    } else {
        2 * power(exponent - 1)
    }
}

/// Division that rounds towards zero.
pub open spec fn quotient(left: int, right: int) -> int {
    if (left < 0) == (right < 0) {
        magnitude(left) / magnitude(right)
    } else {
        -(magnitude(left) / magnitude(right))
    }
}

/// The distance from zero.
pub open spec fn magnitude(value: int) -> int {
    if value < 0 {
        -value
    } else {
        value
    }
}

/// What an arithmetic or bitwise instruction computes.
pub open spec fn computed(op: BinaryOp, left: int, right: int) -> int {
    match op {
        BinaryOp::Plus => wrapped(left + right),
        BinaryOp::Minus => wrapped(left - right),
        BinaryOp::Times => wrapped(left * right),
        BinaryOp::SignedDivide => wrapped(quotient(signed(left), signed(right))),
        BinaryOp::And => ((left as u64) & (right as u64)) as int,
        BinaryOp::Or => ((left as u64) | (right as u64)) as int,
        BinaryOp::ShiftLeft => wrapped(left * power(right)),
        BinaryOp::ShiftRight => left / power(right),
        BinaryOp::SignedShiftRight => wrapped(signed(left) / power(right)),
    }
}

/// Whether two words are in the relation that a comparison tests.
pub open spec fn holds(predicate: Predicate, left: int, right: int) -> bool {
    match predicate {
        Predicate::Equal => left == right,
        Predicate::NotEqual => left != right,
        Predicate::SignedLess => signed(left) < signed(right),
        Predicate::SignedGreater => signed(left) > signed(right),
        Predicate::SignedLessEqual => signed(left) <= signed(right),
        Predicate::SignedGreaterEqual => signed(left) >= signed(right),
        Predicate::UnsignedLess => left < right,
        Predicate::UnsignedGreater => left > right,
        Predicate::UnsignedLessEqual => left <= right,
        Predicate::UnsignedGreaterEqual => left >= right,
    }
}

/// The bit of a condition.
pub open spec fn bit(condition: bool) -> int {
    if condition {
        1
    } else {
        0
    }
}

/// The block at which a builder stands.
pub open spec fn standing(trace: Seq<Step>, builder: usize) -> usize
    decreases trace.len(),
{
    if trace.len() == 0 {
        0
    } else {
        match trace.last() {
            Op::PositionAtEnd { builder: mover, block } => if mover == builder {
                block
            } else {
                standing(trace.drop_last(), builder)
            },
            _ => standing(trace.drop_last(), builder),
        }
    }
}

/// A run of code that no block takes part in twice: the values of operands, what the slots of the
/// frame hold, what the words behind pointers are, where texts stand, what the entries of the runtime answer, which
/// blocks are reached, and what is returned in the end. Slots that change are read before they are written: what they hold in the end
/// is told apart.
pub struct Run {
    pub values: spec_fn(Operand) -> int,
    pub cells: spec_fn(Operand) -> int,
    pub changes: spec_fn(Operand) -> bool,
    pub later: spec_fn(Operand) -> int,
    pub fields: spec_fn(int, int) -> int,
    pub texts: spec_fn(Seq<char>) -> int,
    pub answers: spec_fn(RuntimeFunction, Seq<int>) -> int,
    pub reached: spec_fn(usize) -> bool,
    pub returned: int,
}

/// The values of a row of operands.
pub open spec fn values_of(run: Run, operands: Seq<Operand>) -> Seq<int> {
    operands.map_values(run.values)
}

/// Whether a run obeys an operation behind others.
pub open spec fn obeys(run: Run, before: Seq<Step>, step: Step) -> bool {
    let result = (run.values)(Operand::Result(before.len() as usize));
    match step {
        Op::Binary { builder, op, left, right } => result == computed(op, (run.values)(left), (run.values)(right)),
        Op::Compare { builder, predicate, left, right } => result == bit(
            holds(predicate, (run.values)(left), (run.values)(right)),
        ),
        Op::Not { builder, value } => result == 1 - (run.values)(value),
        Op::Select { builder, condition, on_true, on_false } => result == (if (run.values)(condition) == 1 {
            (run.values)(on_true)
        } else {
            (run.values)(on_false)
        }),
        Op::PtrToInt { builder, value } => result == (run.values)(value),
        Op::IntToPtr { builder, value } => result == (run.values)(value),
        Op::PointerCast { builder, value } => result == (run.values)(value),
        Op::Store { builder, slot, value } => (run.values)(value) == (if (run.changes)(slot) {
            (run.later)(slot)
        } else {
            (run.cells)(slot)
        }),
        Op::ElementPointer { builder, base, skip, index } => (run.cells)(Operand::Result(before.len() as usize))
            == (run.fields)((run.values)(base), skip + index),
        Op::Load { builder, slot } => result == (run.cells)(slot),
        Op::Call { builder, target, args } => target matches FunctionRef::Runtime(entry) ==> result == (run.answers)(
            entry,
            values_of(run, args),
        ),
        Op::AddBytes { name, text } => result == (run.texts)(text),
        Op::InsertBlock { builder } => (run.reached)(before.len() as usize) == (run.reached)(standing(before, builder)),
        Op::Branch { builder, target } => (run.reached)(standing(before, builder)) ==> (run.reached)(target),
        Op::ConditionalBranch { builder, condition, then_block, else_block } => (run.reached)(
            standing(before, builder),
        ) ==> (if (run.values)(condition) == 1 {
            (run.reached)(then_block)
        } else {
            (run.reached)(else_block)
        }),
        Op::Return { builder, value } => value matches Some(operand) ==> ((run.reached)(standing(before, builder))
            ==> run.returned == (run.values)(operand)),
        Op::Phi { builder, ty, first, first_block, second, second_block } => {
            &&& (run.reached)(first_block) ==> result == (run.values)(first)
            &&& (run.reached)(second_block) ==> result == (run.values)(second)
        },
        _ => true,
    }
}

/// Whether a run obeys the operations from one on.
#[verifier::opaque]
pub open spec fn is_run(run: Run, trace: Seq<Step>, from: int) -> bool {
    &&& forall|word: u64| #[trigger] (run.values)(Operand::Word(word)) == word
    &&& forall|value: bool| #[trigger] (run.values)(Operand::Bit(value)) == bit(value)
    &&& forall|operand: Operand| 0 <= #[trigger] (run.values)(operand) < modulus()
    &&& forall|place: int|
        from <= place < trace.len() ==> obeys(run, trace.subrange(0, place), #[trigger] trace[place])
}

/// What is known of the literals of a run.
pub(crate) proof fn lemma_run_literals(run: Run, trace: Seq<Step>, from: int)
    requires
        is_run(run, trace, from),
    ensures
        forall|word: u64| #[trigger] (run.values)(Operand::Word(word)) == word,
        forall|value: bool| #[trigger] (run.values)(Operand::Bit(value)) == bit(value),
        forall|operand: Operand| 0 <= #[trigger] (run.values)(operand) < modulus(),
{
    reveal(is_run);
}

/// A run of code is a run of the code that it starts with.
pub(crate) proof fn lemma_run_start(run: Run, first: Seq<Step>, trace: Seq<Step>, from: int)
    requires
        is_run(run, trace, from),
        continues(first, trace),
        0 <= from,
    ensures
        is_run(run, first, from),
{
    reveal(is_run);
    lemma_continues(first, trace);
    assert forall|place: int| from <= place < first.len() implies obeys(
        run,
        first.subrange(0, place),
        #[trigger] first[place],
    ) by {
        assert(first[place] == trace[place]);
        assert(first.subrange(0, place) =~= trace.subrange(0, place));
    }
}

/// A run of code is a run of the code without the last operation, and obeys the last operation.
pub(crate) broadcast proof fn lemma_run_last(run: Run, trace: Seq<Step>, step: Step, from: int)
    requires
        #[trigger] is_run(run, trace.push(step), from),
        0 <= from <= trace.len(),
    ensures
        is_run(run, trace, from),
        obeys(run, trace, step),
{
    broadcast use group_continues;

    lemma_run_start(run, trace, trace.push(step), from);
    reveal(is_run);
    let all = trace.push(step);
    assert(all[trace.len() as int] == step);
    assert(all.subrange(0, trace.len() as int) =~= trace);
}

/// Only a move of the builder moves it.
pub(crate) broadcast proof fn lemma_standing(trace: Seq<Step>, step: Step, builder: usize)
    ensures
        #[trigger] standing(trace.push(step), builder) == (match step {
            Op::PositionAtEnd { builder: mover, block } => if mover == builder {
                block
            } else {
                standing(trace, builder)
            },
            _ => standing(trace, builder),
        }),
{
    assert(trace.push(step).drop_last() =~= trace);
}

/// Whether the run comes from the code before a place to the code behind it.
pub open spec fn passes(run: Run, before: State, after: State, builder: usize) -> bool {
    (run.reached)(standing(before.trace, builder)) ==> (run.reached)(standing(after.trace, builder))
}

pub(crate) proof fn lemma_check_grows(state: State, builder: usize, function: FunctionRef, condition: Operand)
    ensures
        state.trace.len() <= trap_if_false_steps(state, builder, function, condition).trace.len(),
{
    reveal(trap_if_false_steps);
}

/// Code goes on behind a check where the condition holds.
pub proof fn lemma_checked(run: Run, state: State, builder: usize, function: FunctionRef, condition: Operand, from: int)
    requires
        is_run(run, trap_if_false_steps(state, builder, function, condition).trace, from),
        0 <= from <= state.trace.len(),
    ensures
        is_run(run, state.trace, from),
        (run.values)(condition) == 1 ==> passes(
            run,
            state,
            trap_if_false_steps(state, builder, function, condition),
            builder,
        ),
{
    broadcast use {lemma_run_last, lemma_standing};

    reveal(trap_if_false_steps);
}

/// The word of an integer.
pub open spec fn integer_word(value: int) -> int {
    wrapped(2 * value + 1)
}

/// Whether a word is that of an integer.
pub open spec fn is_integer_word(word: int) -> bool {
    word % 2 == 1
}

/// The integer of its word.
pub open spec fn integer_in(word: int) -> int {
    signed(word) / 2
}

/// Integers that fit are what their words hold.
pub proof fn lemma_integer_words(value: int)
    requires
        -0x4000_0000_0000_0000 <= value < 0x4000_0000_0000_0000,
    ensures
        is_integer_word(integer_word(value)),
        integer_in(integer_word(value)) == value,
        0 <= integer_word(value) < modulus(),
{
}

pub(crate) proof fn lemma_bits(left: u64, right: u64)
    ensures
        left & 1 == left % 2,
        left & 7 == left % 8,
        left % 2 == 0 ==> left | 1 == left + 1,
        left % 8 == 0 ==> left | 4 == left + 4,
        left <= 1 && right <= 1 ==> left & right == (if left == 1 && right == 1 {
            1u64
        } else {
            0u64
        }),
        left <= 1 && right <= 1 ==> left | right == (if left == 1 || right == 1 {
            1u64
        } else {
            0u64
        }),
{
    assert(left & 1 == left % 2) by (bit_vector);
    assert(left & 7 == left % 8) by (bit_vector);
    assert(left % 2 == 0 ==> left | 1 == left + 1) by (bit_vector);
    assert(left % 8 == 0 ==> left | 4 == left + 4) by (bit_vector);
    assert(left <= 1 && right <= 1 ==> left & right == (if left == 1 && right == 1 {
        1u64
    } else {
        0u64
    })) by (bit_vector);
    assert(left <= 1 && right <= 1 ==> left | right == (if left == 1 || right == 1 {
        1u64
    } else {
        0u64
    })) by (bit_vector);
}

/// The integer of a word is taken out of it, and the code goes on where the word is that of an
/// integer.
pub proof fn lemma_integer_taken(run: Run, state: State, builder: usize, function: FunctionRef, word: Operand, from: int)
    requires
        is_run(run, fixnum_operand_steps(state, builder, function, word).0.trace, from),
        0 <= from <= state.trace.len(),
    ensures
        is_run(run, state.trace, from),
        is_integer_word((run.values)(word)) ==> passes(
            run,
            state,
            fixnum_operand_steps(state, builder, function, word).0,
            builder,
        ) && (run.values)(fixnum_operand_steps(state, builder, function, word).1) == wrapped(
            integer_in((run.values)(word)),
        ),
{
    broadcast use {lemma_run_last, lemma_standing};

    reveal(fixnum_operand_steps);
    reveal(decode_fixnum_steps);
    reveal(ensure_fixnum_steps);
    lemma_run_literals(run, fixnum_operand_steps(state, builder, function, word).0.trace, from);
    let (masked_state, masked) = binary_steps(state, builder, BinaryOp::And, word, Operand::Word(1));
    let (tested, is_fixnum) = compare_steps(masked_state, builder, Predicate::Equal, masked, Operand::Word(1));
    let checked = trap_if_false_steps(tested, builder, function, is_fixnum);
    lemma_check_grows(tested, builder, function, is_fixnum);
    assert(is_run(run, checked.trace, from));
    lemma_checked(run, tested, builder, function, is_fixnum, from);
    lemma_bits((run.values)(word) as u64, 0);
    assert(power(1) == 2) by {
        reveal_with_fuel(power, 2);
    }
}

/// An integer is put into a word.
pub proof fn lemma_integer_put(run: Run, state: State, builder: usize, value: Operand, from: int)
    requires
        is_run(run, encode_fixnum_value_steps(state, builder, value).0.trace, from),
        0 <= from <= state.trace.len(),
    ensures
        is_run(run, state.trace, from),
        passes(run, state, encode_fixnum_value_steps(state, builder, value).0, builder),
        (run.values)(encode_fixnum_value_steps(state, builder, value).1) == integer_word((run.values)(value)),
{
    broadcast use {lemma_run_last, lemma_standing};

    reveal(encode_fixnum_value_steps);
    lemma_run_literals(run, encode_fixnum_value_steps(state, builder, value).0.trace, from);
    assert(power(1) == 2) by {
        reveal_with_fuel(power, 2);
    }
    lemma_bits(wrapped((run.values)(value) * 2) as u64, 0);
}

/// The word of a truth value.
pub open spec fn truth_word(value: bool) -> int {
    if value {
        6
    } else {
        2
    }
}

/// A condition is put into a word.
pub proof fn lemma_truth_put(run: Run, state: State, builder: usize, condition: Operand, from: int)
    requires
        is_run(run, tagged_bool_steps(state, builder, condition).0.trace, from),
        0 <= from <= state.trace.len(),
    ensures
        is_run(run, state.trace, from),
        passes(run, state, tagged_bool_steps(state, builder, condition).0, builder),
        (run.values)(tagged_bool_steps(state, builder, condition).1) == truth_word((run.values)(condition) == 1),
{
    broadcast use {lemma_run_last, lemma_standing};

    reveal(tagged_bool_steps);
    lemma_run_literals(run, tagged_bool_steps(state, builder, condition).0.trace, from);
}

/// The word of a character.
pub open spec fn is_character_word(word: int) -> bool {
    word % 8 == 4
}

/// A word is tested for a character.
pub proof fn lemma_character_tested(run: Run, state: State, builder: usize, word: Operand, from: int)
    requires
        is_run(run, is_char_steps(state, builder, word).0.trace, from),
        0 <= from <= state.trace.len(),
    ensures
        is_run(run, state.trace, from),
        passes(run, state, is_char_steps(state, builder, word).0, builder),
        (run.values)(is_char_steps(state, builder, word).1) == bit(is_character_word((run.values)(word))),
{
    broadcast use {lemma_run_last, lemma_standing};

    reveal(is_char_steps);
    lemma_run_literals(run, is_char_steps(state, builder, word).0.trace, from);
    lemma_bits((run.values)(word) as u64, 0);
}

/// The number of a character is taken out of its word, and the code goes on where the word is that of
/// a character.
pub proof fn lemma_character_taken(run: Run, state: State, builder: usize, function: FunctionRef, word: Operand, from: int)
    requires
        is_run(run, char_operand_steps(state, builder, function, word).0.trace, from),
        0 <= from <= state.trace.len(),
    ensures
        is_run(run, state.trace, from),
        is_character_word((run.values)(word)) ==> passes(
            run,
            state,
            char_operand_steps(state, builder, function, word).0,
            builder,
        ) && (run.values)(char_operand_steps(state, builder, function, word).1) == (run.values)(word) / 8,
{
    broadcast use {lemma_run_last, lemma_standing};

    reveal(char_operand_steps);
    lemma_run_literals(run, char_operand_steps(state, builder, function, word).0.trace, from);
    let (tested, is_char) = is_char_steps(state, builder, word);
    let checked = trap_if_false_steps(tested, builder, function, is_char);
    assert(state.trace.len() <= tested.trace.len()) by {
        reveal(is_char_steps);
    }
    lemma_check_grows(tested, builder, function, is_char);
    assert(is_run(run, checked.trace, from));
    lemma_checked(run, tested, builder, function, is_char, from);
    lemma_character_tested(run, state, builder, word, from);
    assert(power(3) == 8) by {
        reveal_with_fuel(power, 4);
    }
}

/// The sum, the difference, the product or the quotient of integers from left to right.
pub open spec fn combined(op: BinaryOp, first: int, rest: Seq<int>) -> int
    decreases rest.len(),
{
    if rest.len() == 0 {
        first
    } else {
        let before = combined(op, first, rest.drop_last());
        match op {
            BinaryOp::Plus => before + rest.last(),
            BinaryOp::Minus => before - rest.last(),
            BinaryOp::Times => before * rest.last(),
            _ => quotient(before, rest.last()),
        }
    }
}

pub(crate) proof fn lemma_wraps(left: int, right: int)
    ensures
        wrapped(wrapped(left) + wrapped(right)) == wrapped(left + right),
        wrapped(wrapped(left) - wrapped(right)) == wrapped(left - right),
        wrapped(wrapped(left) * wrapped(right)) == wrapped(left * right),
{
    vstd::arithmetic::div_mod::lemma_add_mod_noop(left, right, modulus());
    vstd::arithmetic::div_mod::lemma_sub_mod_noop(left, right, modulus());
    vstd::arithmetic::div_mod::lemma_mul_mod_noop(left, right, modulus());
}

/// Operands that hold integers are combined from left to right.
pub proof fn lemma_combined(
    run: Run,
    state: State,
    builder: usize,
    op: BinaryOp,
    first: Operand,
    operands: Seq<Operand>,
    start: nat,
    end: nat,
    integers: Seq<int>,
    value: int,
    from: int,
)
    requires
        is_run(run, fold_steps(state, builder, op, first, operands, start, end).0.trace, from),
        0 <= from <= state.trace.len(),
        start <= end <= operands.len(),
        integers.len() == operands.len(),
        op is Plus || op is Minus || op is Times,
        (run.values)(first) == wrapped(value),
        forall|i: int| start <= i < end ==> (run.values)(#[trigger] operands[i]) == wrapped(integers[i]),
    ensures
        is_run(run, state.trace, from),
        state.trace.len() <= fold_steps(state, builder, op, first, operands, start, end).0.trace.len(),
        passes(run, state, fold_steps(state, builder, op, first, operands, start, end).0, builder),
        (run.values)(fold_steps(state, builder, op, first, operands, start, end).1) == wrapped(
            combined(op, value, integers.subrange(start as int, end as int)),
        ),
    decreases end,
{
    broadcast use {lemma_run_last, lemma_standing};

    reveal(fold_steps);
    let part = integers.subrange(start as int, end as int);
    if start < end {
        let less = (end - 1) as nat;
        let (middle, before) = fold_steps(state, builder, op, first, operands, start, less);
        lemma_fold_grows(state, builder, op, first, operands, start, less);
        lemma_combined(run, state, builder, op, first, operands, start, less, integers, value, from);
        assert(part.drop_last() =~= integers.subrange(start as int, less as int));
        assert(part.last() == integers[end - 1]);
        lemma_wraps(combined(op, value, part.drop_last()), integers[end - 1]);
    }
}

/// A quotient is no farther from zero than what is divided.
proof fn lemma_quotient_bounded(left: int, right: int)
    requires
        right != 0,
    ensures
        magnitude(quotient(left, right)) <= magnitude(left),
{
    vstd::arithmetic::div_mod::lemma_div_is_ordered_by_denominator(magnitude(left), 1, magnitude(right));
    vstd::arithmetic::div_mod::lemma_div_pos_is_pos(magnitude(left), magnitude(right));
    assert(magnitude(left) / 1 == magnitude(left));
}

/// Operands that hold integers are divided from left to right.
pub proof fn lemma_divided(
    run: Run,
    state: State,
    builder: usize,
    operands: Seq<Operand>,
    end: nat,
    integers: Seq<int>,
    from: int,
)
    requires
        is_run(
            run,
            fold_steps(state, builder, BinaryOp::SignedDivide, operands[0], operands, 1, end).0.trace,
            from,
        ),
        0 <= from <= state.trace.len(),
        1 <= end <= operands.len(),
        integers.len() == operands.len(),
        forall|i: int|
            0 <= i < end ==> (run.values)(#[trigger] operands[i]) == wrapped(integers[i]) && -0x4000_0000_0000_0000
                <= integers[i] < 0x4000_0000_0000_0000,
        forall|i: int| 1 <= i < end ==> #[trigger] integers[i] != 0,
    ensures
        is_run(run, state.trace, from),
        state.trace.len() <= fold_steps(
            state,
            builder,
            BinaryOp::SignedDivide,
            operands[0],
            operands,
            1,
            end,
        ).0.trace.len(),
        passes(
            run,
            state,
            fold_steps(state, builder, BinaryOp::SignedDivide, operands[0], operands, 1, end).0,
            builder,
        ),
        (run.values)(fold_steps(state, builder, BinaryOp::SignedDivide, operands[0], operands, 1, end).1) == wrapped(
            combined(BinaryOp::SignedDivide, integers[0], integers.subrange(1, end as int)),
        ),
        magnitude(combined(BinaryOp::SignedDivide, integers[0], integers.subrange(1, end as int)))
            <= 0x4000_0000_0000_0000,
    decreases end,
{
    broadcast use {lemma_run_last, lemma_standing};

    reveal(fold_steps);
    let op = BinaryOp::SignedDivide;
    let part = integers.subrange(1, end as int);
    if end > 1 {
        let less = (end - 1) as nat;
        lemma_fold_grows(state, builder, op, operands[0], operands, 1, less);
        lemma_divided(run, state, builder, operands, less, integers, from);
        assert(part.drop_last() =~= integers.subrange(1, less as int));
        assert(part.last() == integers[end - 1]);
        let before = combined(op, integers[0], part.drop_last());
        lemma_quotient_bounded(before, integers[end - 1]);
        assert(signed(wrapped(before)) == before);
        assert(signed(wrapped(integers[end - 1])) == integers[end - 1]);
    } else {
        assert(part =~= Seq::<int>::empty());
        assert(integers[0] == integers[0] && (run.values)(operands[0]) == wrapped(integers[0]));
    }
}

pub(crate) proof fn lemma_fold_grows(
    state: State,
    builder: usize,
    op: BinaryOp,
    first: Operand,
    operands: Seq<Operand>,
    start: nat,
    end: nat,
)
    ensures
        state.trace.len() <= fold_steps(state, builder, op, first, operands, start, end).0.trace.len(),
        continues(state.trace, fold_steps(state, builder, op, first, operands, start, end).0.trace),
    decreases end,
{
    broadcast use group_continues;

    reveal(fold_steps);
    if start < end <= operands.len() {
        lemma_fold_grows(state, builder, op, first, operands, start, (end - 1) as nat);
    }
}

/// Whether each of the first operands is in a relation with the next.
pub open spec fn are_chained(predicate: Predicate, words: Seq<int>, count: int) -> bool {
    forall|i: int| 0 <= i < count ==> holds(predicate, #[trigger] words[i], words[i + 1])
}

/// Neighbouring operands are compared.
pub proof fn lemma_chained(
    run: Run,
    state: State,
    builder: usize,
    predicate: Predicate,
    operands: Seq<Operand>,
    count: nat,
    from: int,
)
    requires
        is_run(run, chain_steps(state, builder, predicate, operands, count).0.trace, from),
        0 <= from <= state.trace.len(),
        count == 0 || count < operands.len(),
    ensures
        is_run(run, state.trace, from),
        state.trace.len() <= chain_steps(state, builder, predicate, operands, count).0.trace.len(),
        passes(run, state, chain_steps(state, builder, predicate, operands, count).0, builder),
        (run.values)(chain_steps(state, builder, predicate, operands, count).1) == bit(
            are_chained(predicate, values_of(run, operands), count as int),
        ),
    decreases count,
{
    broadcast use {lemma_run_last, lemma_standing};

    reveal(chain_steps);
    lemma_run_literals(run, chain_steps(state, builder, predicate, operands, count).0.trace, from);
    let words = values_of(run, operands);
    if count > 0 {
        let less = (count - 1) as nat;
        let (middle, before) = chain_steps(state, builder, predicate, operands, less);
        lemma_chain_grows(state, builder, predicate, operands, less);
        let (next_state, next) = compare_steps(
            middle,
            builder,
            predicate,
            operands[count - 1],
            operands[count as int],
        );
        assert(is_run(run, next_state.trace, from));
        lemma_chained(run, state, builder, predicate, operands, less, from);
        lemma_bits((run.values)(before) as u64, (run.values)(next) as u64);
        assert(words[count - 1] == (run.values)(operands[count - 1]));
        assert(words[count as int] == (run.values)(operands[count as int]));
        let all = are_chained(predicate, words, count as int);
        assert(all == (are_chained(predicate, words, less as int) && holds(predicate, words[count - 1], words[count as int])));
    }
}

pub(crate) proof fn lemma_chain_grows(state: State, builder: usize, predicate: Predicate, operands: Seq<Operand>, count: nat)
    ensures
        state.trace.len() <= chain_steps(state, builder, predicate, operands, count).0.trace.len(),
        continues(state.trace, chain_steps(state, builder, predicate, operands, count).0.trace),
    decreases count,
{
    broadcast use group_continues;

    reveal(chain_steps);
    if 0 < count < operands.len() {
        lemma_chain_grows(state, builder, predicate, operands, (count - 1) as nat);
    }
}

/// The five comparisons of numbers test the relations that they are named after.
pub proof fn lemma_number_relations(left: int, right: int)
    requires
        0 <= left < modulus(),
        0 <= right < modulus(),
    ensures
        holds(numeric_predicate("="@), left, right) <==> signed(left) == signed(right),
        holds(numeric_predicate("<"@), left, right) <==> signed(left) < signed(right),
        holds(numeric_predicate(">"@), left, right) <==> signed(left) > signed(right),
        holds(numeric_predicate("<="@), left, right) <==> signed(left) <= signed(right),
        holds(numeric_predicate(">="@), left, right) <==> signed(left) >= signed(right),
{
    lemma_comparison_names();
}

/// The five comparisons of characters compare their numbers by the relations that they are named
/// after.
pub proof fn lemma_character_relations(left: int, right: int)
    ensures
        holds(char_predicate("char=?"@), left, right) <==> left == right,
        holds(char_predicate("char<?"@), left, right) <==> left < right,
        holds(char_predicate("char>?"@), left, right) <==> left > right,
        holds(char_predicate("char<=?"@), left, right) <==> left <= right,
        holds(char_predicate("char>=?"@), left, right) <==> left >= right,
{
    lemma_comparison_names();
}

/// The names of comparisons differ.
pub(crate) proof fn lemma_comparison_names()
    ensures
        "="@ != "<"@ && "="@ != ">"@ && "="@ != "<="@ && "="@ != ">="@,
        "<"@ != ">"@ && "<"@ != "<="@ && "<"@ != ">="@ && ">"@ != "<="@ && ">"@ != ">="@ && "<="@ != ">="@,
        "char=?"@ != "char<?"@ && "char=?"@ != "char>?"@ && "char=?"@ != "char<=?"@ && "char=?"@ != "char>=?"@,
        "char<?"@ != "char>?"@ && "char<?"@ != "char<=?"@ && "char<?"@ != "char>=?"@,
        "char>?"@ != "char<=?"@ && "char>?"@ != "char>=?"@ && "char<=?"@ != "char>=?"@,
{
    reveal_strlit("=");
    reveal_strlit("<");
    reveal_strlit(">");
    reveal_strlit("<=");
    reveal_strlit(">=");
    reveal_strlit("char=?");
    reveal_strlit("char<?");
    reveal_strlit("char>?");
    reveal_strlit("char<=?");
    reveal_strlit("char>=?");
    assert("="@[0] == '=' && "<"@[0] == '<' && ">"@[0] == '>' && "<="@[0] == '<' && ">="@[0] == '>');
    assert("<"@.len() == 1 && ">"@.len() == 1 && "<="@.len() == 2 && ">="@.len() == 2);
    assert("char=?"@[4] == '=' && "char<?"@[4] == '<' && "char>?"@[4] == '>');
    assert("char<=?"@[4] == '<' && "char>=?"@[4] == '>');
    assert("char<?"@.len() == 6 && "char>?"@.len() == 6 && "char<=?"@.len() == 7 && "char>=?"@.len() == 7);
}

} // verus!
