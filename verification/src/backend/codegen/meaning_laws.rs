//! What code computes: the code of an expression leaves the word that the expression means.
use crate::backend::abi::RuntimeFunction;
use crate::backend::builtins::{builtin_name_list, is_builtin_name};
use crate::backend::codegen::expression_laws::{
    lemma_slots_chars, lemma_slots_compile_builtin_call, lemma_slots_compile_all, lemma_slots_compile_expr, lemma_slots_integers,
    lemma_slots_parallel_bindings, lemma_slots_sequential_bindings,
};
use crate::backend::codegen::laws::{
    counted, lemma_popped_slots_forgotten, lemma_slots_bind, lemma_slots_binary_builtin, lemma_slots_unary_builtin,
};
use crate::backend::codegen::plan::{
    assigned_in, bind_steps, changed_in, compile_all_steps, compile_expr_steps, compile_if_steps, compile_scoped_steps,
    parallel_bindings_steps, sequential_bindings_steps, truth_steps, variable_steps,
};
use crate::backend::codegen::plan_builtins::{
    answer_steps, binary_builtin_steps, binary_runtime_steps, boolean_predicate_steps, chain_steps,
    char_comparison_steps, char_predicate, char_predicate_steps, char_to_integer_steps, chars_steps,
    compile_builtin_call_steps, compile_other_builtin_steps, element_steps, fold_steps, integer_to_char_steps,
    integers_steps, is_binary, is_unary, kind_predicate_steps, length_steps, list_place_steps, list_predicate_steps,
    not_steps, null_predicate_steps, numeric_builtin_steps, numeric_comparison_steps, numeric_predicate,
    pair_access_steps, pair_predicate_steps, reference_steps,     symbol_predicate_steps, unary_builtin_steps, unary_runtime_steps, zero_predicate_steps,
};
use crate::backend::codegen::procedure_laws::lemma_forgotten;
use crate::backend::codegen::run_laws::{
    are_chained, bit, combined, holds, integer_in, integer_word, is_character_word, is_integer_word, is_run,
    lemma_bits, lemma_character_taken, lemma_character_tested, lemma_chain_grows, lemma_chained, lemma_check_grows, lemma_checked, lemma_combined, lemma_comparison_names,
    lemma_divided, lemma_fold_grows, lemma_integer_put, lemma_integer_taken, lemma_run_last, lemma_run_literals, lemma_run_start, lemma_standing,
    lemma_truth_put, lemma_wraps, modulus, passes, power, signed, standing, truth_word, values_of, wrapped, Run,
};
use crate::backend::codegen::state::{
    binary_steps, block_steps, branch, branch_if, call_steps, compare_steps, emit_steps, position, value_steps, Env,
    Outcome, State, Val,
};
use crate::backend::codegen::values::{
    branch_on_pending_exception_steps, char_operand_steps, compare_codegen_values_steps, decode_fixnum_steps,
    ensure_fixnum_steps, fixnum_operand_steps, is_char_steps, load_rooted_word_steps, merge_branch_values_steps, box_value_steps, pop_root_slots_steps, root_word_steps, phi_steps,     trap_if_false_steps, value_to_word_steps, word_of,
};
use crate::backend::ir::{continues, group_continues, BinaryOp, FunctionRef, Op, Operand, Predicate};
use crate::middle::hir::{binding_names, Binding, Expr, ExprKind};
use vstd::prelude::*;

verus! {

broadcast use vstd::seq_lib::group_seq_properties;

/// The word `#f`.
pub open spec fn false_word() -> int {
    2
}

/// The word of the empty list.
pub open spec fn nil_word() -> int {
    10
}

/// The integers in words.
pub open spec fn integers_in(words: Seq<int>) -> Seq<int> {
    words.map_values(|word: int| integer_in(word))
}

/// Whether all words are those of integers.
pub open spec fn are_integer_words(words: Seq<int>) -> bool {
    forall|i: int| 0 <= i < words.len() ==> is_integer_word(#[trigger] words[i])
}

/// Whether all words are those of characters.
pub open spec fn are_character_words(words: Seq<int>) -> bool {
    forall|i: int| 0 <= i < words.len() ==> is_character_word(#[trigger] words[i])
}

/// Whether two integers are in the relation that a name stands for.
pub open spec fn related(name: Seq<char>, left: int, right: int) -> bool {
    if name == "="@ {
        left == right
    } else if name == "<"@ {
        left < right
    } else if name == ">"@ {
        left > right
    } else if name == "<="@ {
        left <= right
    } else {
        left >= right
    }
}

/// Whether each integer is in the relation with the next.
pub open spec fn all_related(name: Seq<char>, integers: Seq<int>) -> bool {
    forall|i: int| 0 <= i < integers.len() - 1 ==> related(name, #[trigger] integers[i], integers[i + 1])
}

/// What an operation on integers gives, where it is defined. Division rounds towards zero.
pub open spec fn arithmetic(name: Seq<char>, integers: Seq<int>) -> Option<int> {
    if name == "+"@ {
        Some(combined(BinaryOp::Plus, 0, integers))
    } else if name == "*"@ {
        Some(combined(BinaryOp::Times, 1, integers))
    } else if name == "-"@ {
        if integers.len() == 0 {
            None
        } else if integers.len() == 1 {
            Some(-integers[0])
        } else {
            Some(combined(BinaryOp::Minus, integers[0], integers.skip(1)))
        }
    } else if integers.len() < 2 || exists|i: int| 1 <= i < integers.len() && #[trigger] integers[i] == 0 {
        None
    } else {
        Some(combined(BinaryOp::SignedDivide, integers[0], integers.skip(1)))
    }
}

/// What a builtin of one argument makes of a word, where that is known. `None` where it fails.
#[verifier::opaque]
pub open spec fn unary_meaning(name: Seq<char>, word: int, run: Run) -> Option<int> {
    if name == "not"@ {
        Some(truth_word(word == false_word()))
    } else if name == "boolean?"@ {
        Some(truth_word(word == truth_word(true) || word == truth_word(false)))
    } else if name == "zero?"@ {
        if is_integer_word(word) {
            Some(truth_word(integer_in(word) == 0))
        } else {
            None
        }
    } else if name == "char?"@ {
        Some(truth_word(is_character_word(word)))
    } else if name == "char->integer"@ {
        if is_character_word(word) {
            Some(integer_word(word / 8))
        } else {
            None
        }
    } else if name == "integer->char"@ {
        if is_integer_word(word) && (0 <= integer_in(word) < 0xd800 || 0xdfff < integer_in(word) <= 0x10ffff) {
            Some(8 * integer_in(word) + 4)
        } else {
            None
        }
    } else if name == "symbol?"@ {
        Some(truth_word((run.answers)(RuntimeFunction::IsSymbol, seq![word]) == 1))
    } else if name == "symbol->string"@ {
        Some((run.answers)(RuntimeFunction::SymbolToString, seq![word]))
    } else if name == "string->symbol"@ {
        Some((run.answers)(RuntimeFunction::StringToSymbol, seq![word]))
    } else if name == "procedure?"@ {
        None
    } else if name == "raise"@ {
        None
    } else if name == "list-copy"@ {
        Some((run.answers)(RuntimeFunction::ListCopy, seq![word]))
    } else if name == "reverse"@ {
        Some((run.answers)(RuntimeFunction::Reverse, seq![word]))
    } else if name == "car"@ {
        Some((run.answers)(RuntimeFunction::PairCar, seq![word]))
    } else if name == "cdr"@ {
        Some((run.answers)(RuntimeFunction::PairCdr, seq![word]))
    } else if name == "pair?"@ {
        Some(truth_word((run.answers)(RuntimeFunction::IsPair, seq![word]) == 1))
    } else if name == "list?"@ {
        Some(truth_word((run.answers)(RuntimeFunction::IsList, seq![word]) == 1))
    } else if name == "length"@ {
        Some((run.answers)(RuntimeFunction::ListLength, seq![word]))
    } else if name == "null?"@ {
        Some(truth_word(word == nil_word()))
    } else if name == "string?"@ {
        Some(truth_word((run.answers)(RuntimeFunction::IsString, seq![word]) == 1))
    } else if name == "string-length"@ {
        Some((run.answers)(RuntimeFunction::StringLength, seq![word]))
    } else if name == "display"@ {
        Some((run.answers)(RuntimeFunction::Display, seq![word]))
    } else if name == "write"@ {
        Some((run.answers)(RuntimeFunction::Write, seq![word]))
    } else if name == "gc-stress"@ {
        None
    } else if name == "vector?"@ {
        Some(truth_word((run.answers)(RuntimeFunction::IsVector, seq![word]) == 1))
    } else if name == "vector-length"@ {
        Some((run.answers)(RuntimeFunction::VectorLength, seq![word]))
    } else {
        None
    }
}

/// What a builtin of two arguments makes of words, where that is known. `None` where it fails.
#[verifier::opaque]
pub open spec fn binary_meaning(name: Seq<char>, first: int, second: int, run: Run) -> Option<int> {
    let place = wrapped(integer_in(second));
    if name == "eq?"@ || name == "eqv?"@ {
        Some(truth_word(first == second))
    } else if name == "equal?"@ {
        Some(truth_word((run.answers)(RuntimeFunction::Equal, seq![first, second]) == 1))
    } else if name == "list-tail"@ {
        if is_integer_word(second) {
            Some((run.answers)(RuntimeFunction::ListTail, seq![first, place]))
        } else {
            None
        }
    } else if name == "list-ref"@ {
        if is_integer_word(second) {
            Some((run.answers)(RuntimeFunction::ListRef, seq![first, place]))
        } else {
            None
        }
    } else if name == "string-ref"@ {
        if is_integer_word(second) {
            Some((run.answers)(RuntimeFunction::StringRef, seq![first, place]))
        } else {
            None
        }
    } else if name == "vector-ref"@ {
        if is_integer_word(second) {
            Some((run.answers)(RuntimeFunction::VectorRef, seq![first, place]))
        } else {
            None
        }
    } else if name == "memq"@ {
        Some((run.answers)(RuntimeFunction::Memq, seq![first, second]))
    } else if name == "memv"@ {
        Some((run.answers)(RuntimeFunction::Memv, seq![first, second]))
    } else if name == "member"@ {
        Some((run.answers)(RuntimeFunction::Member, seq![first, second]))
    } else if name == "assq"@ {
        Some((run.answers)(RuntimeFunction::Assq, seq![first, second]))
    } else if name == "assv"@ {
        Some((run.answers)(RuntimeFunction::Assv, seq![first, second]))
    } else if name == "assoc"@ {
        Some((run.answers)(RuntimeFunction::Assoc, seq![first, second]))
    } else {
        None
    }
}

/// Whether a word is left.
pub open spec fn leaves(run: Run, value: Val, word: int) -> bool {
    value matches Val::Word(operand) && (run.values)(operand) == word
}

/// An answer is the word of the condition.
proof fn lemma_answer(run: Run, state: State, builder: usize, condition: Operand, from: int)
    requires
        answer_steps(state, builder, condition) matches Ok((after, _)) && is_run(run, after.trace, from),
        0 <= from <= state.trace.len(),
    ensures
        is_run(run, state.trace, from),
        answer_steps(state, builder, condition) matches Ok((after, value)) && passes(run, state, after, builder)
            && leaves(run, value, truth_word((run.values)(condition) == 1)),
{
    reveal(answer_steps);
    lemma_truth_put(run, state, builder, condition, from);
}

proof fn lemma_one_value(run: Run, operand: Operand)
    ensures
        values_of(run, seq![operand]) == seq![(run.values)(operand)],
{
    assert(values_of(run, seq![operand]) =~= seq![(run.values)(operand)]);
}

proof fn lemma_two_values(run: Run, first: Operand, second: Operand)
    ensures
        values_of(run, seq![first, second]) == seq![(run.values)(first), (run.values)(second)],
{
    assert(values_of(run, seq![first, second]) =~= seq![(run.values)(first), (run.values)(second)]);
}

/// A builtin of one argument computes what it means.
#[verifier::rlimit(60)]
proof fn lemma_unary(run: Run, state: State, builder: usize, function: FunctionRef, name: Seq<char>, word: Operand, from: int)
    requires
        unary_builtin_steps(state, builder, function, name, Val::Word(word)) matches Ok((after, _)) && is_run(
            run,
            after.trace,
            from,
        ),
        0 <= from <= state.trace.len(),
    ensures
        unary_meaning(name, (run.values)(word), run) matches Some(meant) ==> (unary_builtin_steps(
            state,
            builder,
            function,
            name,
            Val::Word(word),
        ) matches Ok((after, value)) && passes(run, state, after, builder) && leaves(run, value, meant)),
{
    broadcast use {lemma_run_last, lemma_standing};

    reveal(unary_meaning);
    reveal(unary_builtin_steps);
    let (after, value) = unary_builtin_steps(state, builder, function, name, Val::Word(word))->Ok_0;
    lemma_run_literals(run, after.trace, from);
    lemma_one_value(run, word);
    if name == "not"@ {
        reveal(not_steps);
        let (tested, condition) = compare_steps(state, builder, Predicate::Equal, word, Operand::Word(2));
        lemma_answer(run, tested, builder, condition, from);
    } else if name == "boolean?"@ {
        lemma_boolean(run, state, builder, word, from);
    } else if name == "zero?"@ {
        if is_integer_word((run.values)(word)) {
            lemma_zero(run, state, builder, function, word, from);
        }
    } else if name == "char?"@ {
        reveal(char_predicate_steps);
        let (tested, condition) = is_char_steps(state, builder, word);
        assert(state.trace.len() <= tested.trace.len()) by {
            reveal(is_char_steps);
        }
        lemma_answer(run, tested, builder, condition, from);
        lemma_character_tested(run, state, builder, word, from);
    } else if name == "char->integer"@ {
        reveal(char_to_integer_steps);
        let (taken, scalar) = char_operand_steps(state, builder, function, word);
        lemma_taken_grows(state, builder, function, word);
        lemma_integer_put(run, taken, builder, scalar, from);
        lemma_character_taken(run, state, builder, function, word, from);
    } else if name == "integer->char"@ {
        if is_integer_word((run.values)(word)) {
            lemma_to_character(run, state, builder, function, word, from);
        }
    } else if name == "symbol?"@ {
        reveal(symbol_predicate_steps);
        reveal(value_to_word_steps);
        let (called, condition) = call_steps(state, builder, RuntimeFunction::IsSymbol, seq![word]);
        lemma_answer(run, called, builder, condition, from);
    } else if name == "symbol->string"@ {
        reveal(unary_runtime_steps);
        reveal(value_to_word_steps);
    } else if name == "string->symbol"@ {
        reveal(unary_runtime_steps);
        reveal(value_to_word_steps);
    } else if name == "procedure?"@ {
    } else if name == "raise"@ {
    } else if name == "list-copy"@ {
        reveal(unary_runtime_steps);
        reveal(value_to_word_steps);
    } else if name == "reverse"@ {
        reveal(unary_runtime_steps);
        reveal(value_to_word_steps);
    } else if name == "car"@ {
        reveal(pair_access_steps);
    } else if name == "cdr"@ {
        reveal(pair_access_steps);
    } else if name == "pair?"@ {
        reveal(pair_predicate_steps);
        reveal(value_to_word_steps);
        let (called, condition) = call_steps(state, builder, RuntimeFunction::IsPair, seq![word]);
        lemma_answer(run, called, builder, condition, from);
    } else if name == "list?"@ {
        reveal(list_predicate_steps);
        reveal(value_to_word_steps);
        let (called, condition) = call_steps(state, builder, RuntimeFunction::IsList, seq![word]);
        lemma_answer(run, called, builder, condition, from);
    } else if name == "length"@ {
        reveal(unary_runtime_steps);
        reveal(value_to_word_steps);
    } else if name == "null?"@ {
        reveal(null_predicate_steps);
        let (tested, condition) = compare_steps(state, builder, Predicate::Equal, word, Operand::Word(10));
        lemma_answer(run, tested, builder, condition, from);
    } else if name == "string?"@ {
        reveal(kind_predicate_steps);
        reveal(value_to_word_steps);
        let (called, condition) = call_steps(state, builder, RuntimeFunction::IsString, seq![word]);
        lemma_answer(run, called, builder, condition, from);
    } else if name == "string-length"@ {
        reveal(length_steps);
        reveal(unary_runtime_steps);
        reveal(value_to_word_steps);
    } else if name == "display"@ {
        reveal(unary_runtime_steps);
        reveal(value_to_word_steps);
    } else if name == "write"@ {
        reveal(unary_runtime_steps);
        reveal(value_to_word_steps);
    } else if name == "gc-stress"@ {
    } else if name == "vector?"@ {
        reveal(kind_predicate_steps);
        reveal(value_to_word_steps);
        let (called, condition) = call_steps(state, builder, RuntimeFunction::IsVector, seq![word]);
        lemma_answer(run, called, builder, condition, from);
    } else if name == "vector-length"@ {
        reveal(length_steps);
        reveal(unary_runtime_steps);
        reveal(value_to_word_steps);
    }
}

proof fn lemma_taken_grows(state: State, builder: usize, function: FunctionRef, word: Operand)
    ensures
        state.trace.len() <= char_operand_steps(state, builder, function, word).0.trace.len(),
        state.trace.len() <= fixnum_operand_steps(state, builder, function, word).0.trace.len(),
{
    reveal(char_operand_steps);
    reveal(is_char_steps);
    reveal(trap_if_false_steps);
    reveal(fixnum_operand_steps);
    reveal(ensure_fixnum_steps);
    reveal(decode_fixnum_steps);
}

proof fn lemma_boolean(run: Run, state: State, builder: usize, word: Operand, from: int)
    requires
        boolean_predicate_steps(state, builder, Val::Word(word)) matches Ok((after, _)) && is_run(
            run,
            after.trace,
            from,
        ),
        0 <= from <= state.trace.len(),
    ensures
        boolean_predicate_steps(state, builder, Val::Word(word)) matches Ok((after, value)) && passes(
            run,
            state,
            after,
            builder,
        ) && leaves(run, value, truth_word((run.values)(word) == 2 || (run.values)(word) == 6)),
{
    broadcast use {lemma_run_last, lemma_standing};

    reveal(boolean_predicate_steps);
    let (after, value) = boolean_predicate_steps(state, builder, Val::Word(word))->Ok_0;
    lemma_run_literals(run, after.trace, from);
    let (first, is_false) = compare_steps(
        state,
        builder,
        Predicate::Equal,
        word,
        Operand::Word(2),
    );
    let (second, is_true) = compare_steps(
        first,
        builder,
        Predicate::Equal,
        word,
        Operand::Word(6),
    );
    let (third, condition) = binary_steps(
        second,
        builder,
        BinaryOp::Or,
        is_false,
        is_true,
    );
    lemma_answer(run, third, builder, condition, from);
    lemma_bits((run.values)(is_false) as u64, (run.values)(is_true) as u64);
}

proof fn lemma_zero(run: Run, state: State, builder: usize, function: FunctionRef, word: Operand, from: int)
    requires
        zero_predicate_steps(state, builder, function, Val::Word(word)) matches Ok((after, _)) && is_run(
            run,
            after.trace,
            from,
        ),
        0 <= from <= state.trace.len(),
        is_integer_word((run.values)(word)),
    ensures
        zero_predicate_steps(state, builder, function, Val::Word(word)) matches Ok((after, value)) && passes(
            run,
            state,
            after,
            builder,
        ) && leaves(run, value, truth_word(integer_in((run.values)(word)) == 0)),
{
    broadcast use {lemma_run_last, lemma_standing};

    reveal(zero_predicate_steps);
    let (after, value) = zero_predicate_steps(state, builder, function, Val::Word(word))->Ok_0;
    lemma_run_literals(run, after.trace, from);
    let (taken, integer) = fixnum_operand_steps(state, builder, function, word);
    lemma_taken_grows(state, builder, function, word);
    let (tested, condition) = compare_steps(
        taken,
        builder,
        Predicate::Equal,
        integer,
        Operand::Word(0),
    );
    lemma_answer(run, tested, builder, condition, from);
    lemma_integer_taken(run, state, builder, function, word, from);
}

/// The character of a number.
proof fn lemma_to_character(run: Run, state: State, builder: usize, function: FunctionRef, word: Operand, from: int)
    requires
        integer_to_char_steps(state, builder, function, Val::Word(word)) matches Ok((after, _)) && is_run(
            run,
            after.trace,
            from,
        ),
        0 <= from <= state.trace.len(),
        is_integer_word((run.values)(word)),
    ensures
        0 <= integer_in((run.values)(word)) < 0xd800 || 0xdfff < integer_in((run.values)(word)) <= 0x10ffff ==> (
        integer_to_char_steps(state, builder, function, Val::Word(word)) matches Ok((after, value)) && passes(
            run,
            state,
            after,
            builder,
        ) && leaves(run, value, 8 * integer_in((run.values)(word)) + 4)),
{
    broadcast use {lemma_run_last, lemma_standing};

    reveal(integer_to_char_steps);
    let (after, value) = integer_to_char_steps(state, builder, function, Val::Word(word))->Ok_0;
    lemma_run_literals(run, after.trace, from);
    let (taken, integer) = fixnum_operand_steps(state, builder, function, word);
    lemma_taken_grows(state, builder, function, word);
    let (first, in_range) = compare_steps(
        taken,
        builder,
        Predicate::UnsignedLessEqual,
        integer,
        Operand::Word(0x10ffff),
    );
    let (second, lower) = compare_steps(
        first,
        builder,
        Predicate::UnsignedGreaterEqual,
        integer,
        Operand::Word(0xd800),
    );
    let (third, upper) = compare_steps(second, builder, Predicate::UnsignedLessEqual, integer, Operand::Word(0xdfff));
    let (fourth, surrogate) = binary_steps(third, builder, BinaryOp::And, lower, upper);
    let (fifth, no_surrogate) = value_steps(fourth, Op::Not { builder, value: surrogate });
    let (sixth, valid) = binary_steps(fifth, builder, BinaryOp::And, in_range, no_surrogate);
    let checked = trap_if_false_steps(sixth, builder, function, valid);
    lemma_check_grows(sixth, builder, function, valid);
    let (shifted_state, shifted) = binary_steps(checked, builder, BinaryOp::ShiftLeft, integer, Operand::Word(3));
    assert(is_run(run, shifted_state.trace, from));
    assert(is_run(run, checked.trace, from));
    lemma_checked(run, sixth, builder, function, valid, from);
    assert(is_run(run, fifth.trace, from));
    assert(is_run(run, fourth.trace, from));
    assert(is_run(run, third.trace, from));
    assert(is_run(run, second.trace, from));
    assert(is_run(run, first.trace, from));
    lemma_integer_taken(run, state, builder, function, word, from);
    lemma_bits((run.values)(lower) as u64, (run.values)(upper) as u64);
    lemma_bits((run.values)(in_range) as u64, (run.values)(no_surrogate) as u64);
    assert(power(3) == 8) by {
        reveal_with_fuel(power, 4);
    }
    lemma_bits((run.values)(shifted) as u64, 0);
}

/// A builtin of two arguments computes what it means.
#[verifier::rlimit(60)]
proof fn lemma_binary(
    run: Run,
    state: State,
    builder: usize,
    function: FunctionRef,
    name: Seq<char>,
    first: Operand,
    second: Operand,
    from: int,
)
    requires
        binary_builtin_steps(state, builder, function, name, Val::Word(first), Val::Word(second)) matches Ok((after, _))
            && is_run(run, after.trace, from),
        0 <= from <= state.trace.len(),
    ensures
        binary_meaning(name, (run.values)(first), (run.values)(second), run) matches Some(meant) ==> (
        binary_builtin_steps(state, builder, function, name, Val::Word(first), Val::Word(second)) matches Ok(
            (after, value),
        ) && passes(run, state, after, builder) && leaves(run, value, meant)),
{
    broadcast use {lemma_run_last, lemma_standing};

    reveal(binary_meaning);
    reveal(binary_builtin_steps);
    let (after, value) = binary_builtin_steps(
        state,
        builder,
        function,
        name,
        Val::Word(first),
        Val::Word(second),
    )->Ok_0;
    lemma_run_literals(run, after.trace, from);
    lemma_two_values(run, first, second);
    if name == "eq?"@ || name == "eqv?"@ {
        reveal(compare_codegen_values_steps);
        let (tested, condition) = compare_steps(state, builder, Predicate::Equal, first, second);
        lemma_answer(run, tested, builder, condition, from);
    } else if name == "equal?"@ {
        reveal(binary_runtime_steps);
        reveal(value_to_word_steps);
        let (called, condition) = call_steps(state, builder, RuntimeFunction::Equal, seq![first, second]);
        lemma_answer(run, called, builder, condition, from);
    } else if name == "list-tail"@ || name == "list-ref"@ || name == "string-ref"@ || name == "vector-ref"@ {
        reveal(list_place_steps);
        reveal(reference_steps);
        reveal(element_steps);
        reveal(value_to_word_steps);
        let (taken, place) = fixnum_operand_steps(state, builder, function, second);
        lemma_taken_grows(state, builder, function, second);
        lemma_two_values(run, first, place);
        assert(is_run(run, taken.trace, from));
        lemma_integer_taken(run, state, builder, function, second, from);
    } else {
        reveal(binary_runtime_steps);
        reveal(value_to_word_steps);
    }
}

/// What expressions mean, the first so many of a row.
pub open spec fn meanings(exprs: Seq<Expr>, vars: Vars, run: Run, count: nat) -> Option<Seq<int>>
    decreases exprs, 10nat, count,
{
    if count == 0 || count > exprs.len() {
        Some(Seq::empty())
    } else {
        match meanings(exprs, vars, run, (count - 1) as nat) {
            None => None,
            Some(before) => match meaning(exprs[count - 1], vars, run) {
                None => None,
                Some(word) => Some(before.push(word)),
            },
        }
    }
}

/// What names mean, as far as that is known.
pub type Vars = Map<Seq<char>, Option<int>>;

/// Whether a scope binds the names to what they mean.
pub open spec fn agrees(env: Env, vars: Vars, run: Run) -> bool {
    &&& forall|name: Seq<char>| #[trigger] env.contains_key(name) <==> vars.contains_key(name)
    &&& forall|name: Seq<char>|
        #![trigger env[name]]
        #![trigger vars[name]]
        vars.contains_key(name) ==> (vars[name] matches Some(word) ==> match env[name] {
            Val::Word(operand) => (run.values)(operand) == word,
            Val::RootedWord { slot } => (run.cells)(slot) == word,
            _ => false,
        })
}

/// What a variable means.
pub open spec fn variable_meaning(vars: Vars, name: Seq<char>) -> Option<int> {
    if vars.contains_key(name) {
        vars[name]
    } else {
        None
    }
}

/// What a builtin makes of the words of its arguments, where that is known. `None` where it fails.
pub open spec fn builtin_meaning(name: Seq<char>, words: Seq<int>, run: Run) -> Option<int> {
    if name == "+"@ || name == "-"@ || name == "*"@ || name == "/"@ {
        if are_integer_words(words) {
            match arithmetic(name, integers_in(words)) {
                Some(result) => Some(integer_word(result)),
                None => None,
            }
        } else {
            None
        }
    } else if name == "="@ || name == "<"@ || name == ">"@ || name == "<="@ || name == ">="@ {
        if words.len() >= 2 && are_integer_words(words) {
            Some(truth_word(all_related(name, integers_in(words))))
        } else {
            None
        }
    } else if name == "char=?"@ || name == "char<?"@ || name == "char>?"@ || name == "char<=?"@ || name == "char>=?"@ {
        if words.len() >= 2 && are_character_words(words) {
            Some(truth_word(all_related(relation_of(name), words)))
        } else {
            None
        }
    } else if words.len() == 1 {
        unary_meaning(name, words[0], run)
    } else if words.len() == 2 {
        binary_meaning(name, words[0], words[1], run)
    } else {
        None
    }
}

/// The relation of numbers that a comparison of characters is named after.
pub open spec fn relation_of(name: Seq<char>) -> Seq<char> {
    if name == "char=?"@ {
        "="@
    } else if name == "char<?"@ {
        "<"@
    } else if name == "char>?"@ {
        ">"@
    } else if name == "char<=?"@ {
        "<="@
    } else {
        ">="@
    }
}

/// What names mean behind the first bindings of a row. The value of a binding is what it means outside or,
/// where the bindings follow each other, behind the bindings before it. Of names that the body assigns to,
/// or whose pair it changes, nothing is known.
pub open spec fn bound_meanings(
    bindings: Seq<Binding>,
    outer: Vars,
    vars: Vars,
    run: Run,
    count: nat,
    body: Expr,
    sequential: bool,
) -> Option<Vars>
    decreases bindings, 10nat, count,
{
    if count == 0 || count > bindings.len() {
        Some(vars)
    } else {
        match bound_meanings(bindings, outer, vars, run, (count - 1) as nat, body, sequential) {
            None => None,
            Some(before) => match meaning(
                bindings[count - 1].value,
                if sequential {
                    before
                } else {
                    outer
                },
                run,
            ) {
                None => None,
                Some(word) => Some(
                    before.insert(
                        bindings[count - 1].name@,
                        if assigned_in(body, binding_names(bindings)).contains(bindings[count - 1].name@) || changed_in(
                            body,
                            binding_names(bindings),
                        ).contains(bindings[count - 1].name@) {
                            None
                        } else {
                            Some(word)
                        },
                    ),
                ),
            },
        }
    }
}

/// The word that an expression means in a run, where that is known: literals, variables that hold words,
/// sequences, conditionals, local bindings, and calls of builtins on such expressions. `None` where it fails.
pub open spec fn meaning(expr: Expr, vars: Vars, run: Run) -> Option<int>
    decreases expr, 20nat, 0nat,
{
    match expr.kind {
        ExprKind::Unspecified => Some(14),
        ExprKind::Integer(value) => Some(integer_word(value as int)),
        ExprKind::Boolean(value) => Some(truth_word(value)),
        ExprKind::Char(value) => Some(8 * (value as int) + 4),
        ExprKind::Variable(name) => variable_meaning(vars, name@),
        ExprKind::Begin(exprs) => match meanings(exprs@, vars, run, exprs@.len()) {
            Some(words) => if words.len() == 0 {
                None
            } else {
                Some(words.last())
            },
            None => None,
        },
        ExprKind::If { condition, then_branch, else_branch } => match meaning(*condition, vars, run) {
            Some(word) => if word != false_word() {
                meaning(*then_branch, vars, run)
            } else {
                meaning(*else_branch, vars, run)
            },
            None => None,
        },
        ExprKind::Let { bindings, body } => match bound_meanings(bindings@, vars, vars, run, bindings@.len(), *body, false) {
            Some(scoped) => meaning(*body, scoped, run),
            None => None,
        },
        ExprKind::LetStar { bindings, body } => match bound_meanings(
            bindings@,
            vars,
            vars,
            run,
            bindings@.len(),
            *body,
            true,
        ) {
            Some(scoped) => meaning(*body, scoped, run),
            None => None,
        },
        ExprKind::Call { callee, args } => match callee.kind {
            ExprKind::Variable(name) => if vars.contains_key(name@) {
                None
            } else {
                match meanings(args@, vars, run, args@.len()) {
                    Some(words) => builtin_meaning(name@, words, run),
                    None => None,
                }
            },
            _ => None,
        },
        _ => None,
    }
}

/// Names of different builtins differ.
proof fn lemma_builtin_names(name: Seq<char>)
    ensures
        is_binary(name) ==> !is_unary(name),
        name == "+"@ || name == "-"@ || name == "*"@ || name == "/"@ ==> !is_unary(name) && !is_binary(name),
        name == "="@ || name == "<"@ || name == ">"@ || name == "<="@ || name == ">="@ ==> !is_unary(name) && !is_binary(name),
        name == "char=?"@ || name == "char<?"@ || name == "char>?"@ || name == "char<=?"@ || name == "char>=?"@ ==> !is_unary(name) && !is_binary(name) && name != "+"@ && name != "-"@ && name != "*"@ && name != "/"@,
        name == "="@ || name == "<"@ || name == ">"@ || name == "<="@ || name == ">="@ ==> name != "+"@ && name != "-"@
            && name != "*"@ && name != "/"@ && name.len() <= 2,
        name == "char=?"@ || name == "char<?"@ || name == "char>?"@ || name == "char<=?"@ || name == "char>=?"@ ==> name.len()
            > 5,
        "="@.len() == 1 && "<"@.len() == 1 && ">"@.len() == 1 && "<="@.len() == 2 && ">="@.len() == 2,
        "-"@ != "+"@ && "*"@ != "+"@ && "*"@ != "-"@ && "/"@ != "+"@ && "/"@ != "-"@ && "/"@ != "*"@,
{
    reveal(is_unary);
    reveal(is_binary);
    reveal_strlit("not");
    reveal_strlit("boolean?");
    reveal_strlit("zero?");
    reveal_strlit("char?");
    reveal_strlit("char->integer");
    reveal_strlit("integer->char");
    reveal_strlit("symbol?");
    reveal_strlit("symbol->string");
    reveal_strlit("string->symbol");
    reveal_strlit("procedure?");
    reveal_strlit("raise");
    reveal_strlit("list-copy");
    reveal_strlit("reverse");
    reveal_strlit("car");
    reveal_strlit("cdr");
    reveal_strlit("pair?");
    reveal_strlit("list?");
    reveal_strlit("length");
    reveal_strlit("null?");
    reveal_strlit("string?");
    reveal_strlit("string-length");
    reveal_strlit("display");
    reveal_strlit("write");
    reveal_strlit("gc-stress");
    reveal_strlit("vector?");
    reveal_strlit("vector-length");
    reveal_strlit("eq?");
    reveal_strlit("eqv?");
    reveal_strlit("equal?");
    reveal_strlit("list-tail");
    reveal_strlit("list-ref");
    reveal_strlit("string-ref");
    reveal_strlit("vector-ref");
    reveal_strlit("memq");
    reveal_strlit("memv");
    reveal_strlit("member");
    reveal_strlit("assq");
    reveal_strlit("assv");
    reveal_strlit("assoc");
    reveal_strlit("+");
    reveal_strlit("-");
    reveal_strlit("*");
    reveal_strlit("/");
    reveal_strlit("=");
    reveal_strlit("<");
    reveal_strlit(">");
    reveal_strlit("<=");
    reveal_strlit(">=");
    reveal_strlit("char=?");
    reveal_strlit("char<?");
    reveal_strlit("char>?");
    reveal_strlit("char<=?");
    reveal_strlit("char>=?");
    assert("not"@.len() == 3 && "not"@[0] == 'n');
    assert("boolean?"@.len() == 8 && "boolean?"@[0] == 'b' && "boolean?"@[5] == 'a');
    assert("zero?"@.len() == 5 && "zero?"@[0] == 'z');
    assert("char?"@.len() == 5 && "char?"@[0] == 'c');
    assert("char->integer"@.len() == 13 && "char->integer"@[0] == 'c' && "char->integer"@[5] == '>');
    assert("integer->char"@.len() == 13 && "integer->char"@[0] == 'i' && "integer->char"@[5] == 'e');
    assert("symbol?"@.len() == 7 && "symbol?"@[0] == 's' && "symbol?"@[5] == 'l');
    assert("symbol->string"@.len() == 14 && "symbol->string"@[0] == 's' && "symbol->string"@[5] == 'l');
    assert("string->symbol"@.len() == 14 && "string->symbol"@[0] == 's' && "string->symbol"@[5] == 'g');
    assert("procedure?"@.len() == 10 && "procedure?"@[0] == 'p' && "procedure?"@[5] == 'd');
    assert("raise"@.len() == 5 && "raise"@[0] == 'r');
    assert("list-copy"@.len() == 9 && "list-copy"@[0] == 'l' && "list-copy"@[5] == 'c');
    assert("reverse"@.len() == 7 && "reverse"@[0] == 'r' && "reverse"@[5] == 's');
    assert("car"@.len() == 3 && "car"@[0] == 'c');
    assert("cdr"@.len() == 3 && "cdr"@[0] == 'c');
    assert("pair?"@.len() == 5 && "pair?"@[0] == 'p');
    assert("list?"@.len() == 5 && "list?"@[0] == 'l');
    assert("length"@.len() == 6 && "length"@[0] == 'l' && "length"@[5] == 'h');
    assert("null?"@.len() == 5 && "null?"@[0] == 'n');
    assert("string?"@.len() == 7 && "string?"@[0] == 's' && "string?"@[5] == 'g');
    assert("string-length"@.len() == 13 && "string-length"@[0] == 's' && "string-length"@[5] == 'g');
    assert("display"@.len() == 7 && "display"@[0] == 'd' && "display"@[5] == 'a');
    assert("write"@.len() == 5 && "write"@[0] == 'w');
    assert("gc-stress"@.len() == 9 && "gc-stress"@[0] == 'g' && "gc-stress"@[5] == 'r');
    assert("vector?"@.len() == 7 && "vector?"@[0] == 'v' && "vector?"@[5] == 'r');
    assert("vector-length"@.len() == 13 && "vector-length"@[0] == 'v' && "vector-length"@[5] == 'r');
    assert("eq?"@.len() == 3 && "eq?"@[0] == 'e');
    assert("eqv?"@.len() == 4 && "eqv?"@[0] == 'e');
    assert("equal?"@.len() == 6 && "equal?"@[0] == 'e' && "equal?"@[5] == '?');
    assert("list-tail"@.len() == 9 && "list-tail"@[0] == 'l' && "list-tail"@[5] == 't');
    assert("list-ref"@.len() == 8 && "list-ref"@[0] == 'l' && "list-ref"@[5] == 'r');
    assert("string-ref"@.len() == 10 && "string-ref"@[0] == 's' && "string-ref"@[5] == 'g');
    assert("vector-ref"@.len() == 10 && "vector-ref"@[0] == 'v' && "vector-ref"@[5] == 'r');
    assert("memq"@.len() == 4 && "memq"@[0] == 'm');
    assert("memv"@.len() == 4 && "memv"@[0] == 'm');
    assert("member"@.len() == 6 && "member"@[0] == 'm' && "member"@[5] == 'r');
    assert("assq"@.len() == 4 && "assq"@[0] == 'a');
    assert("assv"@.len() == 4 && "assv"@[0] == 'a');
    assert("assoc"@.len() == 5 && "assoc"@[0] == 'a');
    assert("+"@.len() == 1 && "+"@[0] == '+');
    assert("-"@.len() == 1 && "-"@[0] == '-');
    assert("*"@.len() == 1 && "*"@[0] == '*');
    assert("/"@.len() == 1 && "/"@[0] == '/');
    assert("="@.len() == 1 && "="@[0] == '=');
    assert("<"@.len() == 1 && "<"@[0] == '<');
    assert(">"@.len() == 1 && ">"@[0] == '>');
    assert("<="@.len() == 2 && "<="@[0] == '<');
    assert(">="@.len() == 2 && ">="@[0] == '>');
    assert("char=?"@.len() == 6 && "char=?"@[0] == 'c' && "char=?"@[5] == '?');
    assert("char<?"@.len() == 6 && "char<?"@[0] == 'c' && "char<?"@[5] == '?');
    assert("char>?"@.len() == 6 && "char>?"@[0] == 'c' && "char>?"@[5] == '?');
    assert("char<=?"@.len() == 7 && "char<=?"@[0] == 'c' && "char<=?"@[5] == '=');
    assert("char>=?"@.len() == 7 && "char>=?"@[0] == 'c' && "char>=?"@[5] == '=');
}

/// What has a meaning is a builtin.
pub(crate) proof fn lemma_known_builtin(name: Seq<char>, words: Seq<int>, run: Run)
    requires
        builtin_meaning(name, words, run) is Some,
    ensures
        is_builtin_name(name),
{
    reveal(is_builtin_name);
    reveal(unary_meaning);
    reveal(binary_meaning);
    let list = builtin_name_list();
    assert(list[0] == "+"@);
    assert(list[1] == "-"@);
    assert(list[2] == "*"@);
    assert(list[3] == "/"@);
    assert(list[4] == "="@);
    assert(list[5] == "<"@);
    assert(list[6] == ">"@);
    assert(list[7] == "<="@);
    assert(list[8] == ">="@);
    assert(list[9] == "not"@);
    assert(list[10] == "boolean?"@);
    assert(list[11] == "zero?"@);
    assert(list[12] == "char?"@);
    assert(list[13] == "char=?"@);
    assert(list[14] == "char<?"@);
    assert(list[15] == "char>?"@);
    assert(list[16] == "char<=?"@);
    assert(list[17] == "char>=?"@);
    assert(list[18] == "char->integer"@);
    assert(list[19] == "integer->char"@);
    assert(list[20] == "symbol?"@);
    assert(list[21] == "symbol->string"@);
    assert(list[22] == "string->symbol"@);
    assert(list[29] == "eq?"@);
    assert(list[30] == "eqv?"@);
    assert(list[31] == "equal?"@);
    assert(list[36] == "memq"@);
    assert(list[37] == "memv"@);
    assert(list[38] == "member"@);
    assert(list[39] == "assq"@);
    assert(list[40] == "assv"@);
    assert(list[41] == "assoc"@);
    assert(list[42] == "list-copy"@);
    assert(list[43] == "reverse"@);
    assert(list[45] == "car"@);
    assert(list[46] == "cdr"@);
    assert(list[49] == "pair?"@);
    assert(list[50] == "list?"@);
    assert(list[51] == "length"@);
    assert(list[52] == "list-tail"@);
    assert(list[53] == "list-ref"@);
    assert(list[54] == "null?"@);
    assert(list[55] == "string?"@);
    assert(list[56] == "string-length"@);
    assert(list[57] == "string-ref"@);
    assert(list[58] == "display"@);
    assert(list[59] == "write"@);
    assert(list[63] == "vector?"@);
    assert(list[64] == "vector-length"@);
    assert(list[65] == "vector-ref"@);
}

/// Whether the code of an expression leaves what the expression means, where the run comes to it.
pub open spec fn means(run: Run, before: State, after: State, builder: usize, value: Val, meant: Option<int>) -> bool {
    meant matches Some(word) ==> ((run.reached)(standing(before.trace, builder)) ==> (run.reached)(
        standing(after.trace, builder),
    ) && leaves(run, value, word))
}

/// Whether no exception is ever pending, on a machine with words of this size.
pub open spec fn is_calm(run: Run) -> bool {
    (run.answers)(RuntimeFunction::RtExceptionPending, Seq::empty()) == 0 && usize::MAX == u64::MAX
}

/// The code of integers leaves them.
proof fn lemma_integers_meant(
    run: Run,
    state: State,
    builder: usize,
    function: FunctionRef,
    env: Env,
    vars: Vars,
    args: Seq<Expr>,
    count: nat,
    context: Seq<char>,
    from: int,
)
    requires
        is_calm(run),
        agrees(env, vars, run),
        integers_steps(state, builder, function, env, args, count, context) matches Ok((after, _)) && is_run(
            run,
            after.trace,
            from,
        ),
        0 <= from <= state.trace.len(),
        count <= args.len(),
    ensures
        integers_steps(state, builder, function, env, args, count, context) matches Ok((after, operands))
            && operands.len() == count && (meanings(args, vars, run, count) matches Some(words) ==> words.len() == count && (
        are_integer_words(words) && (run.reached)(standing(state.trace, builder)) ==> (run.reached)(
            standing(after.trace, builder),
        ) && forall|i: int|
            0 <= i < count ==> (run.values)(#[trigger] operands[i]) == wrapped(integer_in(words[i])) && 0 <= words[i]
                < modulus())),
    decreases args, 10nat, count,
{
    broadcast use group_continues;

    if count > 0 {
        let less = (count - 1) as nat;
        let (first, before) = integers_steps(state, builder, function, env, args, less, context)->Ok_0;
        let (second, value) = compile_expr_steps(first, builder, function, env, args[count - 1])->Ok_0;
        let word = word_of(value, context)->Ok_0;
        let (third, integer) = fixnum_operand_steps(second, builder, function, word);
        lemma_slots_integers(state, builder, function, env, args, less, context, 0);
        lemma_slots_compile_expr(first, builder, function, env, args[count - 1], 0);
        lemma_integer_taken(run, second, builder, function, word, from);
        lemma_run_literals(run, second.trace, from);
        lemma_run_start(run, first.trace, second.trace, from);
        lemma_integers_meant(run, state, builder, function, env, vars, args, less, context, from);
        lemma_meaning(run, first, builder, function, env, vars, args[count - 1], from);
        if let Some(words) = meanings(args, vars, run, count) {
            let fewer = meanings(args, vars, run, less)->0;
            assert(words[count - 1] == words.last());
            assert forall|i: int| 0 <= i < less implies fewer[i] == words[i] by {}
            if are_integer_words(words) {
                assert(are_integer_words(fewer)) by {
                    assert forall|i: int| 0 <= i < fewer.len() implies is_integer_word(#[trigger] fewer[i]) by {
                        assert(fewer[i] == words[i]);
                    }
                }
                assert(is_integer_word(words[count - 1]));
            }
        }
    }
}

/// The code of characters leaves their numbers.
proof fn lemma_characters_meant(
    run: Run,
    state: State,
    builder: usize,
    function: FunctionRef,
    env: Env,
    vars: Vars,
    args: Seq<Expr>,
    count: nat,
    from: int,
)
    requires
        is_calm(run),
        agrees(env, vars, run),
        chars_steps(state, builder, function, env, args, count) matches Ok((after, _)) && is_run(run, after.trace, from),
        0 <= from <= state.trace.len(),
        count <= args.len(),
    ensures
        chars_steps(state, builder, function, env, args, count) matches Ok((after, operands)) && operands.len() == count
            && (meanings(args, vars, run, count) matches Some(words) ==> words.len() == count && (are_character_words(words)
            && (run.reached)(standing(state.trace, builder)) ==> (run.reached)(standing(after.trace, builder)) && forall|
            i: int,
        |
            0 <= i < count ==> (run.values)(#[trigger] operands[i]) == words[i] / 8 && 0 <= words[i] < modulus())),
    decreases args, 10nat, count,
{
    broadcast use group_continues;

    if count > 0 {
        let less = (count - 1) as nat;
        let (first, before) = chars_steps(state, builder, function, env, args, less)->Ok_0;
        let (second, value) = compile_expr_steps(first, builder, function, env, args[count - 1])->Ok_0;
        let word = word_of(value, "char comparison argument"@)->Ok_0;
        let (third, scalar) = char_operand_steps(second, builder, function, word);
        lemma_slots_chars(state, builder, function, env, args, less, 0);
        lemma_slots_compile_expr(first, builder, function, env, args[count - 1], 0);
        lemma_character_taken(run, second, builder, function, word, from);
        lemma_run_literals(run, second.trace, from);
        lemma_run_start(run, first.trace, second.trace, from);
        lemma_characters_meant(run, state, builder, function, env, vars, args, less, from);
        lemma_meaning(run, first, builder, function, env, vars, args[count - 1], from);
        if let Some(words) = meanings(args, vars, run, count) {
            let fewer = meanings(args, vars, run, less)->0;
            assert(words[count - 1] == words.last());
            assert forall|i: int| 0 <= i < less implies fewer[i] == words[i] by {}
            if are_character_words(words) {
                assert(are_character_words(fewer)) by {
                    assert forall|i: int| 0 <= i < fewer.len() implies is_character_word(#[trigger] fewer[i]) by {
                        assert(fewer[i] == words[i]);
                    }
                }
                assert(is_character_word(words[count - 1]));
            }
        }
    }
}

/// Sums, differences, products and quotients are computed.
proof fn lemma_arithmetic_meant(
    run: Run,
    state: State,
    builder: usize,
    function: FunctionRef,
    env: Env,
    vars: Vars,
    name: Seq<char>,
    args: Seq<Expr>,
    from: int,
)
    requires
        is_calm(run),
        agrees(env, vars, run),
        name == "+"@ || name == "-"@ || name == "*"@ || name == "/"@,
        numeric_builtin_steps(state, builder, function, env, name, args) matches Ok((after, _)) && is_run(
            run,
            after.trace,
            from,
        ),
        0 <= from <= state.trace.len(),
    ensures
        numeric_builtin_steps(state, builder, function, env, name, args) matches Ok((after, value)) && (meanings(
            args,
            vars,
            run,
            args.len(),
        ) matches Some(words) ==> means(run, state, after, builder, value, builtin_meaning(name, words, run))),
    decreases args, 40nat, 0nat,
{
    broadcast use {group_continues, lemma_run_last, lemma_standing};

    lemma_builtin_names(name);
    let context = "builtin argument"@;
    let (after, value) = numeric_builtin_steps(state, builder, function, env, name, args)->Ok_0;
    let (first, operands) = integers_steps(state, builder, function, env, args, args.len(), context)->Ok_0;
    lemma_slots_integers(state, builder, function, env, args, args.len(), context, 0);
    lemma_run_literals(run, after.trace, from);
    let op = if name == "+"@ {
        BinaryOp::Plus
    } else if name == "*"@ {
        BinaryOp::Times
    } else if name == "-"@ {
        BinaryOp::Minus
    } else {
        BinaryOp::SignedDivide
    };
    let alone = name == "-"@ && operands.len() == 1;
    let neutral = if name == "+"@ {
        Operand::Word(0)
    } else if name == "*"@ {
        Operand::Word(1)
    } else {
        operands[0]
    };
    let start: nat = if name == "-"@ || name == "/"@ {
        1
    } else {
        0
    };
    let (second, raw) = if alone {
        binary_steps(first, builder, BinaryOp::Minus, Operand::Word(0), operands[0])
    } else {
        fold_steps(first, builder, op, neutral, operands, start, operands.len())
    };
    lemma_fold_grows(first, builder, op, neutral, operands, start, operands.len());
    lemma_integer_put(run, second, builder, raw, from);
    lemma_run_start(run, first.trace, second.trace, from);
    lemma_integers_meant(run, state, builder, function, env, vars, args, args.len(), context, from);
    if let Some(words) = meanings(args, vars, run, args.len()) {
        if are_integer_words(words) && (run.reached)(standing(state.trace, builder)) {
            let integers = integers_in(words);
            assert forall|i: int| 0 <= i < operands.len() implies (run.values)(#[trigger] operands[i]) == wrapped(
                integers[i],
            ) by {}
            if alone {
                lemma_wraps(0, integers[0]);
                lemma_doubled(0 - integers[0]);
            } else if name == "/"@ {
                if arithmetic(name, integers) is Some {
                    assert forall|i: int| 1 <= i < integers.len() implies #[trigger] integers[i] != 0 by {}
                    lemma_divided(run, first, builder, operands, operands.len(), integers, from);
                    assert(integers.subrange(1, integers.len() as int) =~= integers.skip(1));
                    lemma_doubled(combined(op, integers[0], integers.skip(1)));
                }
            } else if start <= operands.len() {
                let initial = if name == "+"@ {
                    0
                } else if name == "*"@ {
                    1
                } else {
                    integers[0]
                };
                lemma_combined(
                    run,
                    first,
                    builder,
                    op,
                    neutral,
                    operands,
                    start,
                    operands.len(),
                    integers,
                    initial,
                    from,
                );
                assert(integers.subrange(0, integers.len() as int) =~= integers);
                assert(start == 1 ==> integers.subrange(1, integers.len() as int) =~= integers.skip(1));
                lemma_doubled(combined(op, initial, integers.subrange(start as int, operands.len() as int)));
            }
        }
    }
}

/// The word of an integer depends on what it wraps around to.
proof fn lemma_doubled(value: int)
    ensures
        integer_word(wrapped(value)) == integer_word(value),
{
    lemma_wraps(value, value);
    lemma_wraps(2 * value, 1);
    lemma_wraps(wrapped(value), wrapped(value));
    lemma_wraps(2 * wrapped(value), 1);
    assert(wrapped(wrapped(value)) == wrapped(value));
}

/// Comparisons of integers are computed.
proof fn lemma_comparison_meant(
    run: Run,
    state: State,
    builder: usize,
    function: FunctionRef,
    env: Env,
    vars: Vars,
    name: Seq<char>,
    args: Seq<Expr>,
    from: int,
)
    requires
        is_calm(run),
        agrees(env, vars, run),
        name == "="@ || name == "<"@ || name == ">"@ || name == "<="@ || name == ">="@,
        numeric_comparison_steps(state, builder, function, env, name, args) matches Ok((after, _)) && is_run(
            run,
            after.trace,
            from,
        ),
        0 <= from <= state.trace.len(),
    ensures
        numeric_comparison_steps(state, builder, function, env, name, args) matches Ok((after, value)) && (meanings(
            args,
            vars,
            run,
            args.len(),
        ) matches Some(words) ==> (words.len() >= 2 && are_integer_words(words) ==> means(
            run,
            state,
            after,
            builder,
            value,
            Some(truth_word(all_related(name, integers_in(words)))),
        ))),
    decreases args, 40nat, 0nat,
{
    broadcast use group_continues;

    let context = "numeric comparison argument"@;
    let (after, value) = numeric_comparison_steps(state, builder, function, env, name, args)->Ok_0;
    let (first, operands) = integers_steps(state, builder, function, env, args, args.len(), context)->Ok_0;
    lemma_slots_integers(state, builder, function, env, args, args.len(), context, 0);
    let predicate = numeric_predicate(name);
    let count = (operands.len() - 1) as nat;
    let (second, condition) = chain_steps(first, builder, predicate, operands, count);
    lemma_chain_grows(first, builder, predicate, operands, count);
    lemma_truth_put(run, second, builder, condition, from);
    lemma_integers_length(state, builder, function, env, args, args.len(), context);
    lemma_chained(run, first, builder, predicate, operands, count, from);
    lemma_integers_meant(run, state, builder, function, env, vars, args, args.len(), context, from);
    lemma_run_literals(run, first.trace, from);
    if let Some(words) = meanings(args, vars, run, args.len()) {
        if are_integer_words(words) && (run.reached)(standing(state.trace, builder)) {
            let integers = integers_in(words);
            let held = values_of(run, operands);
            assert forall|i: int| 0 <= i < held.len() implies signed(#[trigger] held[i]) == integers[i] by {
                assert(held[i] == (run.values)(operands[i]));
                assert(held[i] == wrapped(integer_in(words[i])));
            }
            lemma_comparison_names();
            assert(are_chained(predicate, held, count as int) == all_related(name, integers)) by {
                assert forall|i: int| 0 <= i < count implies holds(predicate, #[trigger] held[i], held[i + 1]) == related(
                    name,
                    integers[i],
                    integers[i + 1],
                ) by {
                    assert(signed(held[i]) == integers[i] && signed(held[i + 1]) == integers[i + 1]);
                    assert(held[i] == (run.values)(operands[i]) && held[i + 1] == (run.values)(operands[i + 1]));
                }
                if are_chained(predicate, held, count as int) {
                    assert forall|i: int| 0 <= i < integers.len() - 1 implies related(
                        name,
                        #[trigger] integers[i],
                        integers[i + 1],
                    ) by {
                        assert(holds(predicate, held[i], held[i + 1]));
                    }
                }
                if all_related(name, integers) {
                    assert forall|i: int| 0 <= i < count implies holds(predicate, #[trigger] held[i], held[i + 1]) by {
                        assert(related(name, integers[i], integers[i + 1]));
                    }
                }
            }
        }
    }
}

/// Comparisons of characters are computed.
proof fn lemma_character_comparison_meant(
    run: Run,
    state: State,
    builder: usize,
    function: FunctionRef,
    env: Env,
    vars: Vars,
    name: Seq<char>,
    args: Seq<Expr>,
    from: int,
)
    requires
        is_calm(run),
        agrees(env, vars, run),
        name == "char=?"@ || name == "char<?"@ || name == "char>?"@ || name == "char<=?"@ || name == "char>=?"@,
        char_comparison_steps(state, builder, function, env, name, args) matches Ok((after, _)) && is_run(
            run,
            after.trace,
            from,
        ),
        0 <= from <= state.trace.len(),
    ensures
        char_comparison_steps(state, builder, function, env, name, args) matches Ok((after, value)) && (meanings(
            args,
            vars,
            run,
            args.len(),
        ) matches Some(words) ==> (words.len() >= 2 && are_character_words(words) ==> means(
            run,
            state,
            after,
            builder,
            value,
            Some(truth_word(all_related(relation_of(name), words))),
        ))),
    decreases args, 40nat, 0nat,
{
    broadcast use group_continues;

    let (after, value) = char_comparison_steps(state, builder, function, env, name, args)->Ok_0;
    let (first, operands) = chars_steps(state, builder, function, env, args, args.len())->Ok_0;
    lemma_slots_chars(state, builder, function, env, args, args.len(), 0);
    let predicate = char_predicate(name);
    let count = (operands.len() - 1) as nat;
    let (second, condition) = chain_steps(first, builder, predicate, operands, count);
    lemma_chain_grows(first, builder, predicate, operands, count);
    lemma_truth_put(run, second, builder, condition, from);
    lemma_characters_length(state, builder, function, env, args, args.len());
    lemma_chained(run, first, builder, predicate, operands, count, from);
    lemma_characters_meant(run, state, builder, function, env, vars, args, args.len(), from);
    if let Some(words) = meanings(args, vars, run, args.len()) {
        if are_character_words(words) && (run.reached)(standing(state.trace, builder)) {
            let held = values_of(run, operands);
            assert forall|i: int| 0 <= i < held.len() implies #[trigger] held[i] == words[i] / 8 by {
                assert(held[i] == (run.values)(operands[i]));
            }
            lemma_comparison_names();
            let relation = relation_of(name);
            assert(are_chained(predicate, held, count as int) == all_related(relation, words)) by {
                assert forall|i: int| 0 <= i < count implies holds(predicate, #[trigger] held[i], held[i + 1]) == related(
                    relation,
                    words[i],
                    words[i + 1],
                ) by {
                    assert(is_character_word(words[i]) && is_character_word(words[i + 1]));
                    assert(held[i] == words[i] / 8 && held[i + 1] == words[i + 1] / 8);
                }
                if are_chained(predicate, held, count as int) {
                    assert forall|i: int| 0 <= i < words.len() - 1 implies related(
                        relation,
                        #[trigger] words[i],
                        words[i + 1],
                    ) by {
                        assert(holds(predicate, held[i], held[i + 1]));
                    }
                }
                if all_related(relation, words) {
                    assert forall|i: int| 0 <= i < count implies holds(predicate, #[trigger] held[i], held[i + 1]) by {
                        assert(related(relation, words[i], words[i + 1]));
                    }
                }
            }
        }
    }
}

proof fn lemma_integers_length(
    state: State,
    builder: usize,
    function: FunctionRef,
    env: Env,
    args: Seq<Expr>,
    count: nat,
    context: Seq<char>,
)
    requires
        count <= args.len(),
    ensures
        integers_steps(state, builder, function, env, args, count, context) matches Ok((_, operands)) ==> operands.len()
            == count,
    decreases count,
{
    if count > 0 {
        lemma_integers_length(state, builder, function, env, args, (count - 1) as nat, context);
    }
}

proof fn lemma_characters_length(state: State, builder: usize, function: FunctionRef, env: Env, args: Seq<Expr>, count: nat)
    requires
        count <= args.len(),
    ensures
        chars_steps(state, builder, function, env, args, count) matches Ok((_, operands)) ==> operands.len() == count,
    decreases count,
{
    if count > 0 {
        lemma_characters_length(state, builder, function, env, args, (count - 1) as nat);
    }
}

proof fn lemma_meanings_length(exprs: Seq<Expr>, vars: Vars, run: Run, count: nat)
    requires
        count <= exprs.len(),
    ensures
        meanings(exprs, vars, run, count) matches Some(words) ==> words.len() == count,
    decreases count,
{
    if count > 0 {
        lemma_meanings_length(exprs, vars, run, (count - 1) as nat);
    }
}

/// Expressions that are computed one behind the other leave what the last means.
pub(crate) proof fn lemma_sequence_meant(
    run: Run,
    state: State,
    builder: usize,
    function: FunctionRef,
    env: Env,
    vars: Vars,
    exprs: Seq<Expr>,
    count: nat,
    from: int,
)
    requires
        is_calm(run),
        agrees(env, vars, run),
        compile_all_steps(state, builder, function, env, exprs, count) matches Ok((after, _)) && is_run(
            run,
            after.trace,
            from,
        ),
        0 <= from <= state.trace.len(),
        count <= exprs.len(),
    ensures
        compile_all_steps(state, builder, function, env, exprs, count) matches Ok((after, value)) && (meanings(
            exprs,
            vars,
            run,
            count,
        ) matches Some(words) ==> means(
            run,
            state,
            after,
            builder,
            value,
            Some(
                if words.len() == 0 {
                    integer_word(0)
                } else {
                    words.last()
                },
            ),
        )),
    decreases exprs, 10nat, count,
{
    broadcast use group_continues;

    if count > 0 {
        let less = (count - 1) as nat;
        let (first, before) = compile_all_steps(state, builder, function, env, exprs, less)->Ok_0;
        let (second, value) = compile_expr_steps(first, builder, function, env, exprs[count - 1])->Ok_0;
        lemma_slots_compile_all(state, builder, function, env, exprs, less, 0);
        lemma_slots_compile_expr(first, builder, function, env, exprs[count - 1], 0);
        lemma_run_start(run, first.trace, second.trace, from);
        lemma_sequence_meant(run, state, builder, function, env, vars, exprs, less, from);
        lemma_meaning(run, first, builder, function, env, vars, exprs[count - 1], from);
    } else {
        let (after, value) = compile_all_steps(state, builder, function, env, exprs, count)->Ok_0;
        lemma_run_literals(run, after.trace, from);
    }
}

/// Which code a builtin of numbers has.
proof fn lemma_number_code(state: State, builder: usize, function: FunctionRef, env: Env, name: Seq<char>, args: Seq<Expr>)
    ensures
        name == "+"@ || name == "-"@ || name == "*"@ || name == "/"@ ==> compile_builtin_call_steps(
            state,
            builder,
            function,
            env,
            name,
            args,
        ) == numeric_builtin_steps(state, builder, function, env, name, args),
        name == "="@ || name == "<"@ || name == ">"@ || name == "<="@ || name == ">="@ ==> compile_builtin_call_steps(
            state,
            builder,
            function,
            env,
            name,
            args,
        ) == numeric_comparison_steps(state, builder, function, env, name, args),
        name == "char=?"@ || name == "char<?"@ || name == "char>?"@ || name == "char<=?"@ || name == "char>=?"@
            ==> compile_builtin_call_steps(state, builder, function, env, name, args) == char_comparison_steps(
            state,
            builder,
            function,
            env,
            name,
            args,
        ),
{
    lemma_builtin_names(name);
    lemma_comparison_names();
    assert(!is_unary(name) && !is_binary(name) ==> compile_builtin_call_steps(state, builder, function, env, name, args)
        == compile_other_builtin_steps(state, builder, function, env, name, args));
}

/// A call of a builtin computes what it means.
pub(crate) proof fn lemma_builtin_meant(
    run: Run,
    state: State,
    builder: usize,
    function: FunctionRef,
    env: Env,
    vars: Vars,
    name: Seq<char>,
    args: Seq<Expr>,
    from: int,
)
    requires
        is_calm(run),
        agrees(env, vars, run),
        compile_builtin_call_steps(state, builder, function, env, name, args) matches Ok((after, _)) && is_run(
            run,
            after.trace,
            from,
        ),
        0 <= from <= state.trace.len(),
    ensures
        compile_builtin_call_steps(state, builder, function, env, name, args) matches Ok((after, value)) && (meanings(
            args,
            vars,
            run,
            args.len(),
        ) matches Some(words) ==> means(run, state, after, builder, value, builtin_meaning(name, words, run))),
    decreases args, 50nat, 0nat,
{
    lemma_builtin_names(name);
    lemma_meanings_length(args, vars, run, args.len());
    let words = meanings(args, vars, run, args.len())->0;
    lemma_one_or_two(name, words[0], words[1], run);
    lemma_number_code(state, builder, function, env, name, args);
    if name == "+"@ || name == "-"@ || name == "*"@ || name == "/"@ {
        lemma_arithmetic_meant(run, state, builder, function, env, vars, name, args, from);
    } else if name == "="@ || name == "<"@ || name == ">"@ || name == "<="@ || name == ">="@ {
        lemma_comparison_meant(run, state, builder, function, env, vars, name, args, from);
    } else if name == "char=?"@ || name == "char<?"@ || name == "char>?"@ || name == "char<=?"@ || name == "char>=?"@ {
        lemma_character_comparison_meant(run, state, builder, function, env, vars, name, args, from);
    } else if is_unary(name) {
        if args.len() == 1 {
            lemma_unary_meant(run, state, builder, function, env, vars, name, args, from);
        }
    } else if is_binary(name) {
        if args.len() == 2 {
            lemma_binary_meant(run, state, builder, function, env, vars, name, args, from);
        }
    } else {
        lemma_no_meaning(name, meanings(args, vars, run, args.len())->0, run);
    }
}

/// What is no builtin of one or two arguments means nothing as such.
proof fn lemma_no_meaning(name: Seq<char>, words: Seq<int>, run: Run)
    requires
        !is_unary(name),
        !is_binary(name),
    ensures
        words.len() == 1 ==> unary_meaning(name, words[0], run) is None,
        words.len() == 2 ==> binary_meaning(name, words[0], words[1], run) is None,
{
    reveal(is_unary);
    reveal(is_binary);
    reveal(unary_meaning);
    reveal(binary_meaning);
}

/// A builtin of one argument means nothing with two, and the other way round.
proof fn lemma_one_or_two(name: Seq<char>, first: int, second: int, run: Run)
    ensures
        is_unary(name) ==> binary_meaning(name, first, second, run) is None,
        is_binary(name) ==> unary_meaning(name, first, run) is None,
{
    lemma_builtin_names(name);
    reveal(is_unary);
    reveal(is_binary);
    reveal(unary_meaning);
    reveal(binary_meaning);
}

proof fn lemma_one_meaning(args: Seq<Expr>, vars: Vars, run: Run)
    requires
        args.len() == 1,
    ensures
        meanings(args, vars, run, 1) == (match meaning(args[0], vars, run) {
            Some(word) => Some(seq![word]),
            None => None,
        }),
{
    reveal_with_fuel(meanings, 2);
    if let Some(word) = meaning(args[0], vars, run) {
        assert(Seq::<int>::empty().push(word) =~= seq![word]);
    }
}

proof fn lemma_two_meanings(args: Seq<Expr>, vars: Vars, run: Run)
    requires
        args.len() == 2,
    ensures
        meanings(args, vars, run, 2) == (match (meaning(args[0], vars, run), meaning(args[1], vars, run)) {
            (Some(first), Some(second)) => Some(seq![first, second]),
            _ => None,
        }),
{
    reveal_with_fuel(meanings, 3);
    if let Some(first) = meaning(args[0], vars, run) {
        if let Some(second) = meaning(args[1], vars, run) {
            assert(Seq::<int>::empty().push(first).push(second) =~= seq![first, second]);
        }
    }
}

proof fn lemma_unary_meant(
    run: Run,
    state: State,
    builder: usize,
    function: FunctionRef,
    env: Env,
    vars: Vars,
    name: Seq<char>,
    args: Seq<Expr>,
    from: int,
)
    requires
        is_calm(run),
        agrees(env, vars, run),
        is_unary(name),
        args.len() == 1,
        compile_builtin_call_steps(state, builder, function, env, name, args) matches Ok((after, _)) && is_run(
            run,
            after.trace,
            from,
        ),
        0 <= from <= state.trace.len(),
    ensures
        compile_builtin_call_steps(state, builder, function, env, name, args) matches Ok((after, value)) && (meanings(
            args,
            vars,
            run,
            args.len(),
        ) matches Some(words) ==> words.len() == 1 && means(
            run,
            state,
            after,
            builder,
            value,
            unary_meaning(name, words[0], run),
        )),
    decreases args, 45nat, 0nat,
{
    let (first, argument) = compile_expr_steps(state, builder, function, env, args[0])->Ok_0;
    lemma_slots_compile_expr(state, builder, function, env, args[0], 0);
    lemma_unary_start(run, first, builder, function, name, argument, from);
    lemma_meaning(run, state, builder, function, env, vars, args[0], from);
    lemma_one_meaning(args, vars, run);
    if let Val::Word(word) = argument {
        lemma_unary(run, first, builder, function, name, word, from);
    }
}

proof fn lemma_binary_meant(
    run: Run,
    state: State,
    builder: usize,
    function: FunctionRef,
    env: Env,
    vars: Vars,
    name: Seq<char>,
    args: Seq<Expr>,
    from: int,
)
    requires
        is_calm(run),
        agrees(env, vars, run),
        !is_unary(name),
        is_binary(name),
        args.len() == 2,
        compile_builtin_call_steps(state, builder, function, env, name, args) matches Ok((after, _)) && is_run(
            run,
            after.trace,
            from,
        ),
        0 <= from <= state.trace.len(),
    ensures
        compile_builtin_call_steps(state, builder, function, env, name, args) matches Ok((after, value)) && (meanings(
            args,
            vars,
            run,
            args.len(),
        ) matches Some(words) ==> words.len() == 2 && means(
            run,
            state,
            after,
            builder,
            value,
            binary_meaning(name, words[0], words[1], run),
        )),
    decreases args, 45nat, 0nat,
{
    let (first, left) = compile_expr_steps(state, builder, function, env, args[0])->Ok_0;
    let (second, right) = compile_expr_steps(first, builder, function, env, args[1])->Ok_0;
    lemma_slots_compile_expr(state, builder, function, env, args[0], 0);
    lemma_slots_compile_expr(first, builder, function, env, args[1], 0);
    lemma_binary_start(run, second, builder, function, name, left, right, from);
    lemma_run_start(run, first.trace, second.trace, from);
    lemma_meaning(run, state, builder, function, env, vars, args[0], from);
    lemma_meaning(run, first, builder, function, env, vars, args[1], from);
    lemma_two_meanings(args, vars, run);
    if let Val::Word(one) = left {
        if let Val::Word(two) = right {
            lemma_binary(run, second, builder, function, name, one, two, from);
        }
    }
}

proof fn lemma_unary_start(run: Run, state: State, builder: usize, function: FunctionRef, name: Seq<char>, value: Val, from: int)
    requires
        unary_builtin_steps(state, builder, function, name, value) matches Ok((after, _)) && is_run(
            run,
            after.trace,
            from,
        ),
        0 <= from <= state.trace.len(),
    ensures
        is_run(run, state.trace, from),
{
    broadcast use lemma_slots_unary_builtin;

    assert(counted(0));
    let (after, _) = unary_builtin_steps(state, builder, function, name, value)->Ok_0;
    lemma_run_start(run, state.trace, after.trace, from);
}

proof fn lemma_binary_start(
    run: Run,
    state: State,
    builder: usize,
    function: FunctionRef,
    name: Seq<char>,
    first: Val,
    second: Val,
    from: int,
)
    requires
        binary_builtin_steps(state, builder, function, name, first, second) matches Ok((after, _)) && is_run(
            run,
            after.trace,
            from,
        ),
        0 <= from <= state.trace.len(),
    ensures
        is_run(run, state.trace, from),
{
    broadcast use lemma_slots_binary_builtin;

    assert(counted(0));
    let (after, _) = binary_builtin_steps(state, builder, function, name, first, second)->Ok_0;
    lemma_run_start(run, state.trace, after.trace, from);
}

/// A conditional computes what the branch means that its condition chooses.
proof fn lemma_conditional_meant(run: Run, state: State, builder: usize, function: FunctionRef, env: Env, vars: Vars, expr: Expr, from: int)
    requires
        is_calm(run),
        agrees(env, vars, run),
        expr.kind is If,
        compile_if_steps(state, builder, function, env, expr) matches Ok((after, _)) && is_run(run, after.trace, from),
        0 <= from <= state.trace.len(),
    ensures
        compile_if_steps(state, builder, function, env, expr) matches Ok((after, value)) && means(
            run,
            state,
            after,
            builder,
            value,
            meaning(expr, vars, run),
        ),
    decreases expr, 15nat, 0nat,
{
    broadcast use {group_continues, lemma_run_last, lemma_standing};

    let (after, merged) = compile_if_steps(state, builder, function, env, expr)->Ok_0;
    if let ExprKind::If { condition, then_branch, else_branch } = expr.kind {
        let (tested, value) = compile_expr_steps(state, builder, function, env, *condition)->Ok_0;
        lemma_slots_compile_expr(state, builder, function, env, *condition, 0);
        let (judged, predicate) = truth_steps(tested, builder, value)->Ok_0;
        assert(tested.trace.len() <= judged.trace.len() && continues(tested.trace, judged.trace)) by {
            reveal(truth_steps);
        }
        let (first, then_block) = block_steps(judged, function);
        let (second, else_block) = block_steps(first, function);
        let (third, merge_block) = block_steps(second, function);
        let fourth = branch_if(third, builder, predicate, then_block, else_block);
        let chosen = position(fourth, builder, then_block);
        let (then_done, then_value) = compile_expr_steps(chosen, builder, function, env, *then_branch)->Ok_0;
        lemma_slots_compile_expr(chosen, builder, function, env, *then_branch, 0);
        let then_left = branch(then_done, builder, merge_block);
        let (then_ended, then_exit) = emit_steps(then_left, Op::InsertBlock { builder });
        let other = position(then_ended, builder, else_block);
        let (else_done, else_value) = compile_expr_steps(other, builder, function, env, *else_branch)->Ok_0;
        lemma_slots_compile_expr(other, builder, function, env, *else_branch, 0);
        let else_left = branch(else_done, builder, merge_block);
        let (else_ended, else_exit) = emit_steps(else_left, Op::InsertBlock { builder });
        let joined = position(else_ended, builder, merge_block);
        assert(joined.trace.len() <= after.trace.len() && continues(joined.trace, after.trace)) by {
            reveal(merge_branch_values_steps);
            reveal(phi_steps);
        }
        lemma_run_start(run, joined.trace, after.trace, from);
        assert(is_run(run, else_ended.trace, from));
        assert(is_run(run, else_left.trace, from));
        assert(is_run(run, else_done.trace, from));
        lemma_run_start(run, other.trace, else_done.trace, from);
        assert(is_run(run, then_ended.trace, from));
        assert(is_run(run, then_left.trace, from));
        assert(is_run(run, then_done.trace, from));
        lemma_run_start(run, chosen.trace, then_done.trace, from);
        assert(is_run(run, fourth.trace, from));
        assert(is_run(run, third.trace, from));
        assert(is_run(run, second.trace, from));
        assert(is_run(run, first.trace, from));
        assert(is_run(run, judged.trace, from));
        lemma_run_start(run, tested.trace, judged.trace, from);
        lemma_meaning(run, state, builder, function, env, vars, *condition, from);
        lemma_meaning(run, chosen, builder, function, env, vars, *then_branch, from);
        lemma_meaning(run, other, builder, function, env, vars, *else_branch, from);
        lemma_run_literals(run, after.trace, from);
        assert(leaves(run, value, (run.values)(value->Word_0)) && value is Word ==> standing(judged.trace, builder)
            == standing(tested.trace, builder) && (run.values)(predicate) == bit((run.values)(value->Word_0) != 2)) by {
            reveal(truth_steps);
        }
        reveal(merge_branch_values_steps);
        reveal(phi_steps);
    }
}

/// The code of an expression leaves the word that the expression means, and the run comes behind it.
pub proof fn lemma_meaning(run: Run, state: State, builder: usize, function: FunctionRef, env: Env, vars: Vars, expr: Expr, from: int)
    requires
        is_calm(run),
        agrees(env, vars, run),
        compile_expr_steps(state, builder, function, env, expr) matches Ok((after, _)) && is_run(run, after.trace, from),
        0 <= from <= state.trace.len(),
    ensures
        compile_expr_steps(state, builder, function, env, expr) matches Ok((after, value)) && means(
            run,
            state,
            after,
            builder,
            value,
            meaning(expr, vars, run),
        ),
    decreases expr, 20nat, 0nat,
{
    broadcast use {group_continues, lemma_run_last, lemma_standing};

    let (after, value) = compile_expr_steps(state, builder, function, env, expr)->Ok_0;
    lemma_run_literals(run, after.trace, from);
    match expr.kind {
        ExprKind::Call { callee, args } => {
            if let ExprKind::Variable(name) = callee.kind {
                if !env.contains_key(name@) && meaning(expr, vars, run) is Some {
                    let words = meanings(args@, vars, run, args@.len())->0;
                    lemma_known_builtin(name@, words, run);
                    let (called, result) = compile_builtin_call_steps(
                        state,
                        builder,
                        function,
                        env,
                        name@,
                        args@,
                    )->Ok_0;
                    lemma_slots_compile_builtin_call(state, builder, function, env, name@, args@, 0);
                    lemma_calm(run, called, builder, function, from);
                    lemma_builtin_meant(run, state, builder, function, env, vars, name@, args@, from);
                }
            }
        },
        ExprKind::Begin(exprs) => {
            lemma_sequence_meant(run, state, builder, function, env, vars, exprs@, exprs@.len(), from);
        },
        ExprKind::If { condition, then_branch, else_branch } => {
            lemma_conditional_meant(run, state, builder, function, env, vars, expr, from);
        },
        ExprKind::Let { bindings, body } => {
            lemma_scoped_meant(run, state, builder, function, env, vars, expr, bindings@, *body, false, from);
        },
        ExprKind::LetStar { bindings, body } => {
            lemma_scoped_meant(run, state, builder, function, env, vars, expr, bindings@, *body, true, from);
        },
        ExprKind::Variable(name) => {
            reveal(variable_steps);
            reveal(load_rooted_word_steps);
        },
        _ => {},
    }
}

/// The code of bindings, which see each other or not.
pub open spec fn bindings_steps(
    state: State,
    builder: usize,
    function: FunctionRef,
    env: Env,
    bindings: Seq<Binding>,
    count: nat,
    body: Expr,
    sequential: bool,
) -> Outcome<(Env, nat)> {
    if sequential {
        sequential_bindings_steps(state, builder, function, env, bindings, count, body)
    } else {
        parallel_bindings_steps(state, builder, function, env, bindings, count, body)
    }
}

pub(crate) proof fn lemma_bindings_grow(
    state: State,
    builder: usize,
    function: FunctionRef,
    env: Env,
    bindings: Seq<Binding>,
    count: nat,
    body: Expr,
    sequential: bool,
)
    ensures
        bindings_steps(state, builder, function, env, bindings, count, body, sequential) matches Ok((after, _))
            ==> state.trace.len() <= after.trace.len() && continues(state.trace, after.trace),
{
    lemma_slots_parallel_bindings(state, builder, function, env, bindings, count, body, 0);
    lemma_slots_sequential_bindings(state, builder, function, env, bindings, count, body, 0);
}

/// Bindings bind their names to what their values mean.
pub(crate) proof fn lemma_bindings_meant(
    run: Run,
    state: State,
    builder: usize,
    function: FunctionRef,
    env: Env,
    vars: Vars,
    bindings: Seq<Binding>,
    count: nat,
    body: Expr,
    sequential: bool,
    from: int,
)
    requires
        is_calm(run),
        agrees(env, vars, run),
        bindings_steps(state, builder, function, env, bindings, count, body, sequential) matches Ok((after, _)) && is_run(
            run,
            after.trace,
            from,
        ),
        0 <= from <= state.trace.len(),
        count <= bindings.len(),
    ensures
        bindings_steps(state, builder, function, env, bindings, count, body, sequential) matches Ok((after, (scoped, _)))
            && (bound_meanings(bindings, vars, vars, run, count, body, sequential) matches Some(inner) ==> ((run.reached)(
            standing(state.trace, builder),
        ) ==> (run.reached)(standing(after.trace, builder)) && agrees(scoped, inner, run))),
    decreases bindings, 10nat, count,
{
    broadcast use {group_continues, lemma_slots_bind};

    if count > 0 {
        assert(counted(0));
        let less = (count - 1) as nat;
        let (after, (scoped, _)) = bindings_steps(
            state,
            builder,
            function,
            env,
            bindings,
            count,
            body,
            sequential,
        )->Ok_0;
        let (first, (before, rooted)) = bindings_steps(
            state,
            builder,
            function,
            env,
            bindings,
            less,
            body,
            sequential,
        )->Ok_0;
        lemma_bindings_grow(state, builder, function, env, bindings, less, body, sequential);
        let around = if sequential {
            before
        } else {
            env
        };
        let expr = bindings[count - 1].value;
        let name = bindings[count - 1].name@;
        let (second, value) = compile_expr_steps(first, builder, function, around, expr)->Ok_0;
        lemma_slots_compile_expr(first, builder, function, around, expr, 0);
        let assigned = assigned_in(body, binding_names(bindings));
        let changed = changed_in(body, binding_names(bindings));
        assert((after, (scoped, bind_steps(second, builder, before, rooted, name, value, assigned, changed).1.1))
            == bind_steps(second, builder, before, rooted, name, value, assigned, changed));
        assert(second.trace.len() <= after.trace.len() && continues(second.trace, after.trace));
        lemma_run_start(run, second.trace, after.trace, from);
        lemma_run_start(run, first.trace, second.trace, from);
        lemma_bindings_meant(run, state, builder, function, env, vars, bindings, less, body, sequential, from);
        if bound_meanings(bindings, vars, vars, run, count, body, sequential) is Some && (run.reached)(
            standing(state.trace, builder),
        ) {
            let known = bound_meanings(bindings, vars, vars, run, less, body, sequential)->0;
            lemma_meaning(
                run,
                first,
                builder,
                function,
                around,
                if sequential {
                    known
                } else {
                    vars
                },
                expr,
                from,
            );
            lemma_bound_one(run, second, builder, before, rooted, name, value, assigned, changed, from);
        }
    }
}

/// A name that is neither assigned to nor has its pair changed is bound to the value as it is.
proof fn lemma_bound_one(
    run: Run,
    state: State,
    builder: usize,
    env: Env,
    rooted: nat,
    name: Seq<char>,
    value: Val,
    assigned: Set<Seq<char>>,
    changed: Set<Seq<char>>,
    from: int,
)
    requires
        is_run(run, bind_steps(state, builder, env, rooted, name, value, assigned, changed).0.trace, from),
        0 <= from <= state.trace.len(),
        value is Word,
    ensures
        ({
            let (after, (scoped, _)) = bind_steps(state, builder, env, rooted, name, value, assigned, changed);
            &&& passes(run, state, after, builder)
            &&& !assigned.contains(name) && !changed.contains(name) ==> scoped == env.insert(name, value)
            &&& exists|bound: Val| scoped == env.insert(name, bound)
        }),
{
    broadcast use {lemma_run_last, lemma_standing};

    reveal(bind_steps);
    reveal(box_value_steps);
    reveal(value_to_word_steps);
    reveal(root_word_steps);
    let (after, (scoped, _)) = bind_steps(state, builder, env, rooted, name, value, assigned, changed);
    assert(scoped == env.insert(name, scoped[name]));
}

/// Local bindings are seen in the body.
proof fn lemma_scoped_meant(
    run: Run,
    state: State,
    builder: usize,
    function: FunctionRef,
    env: Env,
    vars: Vars,
    expr: Expr,
    bindings: Seq<Binding>,
    body: Expr,
    sequential: bool,
    from: int,
)
    requires
        is_calm(run),
        agrees(env, vars, run),
        compile_scoped_steps(state, builder, function, env, expr) matches Ok((after, _)) && is_run(run, after.trace, from),
        0 <= from <= state.trace.len(),
        match expr.kind {
            ExprKind::Let { bindings: row, body: inner } => !sequential && row@ == bindings && *inner == body,
            ExprKind::LetStar { bindings: row, body: inner } => sequential && row@ == bindings && *inner == body,
            _ => false,
        },
    ensures
        compile_scoped_steps(state, builder, function, env, expr) matches Ok((after, value)) && means(
            run,
            state,
            after,
            builder,
            value,
            meaning(expr, vars, run),
        ),
    decreases expr, 15nat, 0nat,
{
    broadcast use {group_continues, lemma_popped_slots_forgotten};

    assert(counted(0));
    let (after, value) = compile_scoped_steps(state, builder, function, env, expr)->Ok_0;
    let (first, (scoped, rooted)) = bindings_steps(
        state,
        builder,
        function,
        env,
        bindings,
        bindings.len(),
        body,
        sequential,
    )->Ok_0;
    lemma_bindings_grow(state, builder, function, env, bindings, bindings.len(), body, sequential);
    let (second, result) = compile_expr_steps(first, builder, function, scoped, body)->Ok_0;
    lemma_slots_compile_expr(first, builder, function, scoped, body, 0);
    assert(after == pop_root_slots_steps(second, builder, rooted) && value == result);
    lemma_forgotten(run, second, builder, rooted, from);
    lemma_run_start(run, first.trace, second.trace, from);
    lemma_bindings_meant(
        run,
        state,
        builder,
        function,
        env,
        vars,
        bindings,
        bindings.len(),
        body,
        sequential,
        from,
    );
    if let Some(inner) = bound_meanings(bindings, vars, vars, run, bindings.len(), body, sequential) {
        if (run.reached)(standing(state.trace, builder)) {
            lemma_meaning(run, first, builder, function, scoped, inner, body, from);
        }
    }
}

/// Where no exception is pending the code goes on.
pub(crate) proof fn lemma_calm(run: Run, state: State, builder: usize, function: FunctionRef, from: int)
    requires
        is_calm(run),
        is_run(run, branch_on_pending_exception_steps(state, builder, function).trace, from),
        0 <= from <= state.trace.len(),
    ensures
        is_run(run, state.trace, from),
        passes(run, state, branch_on_pending_exception_steps(state, builder, function), builder),
{
    broadcast use {lemma_run_last, lemma_standing};

    reveal(branch_on_pending_exception_steps);
    assert(values_of(run, Seq::empty()) =~= Seq::<int>::empty());
}

} // verus!
