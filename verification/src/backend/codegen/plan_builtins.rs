//! What the code of calls of builtins is.
use crate::backend::abi::RuntimeFunction;
use crate::backend::codegen::plan::{
    accepts, compile_expr_steps, direct_args_steps, list_value_steps, or_more, symbol_literal_steps,
};
use crate::backend::codegen::state::{
    binary_steps, block_steps, branch, branch_if, call_steps, compare_steps, emit_steps, position, push_step,
    value_steps, Argument, Env, Outcome, RootedVal, State, Val,
};
use crate::backend::codegen::values::{
    alloc_pair_rooted_steps, bool_word, char_operand_steps, check_length_steps, compare_codegen_values_steps,
    cons_word_steps, convert_argument_value_steps, emit_callable_call_steps, emit_rooted_callable_call_steps,
    empty_list_word, encode_fixnum_value_steps, fixnum_operand_steps, is_char_steps, list_of_words_steps,
    list_tail_word_steps, load_list_element_steps, load_rooted_word_steps, load_values_element_steps,
    merge_branch_values_steps, pop_root_slots_steps, root_callable_value_steps, root_word_steps,
    tagged_bool_steps, trap_if_false_steps, unspecified_word, value_to_word_steps, word_of,
    word_to_codegen_value_steps,
};
use crate::backend::ir::{BinaryOp, FunctionRef, Op, Operand, Predicate};
use crate::backend::kinds::{AbiValueKind, HeapValueKind, Signature};
use crate::middle::hir::{Expr, ExprKind};
use crate::runtime::layout::{CHAR_SHIFT, CHAR_TAG};
use crate::text::decimal_text;
use vstd::prelude::*;

verus! {

broadcast use vstd::seq_lib::group_seq_properties;

/// The code of the first `count` arguments, each of which must leave an integer.
pub open spec fn integers_steps(
    state: State,
    builder: usize,
    function: FunctionRef,
    env: Env,
    args: Seq<Expr>,
    count: nat,
    context: Seq<char>,
) -> Outcome<Seq<Operand>>
    decreases args, 10nat, count,
{
    if count == 0 || count > args.len() {
        Ok((state, Seq::empty()))
    } else {
        match integers_steps(state, builder, function, env, args, (count - 1) as nat, context) {
            Err(message) => Err(message),
            Ok((state, before)) => match compile_expr_steps(state, builder, function, env, args[count - 1]) {
                Err(message) => Err(message),
                Ok((state, value)) => match word_of(value, context) {
                    Err(message) => Err(message),
                    Ok(word) => {
                        let (state, integer) = fixnum_operand_steps(state, builder, function, word);
                        Ok((state, before.push(integer)))
                    },
                },
            },
        }
    }
}

/// The code of the first `count` arguments, each of which must leave a character.
pub open spec fn chars_steps(
    state: State,
    builder: usize,
    function: FunctionRef,
    env: Env,
    args: Seq<Expr>,
    count: nat,
) -> Outcome<Seq<Operand>>
    decreases args, 10nat, count,
{
    if count == 0 || count > args.len() {
        Ok((state, Seq::empty()))
    } else {
        match chars_steps(state, builder, function, env, args, (count - 1) as nat) {
            Err(message) => Err(message),
            Ok((state, before)) => match compile_expr_steps(state, builder, function, env, args[count - 1]) {
                Err(message) => Err(message),
                Ok((state, value)) => match word_of(value, "char comparison argument"@) {
                    Err(message) => Err(message),
                    Ok(word) => {
                        let (state, scalar) = char_operand_steps(state, builder, function, word);
                        Ok((state, before.push(scalar)))
                    },
                },
            },
        }
    }
}

/// `first` combined with the operands from `start` up to `end`, from left to right.
#[verifier::opaque]
pub open spec fn fold_steps(
    state: State,
    builder: usize,
    op: BinaryOp,
    first: Operand,
    operands: Seq<Operand>,
    start: nat,
    end: nat,
) -> (State, Operand)
    decreases end,
{
    if end <= start || end > operands.len() {
        (state, first)
    } else {
        let (state, before) = fold_steps(state, builder, op, first, operands, start, (end - 1) as nat);
        binary_steps(state, builder, op, before, operands[end - 1])
    }
}

/// The code of `+`, `-`, `*` and `/`.
pub open spec fn numeric_builtin_steps(
    state: State,
    builder: usize,
    function: FunctionRef,
    env: Env,
    callee: Seq<char>,
    args: Seq<Expr>,
) -> Outcome<Val>
    decreases args, 40nat, 0nat,
{
    match integers_steps(state, builder, function, env, args, args.len(), "builtin argument"@) {
        Err(message) => Err(message),
        Ok((state, operands)) => {
            let folded = if callee == "+"@ {
                Ok(fold_steps(state, builder, BinaryOp::Plus, Operand::Word(0), operands, 0, operands.len()))
            } else if callee == "*"@ {
                Ok(fold_steps(state, builder, BinaryOp::Times, Operand::Word(1), operands, 0, operands.len()))
            } else if callee == "-"@ {
                if operands.len() == 0 {
                    Err("operator '-' expects at least one argument"@)
                } else if operands.len() == 1 {
                    Ok(binary_steps(state, builder, BinaryOp::Minus, Operand::Word(0), operands[0]))
                } else {
                    Ok(fold_steps(state, builder, BinaryOp::Minus, operands[0], operands, 1, operands.len()))
                }
            } else if operands.len() < 2 {
                Err("operator '/' expects at least two arguments"@)
            } else {
                Ok(
                    fold_steps(
                        state,
                        builder,
                        BinaryOp::SignedDivide,
                        operands[0],
                        operands,
                        1,
                        operands.len(),
                    ),
                )
            };
            match folded {
                Err(message) => Err(message),
                Ok((state, raw)) => {
                    let (state, word) = encode_fixnum_value_steps(state, builder, raw);
                    Ok((state, Val::Word(word)))
                },
            }
        },
    }
}

/// Whether each of the first `count` operands compares with the next.
#[verifier::opaque]
pub open spec fn chain_steps(state: State, builder: usize, predicate: Predicate, operands: Seq<Operand>, count: nat) -> (State, Operand)
    decreases count,
{
    if count == 0 || count >= operands.len() {
        (state, Operand::Bit(true))
    } else {
        let (state, before) = chain_steps(state, builder, predicate, operands, (count - 1) as nat);
        let (state, next) = compare_steps(state, builder, predicate, operands[count - 1], operands[count as int]);
        binary_steps(state, builder, BinaryOp::And, before, next)
    }
}

/// How a numeric comparison compares.
pub open spec fn numeric_predicate(callee: Seq<char>) -> Predicate {
    if callee == "="@ {
        Predicate::Equal
    } else if callee == "<"@ {
        Predicate::SignedLess
    } else if callee == ">"@ {
        Predicate::SignedGreater
    } else if callee == "<="@ {
        Predicate::SignedLessEqual
    } else {
        Predicate::SignedGreaterEqual
    }
}

/// How a comparison of characters compares.
pub open spec fn char_predicate(callee: Seq<char>) -> Predicate {
    if callee == "char=?"@ {
        Predicate::Equal
    } else if callee == "char<?"@ {
        Predicate::UnsignedLess
    } else if callee == "char>?"@ {
        Predicate::UnsignedGreater
    } else if callee == "char<=?"@ {
        Predicate::UnsignedLessEqual
    } else {
        Predicate::UnsignedGreaterEqual
    }
}

/// The code of `=`, `<`, `>`, `<=` and `>=`.
pub open spec fn numeric_comparison_steps(
    state: State,
    builder: usize,
    function: FunctionRef,
    env: Env,
    callee: Seq<char>,
    args: Seq<Expr>,
) -> Outcome<Val>
    decreases args, 40nat, 0nat,
{
    if args.len() < 2 {
        Err(callee + " expects at least two arguments"@)
    } else {
        match integers_steps(state, builder, function, env, args, args.len(), "numeric comparison argument"@) {
            Err(message) => Err(message),
            Ok((state, operands)) => {
                let (state, condition) = chain_steps(
                    state,
                    builder,
                    numeric_predicate(callee),
                    operands,
                    (operands.len() - 1) as nat,
                );
                let (state, word) = tagged_bool_steps(state, builder, condition);
                Ok((state, Val::Word(word)))
            },
        }
    }
}

/// The code of `char=?`, `char<?`, `char>?`, `char<=?` and `char>=?`.
pub open spec fn char_comparison_steps(
    state: State,
    builder: usize,
    function: FunctionRef,
    env: Env,
    callee: Seq<char>,
    args: Seq<Expr>,
) -> Outcome<Val>
    decreases args, 40nat, 0nat,
{
    if args.len() < 2 {
        Err(callee + " expects at least two arguments"@)
    } else {
        match chars_steps(state, builder, function, env, args, args.len()) {
            Err(message) => Err(message),
            Ok((state, operands)) => {
                let (state, condition) = chain_steps(
                    state,
                    builder,
                    char_predicate(callee),
                    operands,
                    (operands.len() - 1) as nat,
                );
                let (state, word) = tagged_bool_steps(state, builder, condition);
                Ok((state, Val::Word(word)))
            },
        }
    }
}

/// The code of the only argument of a builtin.
pub open spec fn one_argument_steps(
    state: State,
    builder: usize,
    function: FunctionRef,
    env: Env,
    name: Seq<char>,
    args: Seq<Expr>,
) -> Outcome<Val>
    decreases args, 30nat, 0nat,
{
    if args.len() != 1 {
        Err(name + " expects exactly one argument"@)
    } else {
        compile_expr_steps(state, builder, function, env, args[0])
    }
}

/// The code of the two arguments of a builtin.
pub open spec fn two_arguments_steps(
    state: State,
    builder: usize,
    function: FunctionRef,
    env: Env,
    name: Seq<char>,
    args: Seq<Expr>,
) -> Outcome<(Val, Val)>
    decreases args, 30nat, 0nat,
{
    if args.len() != 2 {
        Err(name + " expects exactly two arguments"@)
    } else {
        match compile_expr_steps(state, builder, function, env, args[0]) {
            Err(message) => Err(message),
            Ok((state, first)) => match compile_expr_steps(state, builder, function, env, args[1]) {
                Err(message) => Err(message),
                Ok((state, second)) => Ok((state, (first, second))),
            },
        }
    }
}

/// The word of a condition that was found out.
#[verifier::opaque]
pub open spec fn answer_steps(state: State, builder: usize, condition: Operand) -> Outcome<Val> {
    let (state, word) = tagged_bool_steps(state, builder, condition);
    Ok((state, Val::Word(word)))
}

/// The code of `not`.
#[verifier::opaque]
pub open spec fn not_steps(state: State, builder: usize, value: Val) -> Outcome<Val> {
    match value {
        Val::HeapObject { ptr, kind } => answer_steps(state, builder, Operand::Bit(false)),
        Val::Closure { ptr, signature } => answer_steps(state, builder, Operand::Bit(false)),
        other => match word_of(other, "not argument"@) {
            Err(message) => Err(message),
            Ok(word) => {
                let (state, condition) = compare_steps(state, builder, Predicate::Equal, word, bool_word(false));
                answer_steps(state, builder, condition)
            },
        },
    }
}

/// The code of `boolean?`.
#[verifier::opaque]
pub open spec fn boolean_predicate_steps(state: State, builder: usize, value: Val) -> Outcome<Val> {
    match value {
        Val::Word(word) => {
            let (state, is_false) = compare_steps(state, builder, Predicate::Equal, word, bool_word(false));
            let (state, is_true) = compare_steps(state, builder, Predicate::Equal, word, bool_word(true));
            let (state, condition) = binary_steps(state, builder, BinaryOp::Or, is_false, is_true);
            answer_steps(state, builder, condition)
        },
        _ => answer_steps(state, builder, Operand::Bit(false)),
    }
}

/// The code of `zero?`.
#[verifier::opaque]
pub open spec fn zero_predicate_steps(state: State, builder: usize, function: FunctionRef, value: Val) -> Outcome<Val> {
    match word_of(value, "zero? argument"@) {
        Err(message) => Err(message),
        Ok(word) => {
            let (state, integer) = fixnum_operand_steps(state, builder, function, word);
            let (state, condition) = compare_steps(state, builder, Predicate::Equal, integer, Operand::Word(0));
            answer_steps(state, builder, condition)
        },
    }
}

/// The code of `char?`.
#[verifier::opaque]
pub open spec fn char_predicate_steps(state: State, builder: usize, value: Val) -> Outcome<Val> {
    match word_of(value, "char? argument"@) {
        Err(message) => Err(message),
        Ok(word) => {
            let (state, condition) = is_char_steps(state, builder, word);
            answer_steps(state, builder, condition)
        },
    }
}

/// The code of `char->integer`.
#[verifier::opaque]
pub open spec fn char_to_integer_steps(state: State, builder: usize, function: FunctionRef, value: Val) -> Outcome<Val> {
    match word_of(value, "char->integer argument"@) {
        Err(message) => Err(message),
        Ok(word) => {
            let (state, scalar) = char_operand_steps(state, builder, function, word);
            let (state, result) = encode_fixnum_value_steps(state, builder, scalar);
            Ok((state, Val::Word(result)))
        },
    }
}

/// The code of `integer->char`.
#[verifier::opaque]
pub open spec fn integer_to_char_steps(state: State, builder: usize, function: FunctionRef, value: Val) -> Outcome<Val> {
    match word_of(value, "integer->char argument"@) {
        Err(message) => Err(message),
        Ok(word) => {
            let (state, integer) = fixnum_operand_steps(state, builder, function, word);
            let (state, in_range) = compare_steps(
                state,
                builder,
                Predicate::UnsignedLessEqual,
                integer,
                Operand::Word(0x10ffff),
            );
            let (state, lower) = compare_steps(
                state,
                builder,
                Predicate::UnsignedGreaterEqual,
                integer,
                Operand::Word(0xd800),
            );
            let (state, upper) = compare_steps(
                state,
                builder,
                Predicate::UnsignedLessEqual,
                integer,
                Operand::Word(0xdfff),
            );
            let (state, surrogate) = binary_steps(state, builder, BinaryOp::And, lower, upper);
            let (state, no_surrogate) = value_steps(state, Op::Not { builder, value: surrogate });
            let (state, valid) = binary_steps(state, builder, BinaryOp::And, in_range, no_surrogate);
            let state = trap_if_false_steps(state, builder, function, valid);
            let (state, shifted) = binary_steps(
                state,
                builder,
                BinaryOp::ShiftLeft,
                integer,
                Operand::Word(CHAR_SHIFT as u64),
            );
            let (state, result) = binary_steps(
                state,
                builder,
                BinaryOp::Or,
                shifted,
                Operand::Word(CHAR_TAG as u64),
            );
            Ok((state, Val::Word(result)))
        },
    }
}

/// The code of `symbol?`.
#[verifier::opaque]
pub open spec fn symbol_predicate_steps(state: State, builder: usize, value: Val) -> Outcome<Val> {
    match value {
        Val::HeapObject { ptr, kind } => answer_steps(
            state,
            builder,
            Operand::Bit(kind == HeapValueKind::Symbol),
        ),
        Val::Word(word) => {
            let (state, condition) = call_steps(state, builder, RuntimeFunction::IsSymbol, seq![word]);
            answer_steps(state, builder, condition)
        },
        _ => answer_steps(state, builder, Operand::Bit(false)),
    }
}

/// The code of `procedure?`.
#[verifier::opaque]
pub open spec fn procedure_predicate_steps(state: State, value: Val) -> Outcome<Val> {
    match value {
        Val::Function(_) => Ok((state, Val::Word(bool_word(true)))),
        Val::Closure { ptr, signature } => Ok((state, Val::Word(bool_word(true)))),
        _ => Ok((state, Val::Word(bool_word(false)))),
    }
}

/// The code of `pair?`.
#[verifier::opaque]
pub open spec fn pair_predicate_steps(state: State, builder: usize, value: Val) -> Outcome<Val> {
    match value {
        Val::HeapObject { ptr, kind } => answer_steps(state, builder, Operand::Bit(kind == HeapValueKind::Pair)),
        other => match word_of(other, "pair? argument"@) {
            Err(message) => Err(message),
            Ok(word) => {
                let (state, condition) = call_steps(state, builder, RuntimeFunction::IsPair, seq![word]);
                answer_steps(state, builder, condition)
            },
        },
    }
}

/// The code of `list?`.
#[verifier::opaque]
pub open spec fn list_predicate_steps(state: State, builder: usize, value: Val) -> Outcome<Val> {
    match value {
        Val::HeapObject { ptr, kind } => if kind == HeapValueKind::Pair {
            let (state, word) = value_to_word_steps(state, builder, value);
            let (state, condition) = call_steps(state, builder, RuntimeFunction::IsList, seq![word]);
            answer_steps(state, builder, condition)
        } else {
            answer_steps(state, builder, Operand::Bit(false))
        },
        Val::Closure { ptr, signature } => answer_steps(state, builder, Operand::Bit(false)),
        other => match word_of(other, "list? argument"@) {
            Err(message) => Err(message),
            Ok(word) => {
                let (state, condition) = call_steps(state, builder, RuntimeFunction::IsList, seq![word]);
                answer_steps(state, builder, condition)
            },
        },
    }
}

/// The code of `null?`.
#[verifier::opaque]
pub open spec fn null_predicate_steps(state: State, builder: usize, value: Val) -> Outcome<Val> {
    match value {
        Val::HeapObject { ptr, kind } => answer_steps(state, builder, Operand::Bit(false)),
        other => match word_of(other, "null? argument"@) {
            Err(message) => Err(message),
            Ok(word) => {
                let (state, condition) = compare_steps(
                    state,
                    builder,
                    Predicate::Equal,
                    word,
                    empty_list_word(),
                );
                answer_steps(state, builder, condition)
            },
        },
    }
}

/// The code of `string?` and `vector?`.
#[verifier::opaque]
pub open spec fn kind_predicate_steps(state: State, builder: usize, value: Val, expected: HeapValueKind, test: RuntimeFunction) -> Outcome<Val> {
    match value {
        Val::HeapObject { ptr, kind } => answer_steps(state, builder, Operand::Bit(kind == expected)),
        other => {
            let (state, word) = value_to_word_steps(state, builder, other);
            let (state, condition) = call_steps(state, builder, test, seq![word]);
            answer_steps(state, builder, condition)
        },
    }
}

/// The code of a builtin that hands its only argument to the runtime as a word.
#[verifier::opaque]
pub open spec fn unary_runtime_steps(state: State, builder: usize, value: Val, target: RuntimeFunction) -> Outcome<Val> {
    let (state, word) = value_to_word_steps(state, builder, value);
    let (state, result) = call_steps(state, builder, target, seq![word]);
    Ok((state, Val::Word(result)))
}

/// The code of a builtin that hands a heap object to the runtime: as a pointer where it is
/// known to be of the expected kind, and as a word otherwise.
#[verifier::opaque]
pub open spec fn length_steps(
    state: State,
    builder: usize,
    value: Val,
    expected: HeapValueKind,
    by_pointer: RuntimeFunction,
    by_word: RuntimeFunction,
) -> Outcome<Val> {
    match value {
        Val::HeapObject { ptr, kind } => if kind == expected {
            let (state, result) = call_steps(state, builder, by_pointer, seq![ptr]);
            Ok((state, Val::Word(result)))
        } else {
            unary_runtime_steps(state, builder, value, by_word)
        },
        _ => unary_runtime_steps(state, builder, value, by_word),
    }
}

/// The code of `car` and `cdr`.
#[verifier::opaque]
pub open spec fn pair_access_steps(state: State, builder: usize, value: Val, car: bool) -> Outcome<Val> {
    let by_pointer = if car { RuntimeFunction::PairCarGc } else { RuntimeFunction::PairCdrGc };
    let by_word = if car { RuntimeFunction::PairCar } else { RuntimeFunction::PairCdr };
    let context = if car { "car argument"@ } else { "cdr argument"@ };
    let known = match value {
        Val::HeapObject { ptr, kind } => if kind == HeapValueKind::Pair {
            Some(ptr)
        } else {
            None
        },
        _ => None,
    };
    match known {
        Some(ptr) => {
            let (state, result) = call_steps(state, builder, by_pointer, seq![ptr]);
            Ok((state, Val::Word(result)))
        },
        None => match word_of(value, context) {
            Err(message) => Err(message),
            Ok(word) => {
                let (state, result) = call_steps(state, builder, by_word, seq![word]);
                Ok((state, Val::Word(result)))
            },
        },
    }
}

/// The code of `string-ref` and `vector-ref`.
#[verifier::opaque]
pub open spec fn reference_steps(
    state: State,
    builder: usize,
    function: FunctionRef,
    object: Val,
    index: Val,
    context: Seq<char>,
    expected: HeapValueKind,
    by_pointer: RuntimeFunction,
    by_word: RuntimeFunction,
) -> Outcome<Val> {
    match word_of(index, context) {
        Err(message) => Err(message),
        Ok(index_word) => {
            let (state, place) = fixnum_operand_steps(state, builder, function, index_word);
            let (state, result) = element_steps(state, builder, object, place, expected, by_pointer, by_word);
            Ok((state, Val::Word(result)))
        },
    }
}

/// Reads an element of a string or a vector.
#[verifier::opaque]
pub open spec fn element_steps(
    state: State,
    builder: usize,
    object: Val,
    place: Operand,
    expected: HeapValueKind,
    by_pointer: RuntimeFunction,
    by_word: RuntimeFunction,
) -> (State, Operand) {
    let known = match object {
        Val::HeapObject { ptr, kind } => if kind == expected {
            Some(ptr)
        } else {
            None
        },
        _ => None,
    };
    match known {
        Some(ptr) => call_steps(state, builder, by_pointer, seq![ptr, place]),
        None => {
            let (state, word) = value_to_word_steps(state, builder, object);
            call_steps(state, builder, by_word, seq![word, place])
        },
    }
}

/// The code of `list-tail` and `list-ref`.
#[verifier::opaque]
pub open spec fn list_place_steps(
    state: State,
    builder: usize,
    function: FunctionRef,
    list: Val,
    index: Val,
    context: Seq<char>,
    target: RuntimeFunction,
) -> Outcome<Val> {
    let (state, list_word) = value_to_word_steps(state, builder, list);
    match word_of(index, context) {
        Err(message) => Err(message),
        Ok(index_word) => {
            let (state, place) = fixnum_operand_steps(state, builder, function, index_word);
            let (state, result) = call_steps(state, builder, target, seq![list_word, place]);
            Ok((state, Val::Word(result)))
        },
    }
}

/// The code of a builtin that hands its two arguments to the runtime as words.
#[verifier::opaque]
pub open spec fn binary_runtime_steps(state: State, builder: usize, first: Val, second: Val, target: RuntimeFunction) -> (State, Operand) {
    let (state, first_word) = value_to_word_steps(state, builder, first);
    let (state, second_word) = value_to_word_steps(state, builder, second);
    call_steps(state, builder, target, seq![first_word, second_word])
}

/// The code of `cons`.
pub open spec fn cons_steps(
    state: State,
    builder: usize,
    function: FunctionRef,
    env: Env,
    args: Seq<Expr>,
) -> Outcome<Val>
    decreases args, 40nat, 0nat,
{
    if args.len() != 2 {
        Err("cons expects exactly two arguments"@)
    } else {
        match compile_expr_steps(state, builder, function, env, args[0]) {
            Err(message) => Err(message),
            Ok((state, car_value)) => {
                let (state, car) = value_to_word_steps(state, builder, car_value);
                match compile_expr_steps(state, builder, function, env, args[1]) {
                    Err(message) => Err(message),
                    Ok((state, cdr_value)) => {
                        let (state, cdr) = value_to_word_steps(state, builder, cdr_value);
                        let (state, ptr) = alloc_pair_rooted_steps(state, builder, car, cdr);
                        Ok((state, Val::HeapObject { ptr, kind: HeapValueKind::Pair }))
                    },
                }
            },
        }
    }
}

/// The pair that `set-car!` and `set-cdr!` change: a variable is taken as the scope binds it.
pub open spec fn pair_target_steps(
    state: State,
    builder: usize,
    function: FunctionRef,
    env: Env,
    args: Seq<Expr>,
) -> Outcome<Val>
    recommends
        args.len() == 2,
    decreases args, 20nat, 0nat,
{
    if args.len() == 0 {
        Err(Seq::empty())
    } else {
        match args[0].kind {
            ExprKind::Variable(name) => if env.contains_key(name@) {
                Ok((state, env[name@]))
            } else {
                compile_expr_steps(state, builder, function, env, args[0])
            },
            _ => compile_expr_steps(state, builder, function, env, args[0]),
        }
    }
}

/// Stores a value in a part of a pair.
#[verifier::opaque]
pub open spec fn pair_store_steps(state: State, builder: usize, pair: Val, value: Val, set_car: bool) -> (State, Operand) {
    let by_pointer = if set_car { RuntimeFunction::PairSetCarGc } else { RuntimeFunction::PairSetCdrGc };
    let by_word = if set_car { RuntimeFunction::PairSetCar } else { RuntimeFunction::PairSetCdr };
    let (state, word) = value_to_word_steps(state, builder, value);
    let known = match pair {
        Val::HeapObject { ptr, kind } => if kind == HeapValueKind::Pair {
            Some(ptr)
        } else {
            None
        },
        _ => None,
    };
    match known {
        Some(ptr) => call_steps(state, builder, by_pointer, seq![ptr, word]),
        None => match pair {
            Val::RootedWord { slot } => {
                let (state, pair_word) = load_rooted_word_steps(state, builder, slot);
                let (state, ptr) = value_steps(state, Op::IntToPtr { builder, value: pair_word });
                call_steps(state, builder, by_pointer, seq![ptr, word])
            },
            other => {
                let (state, pair_word) = value_to_word_steps(state, builder, other);
                call_steps(state, builder, by_word, seq![pair_word, word])
            },
        },
    }
}

/// The code of `set-car!` and `set-cdr!`.
pub open spec fn pair_set_steps(
    state: State,
    builder: usize,
    function: FunctionRef,
    env: Env,
    args: Seq<Expr>,
    set_car: bool,
) -> Outcome<Val>
    decreases args, 40nat, 0nat,
{
    if args.len() != 2 {
        Err((if set_car { "set-car!"@ } else { "set-cdr!"@ }) + " expects exactly two arguments"@)
    } else {
        match pair_target_steps(state, builder, function, env, args) {
            Err(message) => Err(message),
            Ok((state, pair)) => match compile_expr_steps(state, builder, function, env, args[1]) {
                Err(message) => Err(message),
                Ok((state, value)) => {
                    let (state, result) = pair_store_steps(state, builder, pair, value, set_car);
                    Ok((state, Val::Word(result)))
                },
            },
        }
    }
}

/// The code of `list`: the last argument is evaluated first.
pub open spec fn list_steps(
    state: State,
    builder: usize,
    function: FunctionRef,
    env: Env,
    args: Seq<Expr>,
    end: nat,
    tail: Val,
) -> Outcome<Val>
    decreases args, 10nat, end,
{
    if end == 0 || end > args.len() {
        Ok((state, tail))
    } else {
        match compile_expr_steps(state, builder, function, env, args[end - 1]) {
            Err(message) => Err(message),
            Ok((state, car)) => {
                let (state, car_word) = value_to_word_steps(state, builder, car);
                let (state, cdr_word) = value_to_word_steps(state, builder, tail);
                let (state, ptr) = alloc_pair_rooted_steps(state, builder, car_word, cdr_word);
                list_steps(
                    state,
                    builder,
                    function,
                    env,
                    args,
                    (end - 1) as nat,
                    Val::HeapObject { ptr, kind: HeapValueKind::Pair },
                )
            },
        }
    }
}

/// Appends the first `end` arguments of `append` to a list, the last of them first.
pub open spec fn append_rest_steps(
    state: State,
    builder: usize,
    function: FunctionRef,
    env: Env,
    args: Seq<Expr>,
    end: nat,
    tail: Val,
) -> Outcome<Val>
    decreases args, 10nat, end,
{
    if end == 0 || end > args.len() {
        Ok((state, tail))
    } else {
        match compile_expr_steps(state, builder, function, env, args[end - 1]) {
            Err(message) => Err(message),
            Ok((state, left)) => {
                let (state, result) = binary_runtime_steps(state, builder, left, tail, RuntimeFunction::Append);
                append_rest_steps(state, builder, function, env, args, (end - 1) as nat, Val::Word(result))
            },
        }
    }
}

/// The code of `append`: the last argument is evaluated first.
pub open spec fn append_steps(
    state: State,
    builder: usize,
    function: FunctionRef,
    env: Env,
    args: Seq<Expr>,
) -> Outcome<Val>
    decreases args, 40nat, 0nat,
{
    if args.len() == 0 {
        Ok((state, Val::Word(empty_list_word())))
    } else {
        match compile_expr_steps(state, builder, function, env, args[args.len() - 1]) {
            Err(message) => Err(message),
            Ok((state, last)) => append_rest_steps(
                state,
                builder,
                function,
                env,
                args,
                (args.len() - 1) as nat,
                last,
            ),
        }
    }
}

/// Writes the first `count` elements of a vector into a row of words.
pub open spec fn vector_elements_steps(
    state: State,
    builder: usize,
    function: FunctionRef,
    env: Env,
    args: Seq<Expr>,
    elements: Operand,
    count: nat,
) -> Outcome<()>
    decreases args, 10nat, count,
{
    if count == 0 || count > args.len() {
        Ok((state, ()))
    } else {
        match vector_elements_steps(state, builder, function, env, args, elements, (count - 1) as nat) {
            Err(message) => Err(message),
            Ok((state, done)) => match compile_expr_steps(state, builder, function, env, args[count - 1]) {
                Err(message) => Err(message),
                Ok((state, value)) => {
                    let (state, word) = value_to_word_steps(state, builder, value);
                    let (state, slot) = value_steps(
                        state,
                        Op::ElementPointer { builder, base: elements, skip: 0, index: (count - 1) as usize },
                    );
                    Ok((push_step(state, Op::Store { builder, slot, value: word }), ()))
                },
            },
        }
    }
}

/// The code of `vector`.
pub open spec fn vector_steps(
    state: State,
    builder: usize,
    function: FunctionRef,
    env: Env,
    args: Seq<Expr>,
) -> Outcome<Val>
    decreases args, 40nat, 0nat,
{
    let filled = if args.len() == 0 {
        Ok((state, Operand::NullRaw))
    } else {
        let (state, elements) = value_steps(state, Op::ArrayAlloca { builder, count: args.len() as usize });
        match vector_elements_steps(state, builder, function, env, args, elements, args.len()) {
            Err(message) => Err(message),
            Ok((state, done)) => Ok(value_steps(state, Op::PointerCast { builder, value: elements })),
        }
    };
    match filled {
        Err(message) => Err(message),
        Ok((state, elements)) => {
            let (state, ptr) = call_steps(
                state,
                builder,
                RuntimeFunction::AllocVectorGc,
                seq![elements, Operand::Word(args.len() as usize as u64)],
            );
            Ok((state, Val::HeapObject { ptr, kind: HeapValueKind::Vector }))
        },
    }
}

/// Stores a value at a place of a vector.
#[verifier::opaque]
pub open spec fn vector_store_steps(state: State, builder: usize, vector: Val, place: Operand, element: Val) -> (State, Operand) {
    let (state, word) = value_to_word_steps(state, builder, element);
    let known = match vector {
        Val::HeapObject { ptr, kind } => if kind == HeapValueKind::Vector {
            Some(ptr)
        } else {
            None
        },
        _ => None,
    };
    match known {
        Some(ptr) => call_steps(state, builder, RuntimeFunction::VectorSetGc, seq![ptr, place, word]),
        None => {
            let (state, vector_word) = value_to_word_steps(state, builder, vector);
            call_steps(state, builder, RuntimeFunction::VectorSet, seq![vector_word, place, word])
        },
    }
}

/// The code of `vector-set!`.
pub open spec fn vector_set_steps(
    state: State,
    builder: usize,
    function: FunctionRef,
    env: Env,
    args: Seq<Expr>,
) -> Outcome<Val>
    decreases args, 40nat, 0nat,
{
    if args.len() != 3 {
        Err("vector-set! expects exactly three arguments"@)
    } else {
        match compile_expr_steps(state, builder, function, env, args[0]) {
            Err(message) => Err(message),
            Ok((state, vector)) => match compile_expr_steps(state, builder, function, env, args[1]) {
                Err(message) => Err(message),
                Ok((state, index)) => match word_of(index, "vector-set! index argument"@) {
                    Err(message) => Err(message),
                    Ok(index_word) => {
                        let (state, place) = fixnum_operand_steps(state, builder, function, index_word);
                        match compile_expr_steps(state, builder, function, env, args[2]) {
                            Err(message) => Err(message),
                            Ok((state, element)) => {
                                let (state, result) = vector_store_steps(state, builder, vector, place, element);
                                Ok((state, Val::Word(result)))
                            },
                        }
                    },
                },
            },
        }
    }
}

/// The code of `gc-stress`.
#[verifier::opaque]
pub open spec fn gc_stress_steps(state: State, builder: usize, function: FunctionRef, value: Val) -> Outcome<Val> {
    match word_of(value, "gc-stress iterations"@) {
        Err(message) => Err(message),
        Ok(word) => {
            let (state, iterations) = fixnum_operand_steps(state, builder, function, word);
            let (state, result) = call_steps(state, builder, RuntimeFunction::GcStress, seq![iterations]);
            Ok((state, Val::Word(result)))
        },
    }
}

/// The code of the first `count` arguments, each of which stays reachable.
pub open spec fn rooted_args_steps(
    state: State,
    builder: usize,
    function: FunctionRef,
    env: Env,
    args: Seq<Expr>,
    count: nat,
) -> Outcome<Seq<Operand>>
    decreases args, 10nat, count,
{
    if count == 0 || count > args.len() {
        Ok((state, Seq::empty()))
    } else {
        match rooted_args_steps(state, builder, function, env, args, (count - 1) as nat) {
            Err(message) => Err(message),
            Ok((state, before)) => match compile_expr_steps(state, builder, function, env, args[count - 1]) {
                Err(message) => Err(message),
                Ok((state, value)) => {
                    let (state, word) = value_to_word_steps(state, builder, value);
                    let (state, slot) = root_word_steps(state, builder, word);
                    Ok((state, before.push(slot)))
                },
            },
        }
    }
}

/// Copies the first `count` of a row of rooted words into a row of words.
#[verifier::opaque]
pub open spec fn copy_slots_steps(state: State, builder: usize, slots: Seq<Operand>, elements: Operand, count: nat) -> State
    decreases count,
{
    if count == 0 || count > slots.len() {
        state
    } else {
        let state = copy_slots_steps(state, builder, slots, elements, (count - 1) as nat);
        let (state, word) = load_rooted_word_steps(state, builder, slots[count - 1]);
        let (state, slot) = value_steps(
            state,
            Op::ElementPointer { builder, base: elements, skip: 0, index: (count - 1) as usize },
        );
        push_step(state, Op::Store { builder, slot, value: word })
    }
}

/// The code of `values`. A single value stands for itself.
pub open spec fn values_steps(
    state: State,
    builder: usize,
    function: FunctionRef,
    env: Env,
    args: Seq<Expr>,
) -> Outcome<Val>
    decreases args, 40nat, 0nat,
{
    if args.len() == 1 {
        compile_expr_steps(state, builder, function, env, args[0])
    } else {
        match rooted_args_steps(state, builder, function, env, args, args.len()) {
            Err(message) => Err(message),
            Ok((state, slots)) => {
                let (state, values_ptr) = if slots.len() == 0 {
                    (state, Operand::NullRaw)
                } else {
                    let (state, elements) = value_steps(
                        state,
                        Op::ArrayAlloca { builder, count: slots.len() as usize },
                    );
                    let state = copy_slots_steps(state, builder, slots, elements, slots.len());
                    value_steps(state, Op::PointerCast { builder, value: elements })
                };
                let (state, result) = call_steps(
                    state,
                    builder,
                    RuntimeFunction::AllocValues,
                    seq![values_ptr, Operand::Word(slots.len() as usize as u64)],
                );
                Ok((pop_root_slots_steps(state, builder, slots.len()), Val::Word(result)))
            },
        }
    }
}

/// The signature of a value that is a procedure.
pub open spec fn procedure_signature(value: Val) -> Option<Signature> {
    match value {
        Val::Function(info) => Some(info.signature),
        Val::Closure { ptr, signature } => Some(signature),
        _ => None,
    }
}

/// The first `count` arguments that come out of several values.
#[verifier::opaque]
pub open spec fn packet_args_steps(state: State, builder: usize, packet: Operand, kinds: Seq<AbiValueKind>, count: nat) -> Outcome<Seq<Argument>>
    decreases count,
{
    if count == 0 || count > kinds.len() {
        Ok((state, Seq::empty()))
    } else {
        match packet_args_steps(state, builder, packet, kinds, (count - 1) as nat) {
            Err(message) => Err(message),
            Ok((state, before)) => {
                let (state, value) = load_values_element_steps(
                    state,
                    builder,
                    packet,
                    (count - 1) as usize,
                    kinds[count - 1],
                );
                match convert_argument_value_steps(
                    state,
                    builder,
                    value,
                    kinds[count - 1],
                    "call-with-values packet arg"@,
                ) {
                    Err(message) => Err(message),
                    Ok((state, argument)) => Ok((state, before.push(argument))),
                }
            },
        }
    }
}

/// Calls the consumer with several values.
#[verifier::opaque]
pub open spec fn packet_consumer_steps(
    state: State,
    builder: usize,
    function: FunctionRef,
    consumer: RootedVal,
    signature: Signature,
    produced_slot: Operand,
) -> Outcome<Val> {
    let (state, produced) = load_rooted_word_steps(state, builder, produced_slot);
    let state = check_length_steps(
        state,
        builder,
        function,
        RuntimeFunction::ValuesLength,
        produced,
        if signature.rest { Predicate::UnsignedGreaterEqual } else { Predicate::Equal },
        signature.params.len() as usize,
    );
    match packet_args_steps(state, builder, produced, signature.params, signature.params.len()) {
        Err(message) => Err(message),
        Ok((state, direct)) => {
            let (state, args) = if signature.rest {
                let (state, rest) = call_steps(
                    state,
                    builder,
                    RuntimeFunction::ValuesTailList,
                    seq![produced, Operand::Word(signature.params.len() as usize as u64)],
                );
                (state, direct.push(Argument::Int(rest)))
            } else {
                (state, direct)
            };
            emit_rooted_callable_call_steps(state, builder, consumer, signature, args)
        },
    }
}

/// Calls the consumer with a single value, where it can take one, and traps otherwise.
#[verifier::opaque]
pub open spec fn single_consumer_steps(
    state: State,
    builder: usize,
    consumer: RootedVal,
    signature: Signature,
    produced_slot: Operand,
) -> Outcome<Option<Val>> {
    if !(signature.params.len() <= 1 && (signature.rest || signature.params.len() == 1)) {
        let state = push_step(state, Op::Call { builder, target: FunctionRef::Trap, args: Seq::empty() });
        Ok((push_step(state, Op::Unreachable { builder }), None))
    } else {
        let (state, produced) = load_rooted_word_steps(state, builder, produced_slot);
        let direct = if signature.params.len() == 0 {
            Ok((state, Seq::empty()))
        } else {
            let (state, coerced) = word_to_codegen_value_steps(state, builder, produced, signature.params[0]);
            match convert_argument_value_steps(
                state,
                builder,
                coerced,
                signature.params[0],
                "call-with-values single arg"@,
            ) {
                Err(message) => Err(message),
                Ok((state, argument)) => Ok((state, seq![argument])),
            }
        };
        match direct {
            Err(message) => Err(message),
            Ok((state, direct)) => {
                let (state, args) = if !signature.rest {
                    (state, direct)
                } else if signature.params.len() == 0 {
                    let (state, rest) = list_of_words_steps(state, builder, seq![produced]);
                    (state, direct.push(Argument::Int(rest)))
                } else {
                    (state, direct.push(Argument::Int(empty_list_word())))
                };
                match emit_rooted_callable_call_steps(state, builder, consumer, signature, args) {
                    Err(message) => Err(message),
                    Ok((state, value)) => Ok((state, Some(value))),
                }
            },
        }
    }
}

/// The code of `call-with-values`, once its two arguments are there.
#[verifier::opaque]
pub open spec fn consume_values_steps(
    state: State,
    builder: usize,
    function: FunctionRef,
    producer: Val,
    producer_signature: Signature,
    consumer: Val,
    signature: Signature,
) -> Outcome<Val> {
    match root_callable_value_steps(state, builder, consumer) {
        Err(message) => Err(message),
        Ok((state, rooted)) => match emit_callable_call_steps(
            state,
            builder,
            producer,
            producer_signature,
            Seq::empty(),
        ) {
            Err(message) => Err(message),
            Ok((state, produced)) => {
                let (state, produced_word) = value_to_word_steps(state, builder, produced);
                let (state, produced_slot) = root_word_steps(state, builder, produced_word);
                let (state, current) = load_rooted_word_steps(state, builder, produced_slot);
                let (state, is_values) = call_steps(state, builder, RuntimeFunction::IsValues, seq![current]);
                let (state, values_block) = block_steps(state, function);
                let (state, single_block) = block_steps(state, function);
                let (state, cont_block) = block_steps(state, function);
                let state = branch_if(state, builder, is_values, values_block, single_block);
                let state = position(state, builder, values_block);
                match packet_consumer_steps(state, builder, function, rooted, signature, produced_slot) {
                    Err(message) => Err(message),
                    Ok((state, values_result)) => {
                        let (state, values_exit) = emit_steps(state, Op::InsertBlock { builder });
                        let state = branch(state, builder, cont_block);
                        let state = position(state, builder, single_block);
                        match single_consumer_steps(state, builder, rooted, signature, produced_slot) {
                            Err(message) => Err(message),
                            Ok((state, single_result)) => {
                                let merged = match single_result {
                                    Some(single_result) => {
                                        let (state, single_exit) = emit_steps(
                                            state,
                                            Op::InsertBlock { builder },
                                        );
                                        let state = branch(state, builder, cont_block);
                                        let state = position(state, builder, cont_block);
                                        merge_branch_values_steps(
                                            state,
                                            builder,
                                            values_result,
                                            values_exit,
                                            single_result,
                                            single_exit,
                                        )
                                    },
                                    None => Ok((position(state, builder, cont_block), values_result)),
                                };
                                match merged {
                                    Err(message) => Err(message),
                                    Ok((state, value)) => {
                                        let state = pop_root_slots_steps(state, builder, 1);
                                        let state = if rooted is Closure {
                                            pop_root_slots_steps(state, builder, 1)
                                        } else {
                                            state
                                        };
                                        Ok((state, value))
                                    },
                                }
                            },
                        }
                    },
                }
            },
        },
    }
}

/// The code of `call-with-values`.
pub open spec fn call_with_values_steps(
    state: State,
    builder: usize,
    function: FunctionRef,
    env: Env,
    args: Seq<Expr>,
) -> Outcome<Val>
    decreases args, 40nat, 0nat,
{
    if args.len() != 2 {
        Err("call-with-values expects exactly two arguments"@)
    } else {
        match compile_expr_steps(state, builder, function, env, args[0]) {
            Err(message) => Err(message),
            Ok((state, producer)) => match procedure_signature(producer) {
                None => Err("call-with-values producer expected a function value"@),
                Some(producer_signature) => if producer_signature.params.len() != 0 {
                    Err("call-with-values producer must accept zero arguments"@)
                } else {
                    match compile_expr_steps(state, builder, function, env, args[1]) {
                        Err(message) => Err(message),
                        Ok((state, consumer)) => match procedure_signature(consumer) {
                            None => Err("call-with-values consumer expected a function value"@),
                            Some(signature) => consume_values_steps(
                                state,
                                builder,
                                function,
                                producer,
                                producer_signature,
                                consumer,
                                signature,
                            ),
                        },
                    }
                },
            },
        }
    }
}

/// The words of the first `count` arguments.
pub open spec fn words_steps(
    state: State,
    builder: usize,
    function: FunctionRef,
    env: Env,
    args: Seq<Expr>,
    count: nat,
) -> Outcome<Seq<Operand>>
    decreases args, 10nat, count,
{
    if count == 0 || count > args.len() {
        Ok((state, Seq::empty()))
    } else {
        match words_steps(state, builder, function, env, args, (count - 1) as nat) {
            Err(message) => Err(message),
            Ok((state, before)) => match compile_expr_steps(state, builder, function, env, args[count - 1]) {
                Err(message) => Err(message),
                Ok((state, value)) => {
                    let (state, word) = value_to_word_steps(state, builder, value);
                    Ok((state, before.push(word)))
                },
            },
        }
    }
}

/// The code of `error`: raises the list of the symbol `error` and the arguments.
pub open spec fn error_steps(
    state: State,
    builder: usize,
    function: FunctionRef,
    env: Env,
    args: Seq<Expr>,
) -> Outcome<Val>
    decreases args, 40nat, 0nat,
{
    if args.len() == 0 {
        Err("error expects at least one argument"@)
    } else {
        let (state, symbol) = symbol_literal_steps(state, builder, "error"@);
        let (state, symbol_word) = value_to_word_steps(state, builder, symbol);
        match words_steps(state, builder, function, env, args, args.len()) {
            Err(message) => Err(message),
            Ok((state, words)) => {
                let (state, list) = list_of_words_steps(state, builder, seq![symbol_word] + words);
                let (state, result) = call_steps(state, builder, RuntimeFunction::RtRaise, seq![list]);
                Ok((state, Val::Word(result)))
            },
        }
    }
}

/// The arguments from `from` up to `count` that `apply` takes out of its list.
#[verifier::opaque]
pub open spec fn apply_list_args_steps(
    state: State,
    builder: usize,
    list: Operand,
    kinds: Seq<AbiValueKind>,
    from: nat,
    count: nat,
) -> Outcome<Seq<Argument>>
    decreases count,
{
    if count <= from || count > kinds.len() {
        Ok((state, Seq::empty()))
    } else {
        match apply_list_args_steps(state, builder, list, kinds, from, (count - 1) as nat) {
            Err(message) => Err(message),
            Ok((state, before)) => {
                let (state, value) = load_list_element_steps(
                    state,
                    builder,
                    list,
                    (count - 1 - from) as usize,
                    kinds[count - 1],
                );
                match convert_argument_value_steps(state, builder, value, kinds[count - 1], "apply.list.arg"@) {
                    Err(message) => Err(message),
                    Ok((state, argument)) => Ok((state, before.push(argument))),
                }
            },
        }
    }
}

/// The arguments that `apply` hands on: those before its list, and those in the list. The
/// arguments of `apply` itself are given; the first is the procedure and the last the list.
pub open spec fn apply_arguments_steps(
    state: State,
    builder: usize,
    function: FunctionRef,
    env: Env,
    signature: Signature,
    args: Seq<Expr>,
    list: Operand,
) -> Outcome<Seq<Argument>>
    recommends
        args.len() >= 2,
    decreases args, 30nat, 0nat,
{
    let required = signature.params.len();
    let leading = (args.len() - 2) as nat;
    if !signature.rest && leading > required {
        Err(
            "apply received too many leading arguments for a procedure of arity "@ + decimal_text(required),
        )
    } else {
        let direct = if leading <= required { leading } else { required };
        let needed = (required - direct) as usize;
        match direct_args_steps(
            state,
            builder,
            function,
            env,
            args,
            1,
            signature.params,
            direct,
            "apply.prefix"@,
        ) {
            Err(message) => Err(message),
            Ok((state, from_prefix)) => {
                let state = if !signature.rest {
                    check_length_steps(
                        state,
                        builder,
                        function,
                        RuntimeFunction::ListLength,
                        list,
                        Predicate::Equal,
                        needed,
                    )
                } else if leading <= required {
                    check_length_steps(
                        state,
                        builder,
                        function,
                        RuntimeFunction::ListLength,
                        list,
                        Predicate::UnsignedGreaterEqual,
                        needed,
                    )
                } else {
                    state
                };
                match apply_list_args_steps(state, builder, list, signature.params, direct, required) {
                    Err(message) => Err(message),
                    Ok((state, from_list)) => {
                        let compiled = from_prefix + from_list;
                        if !signature.rest {
                            Ok((state, compiled))
                        } else if leading > required {
                            match list_value_steps(
                                state,
                                builder,
                                function,
                                env,
                                args,
                                required + 1,
                                (args.len() - 1) as nat,
                                list,
                            ) {
                                Err(message) => Err(message),
                                Ok((state, rest)) => Ok((state, compiled.push(Argument::Int(rest)))),
                            }
                        } else {
                            let (state, rest) = list_tail_word_steps(state, builder, list, needed);
                            Ok((state, compiled.push(Argument::Int(rest))))
                        }
                    },
                }
            },
        }
    }
}

/// The code of `apply`.
pub open spec fn apply_steps(
    state: State,
    builder: usize,
    function: FunctionRef,
    env: Env,
    args: Seq<Expr>,
) -> Outcome<Val>
    decreases args, 40nat, 0nat,
{
    if args.len() < 2 {
        Err("apply expects a procedure, optional leading arguments, and a final list"@)
    } else {
        match compile_expr_steps(state, builder, function, env, args[0]) {
            Err(message) => Err(message),
            Ok((state, callee)) => match procedure_signature(callee) {
                None => Err("apply target expected a function value, but a non-function was produced"@),
                Some(signature) => match compile_expr_steps(state, builder, function, env, args[args.len() - 1]) {
                    Err(message) => Err(message),
                    Ok((state, list_value)) => {
                        let (state, list) = value_to_word_steps(state, builder, list_value);
                        match apply_arguments_steps(state, builder, function, env, signature, args, list) {
                            Err(message) => Err(message),
                            Ok((state, compiled)) => emit_callable_call_steps(
                                state,
                                builder,
                                callee,
                                signature,
                                compiled,
                            ),
                        }
                    },
                },
            },
        }
    }
}

/// The first `count` lists of `map` and `for-each`: the slots that hold them and their lengths.
pub open spec fn iteration_lists_steps(
    state: State,
    builder: usize,
    function: FunctionRef,
    env: Env,
    args: Seq<Expr>,
    count: nat,
) -> Outcome<(Seq<Operand>, Seq<Operand>)>
    decreases args, 10nat, count,
{
    if count == 0 || count >= args.len() {
        Ok((state, (Seq::empty(), Seq::empty())))
    } else {
        match iteration_lists_steps(state, builder, function, env, args, (count - 1) as nat) {
            Err(message) => Err(message),
            Ok((state, (slots, lengths))) => match compile_expr_steps(state, builder, function, env, args[count as int]) {
                Err(message) => Err(message),
                Ok((state, value)) => {
                    let (state, word) = value_to_word_steps(state, builder, value);
                    let (state, slot) = root_word_steps(state, builder, word);
                    let (state, length) = call_steps(state, builder, RuntimeFunction::ListLength, seq![word]);
                    let (state, decoded) = fixnum_operand_steps(state, builder, function, length);
                    Ok((state, (slots.push(slot), lengths.push(decoded))))
                },
            },
        }
    }
}

/// Traps where one of the lengths up to `count` differs from the first.
#[verifier::opaque]
pub open spec fn same_lengths_steps(state: State, builder: usize, function: FunctionRef, lengths: Seq<Operand>, count: nat) -> State
    decreases count,
{
    if count <= 1 || count > lengths.len() {
        state
    } else {
        let state = same_lengths_steps(state, builder, function, lengths, (count - 1) as nat);
        let (state, same) = compare_steps(state, builder, Predicate::Equal, lengths[0], lengths[count - 1]);
        trap_if_false_steps(state, builder, function, same)
    }
}

/// The elements of the first `count` lists at a place: as arguments as far as the procedure
/// requires them, and as words beyond that.
#[verifier::opaque]
pub open spec fn iteration_args_steps(
    state: State,
    builder: usize,
    kinds: Seq<AbiValueKind>,
    slots: Seq<Operand>,
    index: Operand,
    count: nat,
) -> Outcome<(Seq<Argument>, Seq<Operand>)>
    decreases count,
{
    if count == 0 || count > slots.len() {
        Ok((state, (Seq::empty(), Seq::empty())))
    } else {
        match iteration_args_steps(state, builder, kinds, slots, index, (count - 1) as nat) {
            Err(message) => Err(message),
            Ok((state, (args, extras))) => {
                let (state, list) = load_rooted_word_steps(state, builder, slots[count - 1]);
                let (state, element) = call_steps(state, builder, RuntimeFunction::ListRef, seq![list, index]);
                if count - 1 < kinds.len() {
                    let (state, coerced) = word_to_codegen_value_steps(state, builder, element, kinds[count - 1]);
                    match convert_argument_value_steps(
                        state,
                        builder,
                        coerced,
                        kinds[count - 1],
                        "list iteration arg"@,
                    ) {
                        Err(message) => Err(message),
                        Ok((state, argument)) => Ok((state, (args.push(argument), extras))),
                    }
                } else {
                    Ok((state, (args, extras.push(element))))
                }
            },
        }
    }
}

/// The loop of `map` and `for-each`: calls the procedure with the elements of the lists at
/// one place after the other, and collects the results where asked to.
#[verifier::opaque]
pub open spec fn iteration_loop_steps(
    state: State,
    builder: usize,
    function: FunctionRef,
    callable: RootedVal,
    signature: Signature,
    slots: Seq<Operand>,
    lengths: Seq<Operand>,
    collect: bool,
) -> Outcome<Val> {
    let state = same_lengths_steps(state, builder, function, lengths, lengths.len());
    let (state, index_slot) = value_steps(state, Op::Alloca { builder });
    let state = push_step(state, Op::Store { builder, slot: index_slot, value: Operand::Word(0) });
    let (state, result_slot) = if collect {
        root_word_steps(state, builder, empty_list_word())
    } else {
        (state, Operand::NullRaw)
    };
    let (state, cond_block) = block_steps(state, function);
    let (state, body_block) = block_steps(state, function);
    let (state, step_block) = block_steps(state, function);
    let (state, done_block) = block_steps(state, function);
    let state = branch(state, builder, cond_block);
    let state = position(state, builder, cond_block);
    let (state, index) = load_rooted_word_steps(state, builder, index_slot);
    let (state, keep_going) = compare_steps(state, builder, Predicate::UnsignedLess, index, lengths[0]);
    let state = branch_if(state, builder, keep_going, body_block, done_block);
    let state = position(state, builder, body_block);
    match iteration_args_steps(state, builder, signature.params, slots, index, slots.len()) {
        Err(message) => Err(message),
        Ok((state, (direct, extras))) => {
            let (state, args) = if signature.rest {
                let (state, rest) = list_of_words_steps(state, builder, extras);
                (state, direct.push(Argument::Int(rest)))
            } else {
                (state, direct)
            };
            match emit_rooted_callable_call_steps(state, builder, callable, signature, args) {
                Err(message) => Err(message),
                Ok((state, value)) => {
                    let state = if collect {
                        let (state, item) = value_to_word_steps(state, builder, value);
                        let (state, current) = load_rooted_word_steps(state, builder, result_slot);
                        let (state, list) = cons_word_steps(state, builder, item, current);
                        push_step(state, Op::Store { builder, slot: result_slot, value: list })
                    } else {
                        state
                    };
                    let state = branch(state, builder, step_block);
                    let state = position(state, builder, step_block);
                    let (state, next) = binary_steps(state, builder, BinaryOp::Plus, index, Operand::Word(1));
                    let state = push_step(state, Op::Store { builder, slot: index_slot, value: next });
                    let state = branch(state, builder, cond_block);
                    let state = position(state, builder, done_block);
                    let (state, result) = if collect {
                        let (state, reversed) = load_rooted_word_steps(state, builder, result_slot);
                        call_steps(state, builder, RuntimeFunction::Reverse, seq![reversed])
                    } else {
                        (state, unspecified_word())
                    };
                    let state = if collect {
                        pop_root_slots_steps(state, builder, 1)
                    } else {
                        state
                    };
                    let state = pop_root_slots_steps(state, builder, slots.len());
                    let state = if callable is Closure {
                        pop_root_slots_steps(state, builder, 1)
                    } else {
                        state
                    };
                    Ok((state, Val::Word(result)))
                },
            }
        },
    }
}

/// The code of `map`, which collects, and of `for-each`, which does not.
pub open spec fn list_iteration_steps(
    state: State,
    builder: usize,
    function: FunctionRef,
    env: Env,
    args: Seq<Expr>,
    collect: bool,
) -> Outcome<Val>
    decreases args, 40nat, 0nat,
{
    let name = if collect { "map"@ } else { "for-each"@ };
    if args.len() < 2 {
        Err(name + " expects a procedure and at least one list"@)
    } else {
        match compile_expr_steps(state, builder, function, env, args[0]) {
            Err(message) => Err(message),
            Ok((state, callee)) => match procedure_signature(callee) {
                None => Err(name + " target expected a function value"@),
                Some(signature) => if !accepts(signature, (args.len() - 1) as nat) {
                    Err(
                        "procedure expects "@ + decimal_text(signature.params.len()) + or_more(signature.rest)
                            + " arguments but got "@ + decimal_text((args.len() - 1) as nat) + " list(s)"@,
                    )
                } else {
                    match root_callable_value_steps(state, builder, callee) {
                        Err(message) => Err(message),
                        Ok((state, callable)) => match iteration_lists_steps(
                            state,
                            builder,
                            function,
                            env,
                            args,
                            (args.len() - 1) as nat,
                        ) {
                            Err(message) => Err(message),
                            Ok((state, (slots, lengths))) => iteration_loop_steps(
                                state,
                                builder,
                                function,
                                callable,
                                signature,
                                slots,
                                lengths,
                                collect,
                            ),
                        },
                    }
                },
            },
        }
    }
}

/// What a builtin of one argument does with it.
#[verifier::opaque]
pub open spec fn unary_builtin_steps(state: State, builder: usize, function: FunctionRef, name: Seq<char>, value: Val) -> Outcome<Val> {
    if name == "not"@ {
        not_steps(state, builder, value)
    } else if name == "boolean?"@ {
        boolean_predicate_steps(state, builder, value)
    } else if name == "zero?"@ {
        zero_predicate_steps(state, builder, function, value)
    } else if name == "char?"@ {
        char_predicate_steps(state, builder, value)
    } else if name == "char->integer"@ {
        char_to_integer_steps(state, builder, function, value)
    } else if name == "integer->char"@ {
        integer_to_char_steps(state, builder, function, value)
    } else if name == "symbol?"@ {
        symbol_predicate_steps(state, builder, value)
    } else if name == "symbol->string"@ {
        unary_runtime_steps(state, builder, value, RuntimeFunction::SymbolToString)
    } else if name == "string->symbol"@ {
        unary_runtime_steps(state, builder, value, RuntimeFunction::StringToSymbol)
    } else if name == "procedure?"@ {
        procedure_predicate_steps(state, value)
    } else if name == "raise"@ {
        unary_runtime_steps(state, builder, value, RuntimeFunction::RtRaise)
    } else if name == "list-copy"@ {
        unary_runtime_steps(state, builder, value, RuntimeFunction::ListCopy)
    } else if name == "reverse"@ {
        unary_runtime_steps(state, builder, value, RuntimeFunction::Reverse)
    } else if name == "car"@ {
        pair_access_steps(state, builder, value, true)
    } else if name == "cdr"@ {
        pair_access_steps(state, builder, value, false)
    } else if name == "pair?"@ {
        pair_predicate_steps(state, builder, value)
    } else if name == "list?"@ {
        list_predicate_steps(state, builder, value)
    } else if name == "length"@ {
        unary_runtime_steps(state, builder, value, RuntimeFunction::ListLength)
    } else if name == "null?"@ {
        null_predicate_steps(state, builder, value)
    } else if name == "string?"@ {
        kind_predicate_steps(state, builder, value, HeapValueKind::String, RuntimeFunction::IsString)
    } else if name == "string-length"@ {
        length_steps(
            state,
            builder,
            value,
            HeapValueKind::String,
            RuntimeFunction::StringLengthGc,
            RuntimeFunction::StringLength,
        )
    } else if name == "display"@ {
        unary_runtime_steps(state, builder, value, RuntimeFunction::Display)
    } else if name == "write"@ {
        unary_runtime_steps(state, builder, value, RuntimeFunction::Write)
    } else if name == "gc-stress"@ {
        gc_stress_steps(state, builder, function, value)
    } else if name == "vector?"@ {
        kind_predicate_steps(state, builder, value, HeapValueKind::Vector, RuntimeFunction::IsVector)
    } else {
        length_steps(
            state,
            builder,
            value,
            HeapValueKind::Vector,
            RuntimeFunction::VectorLengthGc,
            RuntimeFunction::VectorLength,
        )
    }
}

/// Whether a builtin takes exactly one argument.
#[verifier::opaque]
pub open spec fn is_unary(name: Seq<char>) -> bool {
    name == "not"@ || name == "boolean?"@ || name == "zero?"@ || name == "char?"@ || name == "char->integer"@
        || name == "integer->char"@ || name == "symbol?"@ || name == "symbol->string"@
        || name == "string->symbol"@ || name == "procedure?"@ || name == "raise"@ || name == "list-copy"@
        || name == "reverse"@ || name == "car"@ || name == "cdr"@ || name == "pair?"@ || name == "list?"@
        || name == "length"@ || name == "null?"@ || name == "string?"@ || name == "string-length"@
        || name == "display"@ || name == "write"@ || name == "gc-stress"@ || name == "vector?"@
        || name == "vector-length"@
}

/// What a builtin of two arguments does with them.
#[verifier::opaque]
pub open spec fn binary_builtin_steps(
    state: State,
    builder: usize,
    function: FunctionRef,
    name: Seq<char>,
    first: Val,
    second: Val,
) -> Outcome<Val> {
    if name == "eq?"@ || name == "eqv?"@ {
        let (state, condition) = compare_codegen_values_steps(state, builder, first, second);
        answer_steps(state, builder, condition)
    } else if name == "equal?"@ {
        let (state, condition) = binary_runtime_steps(state, builder, first, second, RuntimeFunction::Equal);
        answer_steps(state, builder, condition)
    } else if name == "list-tail"@ {
        list_place_steps(
            state,
            builder,
            function,
            first,
            second,
            "list-tail index argument"@,
            RuntimeFunction::ListTail,
        )
    } else if name == "list-ref"@ {
        list_place_steps(
            state,
            builder,
            function,
            first,
            second,
            "list-ref index argument"@,
            RuntimeFunction::ListRef,
        )
    } else if name == "string-ref"@ {
        reference_steps(
            state,
            builder,
            function,
            first,
            second,
            "string-ref index argument"@,
            HeapValueKind::String,
            RuntimeFunction::StringRefGc,
            RuntimeFunction::StringRef,
        )
    } else if name == "vector-ref"@ {
        reference_steps(
            state,
            builder,
            function,
            first,
            second,
            "vector-ref index argument"@,
            HeapValueKind::Vector,
            RuntimeFunction::VectorRefGc,
            RuntimeFunction::VectorRef,
        )
    } else {
        let (state, result) = binary_runtime_steps(state, builder, first, second, search_function(name));
        Ok((state, Val::Word(result)))
    }
}

/// The entry of the runtime that searches a list.
pub open spec fn search_function(name: Seq<char>) -> RuntimeFunction {
    if name == "memq"@ {
        RuntimeFunction::Memq
    } else if name == "memv"@ {
        RuntimeFunction::Memv
    } else if name == "member"@ {
        RuntimeFunction::Member
    } else if name == "assq"@ {
        RuntimeFunction::Assq
    } else if name == "assv"@ {
        RuntimeFunction::Assv
    } else {
        RuntimeFunction::Assoc
    }
}

/// Whether a builtin takes exactly two arguments that are evaluated in their order.
#[verifier::opaque]
pub open spec fn is_binary(name: Seq<char>) -> bool {
    name == "eq?"@ || name == "eqv?"@ || name == "equal?"@ || name == "list-tail"@ || name == "list-ref"@
        || name == "string-ref"@ || name == "vector-ref"@ || name == "memq"@ || name == "memv"@
        || name == "member"@ || name == "assq"@ || name == "assv"@ || name == "assoc"@
}

/// The code of a call of a builtin that takes any number of arguments, or that has its own
/// order of evaluation.
pub open spec fn compile_other_builtin_steps(
    state: State,
    builder: usize,
    function: FunctionRef,
    env: Env,
    name: Seq<char>,
    args: Seq<Expr>,
) -> Outcome<Val>
    decreases args, 45nat, 0nat,
{
    if name == "+"@ || name == "-"@ || name == "*"@ || name == "/"@ {
        numeric_builtin_steps(state, builder, function, env, name, args)
    } else if name == "="@ || name == "<"@ || name == ">"@ || name == "<="@ || name == ">="@ {
        numeric_comparison_steps(state, builder, function, env, name, args)
    } else if name == "char=?"@ || name == "char<?"@ || name == "char>?"@ || name == "char<=?"@ || name
        == "char>=?"@ {
        char_comparison_steps(state, builder, function, env, name, args)
    } else if name == "values"@ {
        values_steps(state, builder, function, env, args)
    } else if name == "call-with-values"@ {
        call_with_values_steps(state, builder, function, env, args)
    } else if name == "error"@ {
        error_steps(state, builder, function, env, args)
    } else if name == "apply"@ {
        apply_steps(state, builder, function, env, args)
    } else if name == "list"@ {
        list_steps(state, builder, function, env, args, args.len(), Val::Word(empty_list_word()))
    } else if name == "map"@ {
        list_iteration_steps(state, builder, function, env, args, true)
    } else if name == "for-each"@ {
        list_iteration_steps(state, builder, function, env, args, false)
    } else if name == "append"@ {
        append_steps(state, builder, function, env, args)
    } else if name == "cons"@ {
        cons_steps(state, builder, function, env, args)
    } else if name == "set-car!"@ {
        pair_set_steps(state, builder, function, env, args, true)
    } else if name == "set-cdr!"@ {
        pair_set_steps(state, builder, function, env, args, false)
    } else if name == "newline"@ {
        if args.len() != 0 {
            Err("newline expects no arguments"@)
        } else {
            let (state, result) = call_steps(state, builder, RuntimeFunction::Newline, Seq::empty());
            Ok((state, Val::Word(result)))
        }
    } else if name == "vector"@ {
        vector_steps(state, builder, function, env, args)
    } else {
        vector_set_steps(state, builder, function, env, args)
    }
}

/// The code of a call of a builtin.
pub open spec fn compile_builtin_call_steps(
    state: State,
    builder: usize,
    function: FunctionRef,
    env: Env,
    name: Seq<char>,
    args: Seq<Expr>,
) -> Outcome<Val>
    decreases args, 50nat, 0nat,
{
    if is_unary(name) {
        match one_argument_steps(state, builder, function, env, name, args) {
            Err(message) => Err(message),
            Ok((state, value)) => unary_builtin_steps(state, builder, function, name, value),
        }
    } else if is_binary(name) {
        match two_arguments_steps(state, builder, function, env, name, args) {
            Err(message) => Err(message),
            Ok((state, (first, second))) => binary_builtin_steps(state, builder, function, name, first, second),
        }
    } else {
        compile_other_builtin_steps(state, builder, function, env, name, args)
    }
}

} // verus!
