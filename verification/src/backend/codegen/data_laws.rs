//! What the code of data does: pairs, lists and vectors are made of the words of their parts, in the order
//! of the parts, and are changed where they should be.
use crate::backend::abi::RuntimeFunction;
use crate::backend::codegen::expression_laws::{
    lemma_slots_append_rest, lemma_slots_compile_expr, lemma_slots_compile_quote, lemma_slots_quote_items, lemma_slots_list, lemma_slots_list_value,
    lemma_slots_call_args, lemma_slots_direct_args, lemma_slots_rooted_args, lemma_slots_vector_elements, lemma_slots_words,
};
use crate::backend::codegen::laws::{
    counted, lemma_call_leaves_no_slot, lemma_pair_leaves_no_slot, lemma_popped_slots_forgotten, lemma_root_word_leaves_one,
    lemma_slots_convert_argument_value, lemma_slots_cons_word, lemma_slots_copy_slots, lemma_slots_list_of_words,
    lemma_slots_resolve_callable_value, lemma_slots_symbol_literal, lemma_slots_value_to_word,
};
use crate::backend::codegen::plan::{
    call_args_steps, calls_builtin, compile_call_steps, compile_expr_steps, compile_quote_steps,
    direct_args_steps, list_value_steps, literal_steps, quote_items_steps, string_literal_steps, symbol_literal_steps,
};
use crate::backend::codegen::plan_builtins::{
    append_rest_steps, binary_runtime_steps, cons_steps, copy_slots_steps, error_steps, list_steps, pair_store_steps,
    rooted_args_steps, values_steps, vector_elements_steps, vector_steps, vector_store_steps, words_steps,
};
use crate::backend::codegen::iteration_laws::lemma_lists_joined;
use crate::backend::codegen::procedure_laws::{
    applied, argument_values, argument_word, arguments_list, code_and_object, held_word, keeps_new_slots,
    lemma_call_computed, lemma_cons_computed, lemma_forgotten, lemma_list_before, lemma_list_computed,
    lemma_pair_computed, lemma_word_held, list_before, pair_of,
};
use crate::backend::codegen::run_laws::{
    integer_word, is_run, lemma_run_last, lemma_run_literals, lemma_run_start, truth_word, values_of, Run,
};
use crate::backend::codegen::state::{
    call_steps, push_step, value_steps, Env, Outcome, State, Val,
};
use crate::backend::codegen::values::{
    alloc_pair_rooted_steps, cons_word_steps, convert_argument_value_steps,     list_of_words_steps, load_rooted_word_steps, pop_root_slots_steps, resolve_callable_value_steps, root_word_steps,
    value_to_word_steps,
};
use crate::backend::ir::{continues, group_continues, FunctionRef, Op, Operand};
use crate::backend::kinds::{AbiValueKind, HeapValueKind, Signature};
use crate::middle::hir::{Datum, Expr, ExprKind};
use crate::text::decimal_text;
use vstd::prelude::*;
use vstd::utf8::*;

verus! {

broadcast use vstd::seq_lib::group_seq_properties;

/// The code of an expression, up to the word that it leaves.
pub open spec fn word_steps(state: State, builder: usize, function: FunctionRef, env: Env, expr: Expr) -> Outcome<Operand> {
    match compile_expr_steps(state, builder, function, env, expr) {
        Err(message) => Err(message),
        Ok((state, value)) => Ok(value_to_word_steps(state, builder, value)),
    }
}

/// Whether the code of an expression leaves a word.
pub open spec fn is_left(run: Run, builder: usize, function: FunctionRef, env: Env, expr: Expr, word: int) -> bool {
    exists|state: State|
        (#[trigger] word_steps(state, builder, function, env, expr)) matches Ok((_, operand)) && (run.values)(operand)
            == word
}

/// Whether the code of each of a row of expressions leaves the word with its number.
pub open spec fn are_left(run: Run, builder: usize, function: FunctionRef, env: Env, exprs: Seq<Expr>, words: Seq<int>) -> bool {
    words.len() == exprs.len() && forall|i: int|
        0 <= i < exprs.len() ==> is_left(run, builder, function, env, #[trigger] exprs[i], words[i])
}

/// What an expression left becomes its word.
proof fn lemma_to_word(run: Run, state: State, builder: usize, value: Val, from: int)
    requires
        is_run(run, value_to_word_steps(state, builder, value).0.trace, from),
        0 <= from <= state.trace.len(),
    ensures
        is_run(run, state.trace, from),
        value is Word || value is HeapObject ==> (run.values)(value_to_word_steps(state, builder, value).1) == held_word(
            run,
            value,
        ),
{
    broadcast use {lemma_run_last, lemma_slots_value_to_word};

    assert(counted(0));
    let (after, _) = value_to_word_steps(state, builder, value);
    lemma_run_start(run, state.trace, after.trace, from);
    reveal(value_to_word_steps);
}

/// `cons` makes the pair of its two arguments, the first of which is the car.
pub proof fn lemma_cons(run: Run, state: State, builder: usize, function: FunctionRef, env: Env, args: Seq<Expr>, from: int) -> (words:
    Seq<int>)
    requires
        cons_steps(state, builder, function, env, args) matches Ok((after, _)) && is_run(run, after.trace, from)
            && after.trace.len() <= usize::MAX,
        0 <= from <= state.trace.len(),
        keeps_new_slots(run, state.trace),
    ensures
        are_left(run, builder, function, env, args, words),
        words.len() == 2,
        cons_steps(state, builder, function, env, args) matches Ok((after, value)) && held_word(run, value) == pair_of(
            run,
            words[0],
            words[1],
        ) && value is HeapObject,
{
    broadcast use {group_continues, lemma_slots_value_to_word, lemma_pair_leaves_no_slot};

    assert(counted(0));
    let (first, car_value) = compile_expr_steps(state, builder, function, env, args[0])->Ok_0;
    lemma_slots_compile_expr(state, builder, function, env, args[0], 0);
    let (second, car) = value_to_word_steps(first, builder, car_value);
    let (third, cdr_value) = compile_expr_steps(second, builder, function, env, args[1])->Ok_0;
    lemma_slots_compile_expr(second, builder, function, env, args[1], 0);
    let (fourth, cdr) = value_to_word_steps(third, builder, cdr_value);
    let (fifth, ptr) = alloc_pair_rooted_steps(fourth, builder, car, cdr);
    assert(second.trace.len() >= first.trace.len() && fourth.trace.len() >= third.trace.len());
    lemma_pair_computed(run, fourth, builder, car, cdr, from);
    let words = seq![(run.values)(car), (run.values)(cdr)];
    assert(word_steps(state, builder, function, env, args[0]) == Ok::<(State, Operand), Seq<char>>((second, car)));
    assert(word_steps(second, builder, function, env, args[1]) == Ok::<(State, Operand), Seq<char>>((fourth, cdr)));
    assert(is_left(run, builder, function, env, args[0], words[0]));
    assert(is_left(run, builder, function, env, args[1], words[1]));
    words
}

/// `list` makes the list of its arguments, in their order, in front of what is given.
pub proof fn lemma_list(
    run: Run,
    state: State,
    builder: usize,
    function: FunctionRef,
    env: Env,
    args: Seq<Expr>,
    end: nat,
    tail: Val,
    from: int,
) -> (words: Seq<int>)
    requires
        list_steps(state, builder, function, env, args, end, tail) matches Ok((after, _)) && is_run(run, after.trace, from)
            && after.trace.len() <= usize::MAX,
        0 <= from <= state.trace.len(),
        keeps_new_slots(run, state.trace),
        end <= args.len(),
        tail is Word || tail is HeapObject,
    ensures
        are_left(run, builder, function, env, args.subrange(0, end as int), words),
        list_steps(state, builder, function, env, args, end, tail) matches Ok((after, value)) && held_word(run, value)
            == list_before(run, words, held_word(run, tail)) && (value is Word || value is HeapObject),
    decreases end,
{
    broadcast use {group_continues, lemma_slots_value_to_word, lemma_pair_leaves_no_slot};

    if end == 0 {
        Seq::empty()
    } else {
        assert(counted(0));
        let less = (end - 1) as nat;
        let (first, car) = compile_expr_steps(state, builder, function, env, args[end - 1])->Ok_0;
        lemma_slots_compile_expr(state, builder, function, env, args[end - 1], 0);
        let (second, car_word) = value_to_word_steps(first, builder, car);
        let (third, cdr_word) = value_to_word_steps(second, builder, tail);
        let (fourth, ptr) = alloc_pair_rooted_steps(third, builder, car_word, cdr_word);
        let next = Val::HeapObject { ptr, kind: HeapValueKind::Pair };
        lemma_slots_list(fourth, builder, function, env, args, less, next, 0);
        assert(first.trace.len() <= second.trace.len() <= third.trace.len() <= fourth.trace.len());
        let (after, _) = list_steps(state, builder, function, env, args, end, tail)->Ok_0;
        assert(continues(fourth.trace, after.trace));
        let before = lemma_list(run, fourth, builder, function, env, args, less, next, from);
        lemma_run_start(run, fourth.trace, after.trace, from);
        lemma_pair_computed(run, third, builder, car_word, cdr_word, from);
        lemma_to_word(run, second, builder, tail, from);
        let words = before.push((run.values)(car_word));
        assert(word_steps(state, builder, function, env, args[end - 1]) == Ok::<(State, Operand), Seq<char>>(
            (second, car_word),
        ));
        assert(is_left(run, builder, function, env, args[end - 1], words[less as int]));
        let part = args.subrange(0, end as int);
        assert forall|i: int| 0 <= i < part.len() implies is_left(
            run,
            builder,
            function,
            env,
            #[trigger] part[i],
            words[i],
        ) by {
            if i < less {
                assert(args.subrange(0, less as int)[i] == part[i]);
            }
        }
        lemma_list_before(
            run,
            before,
            (run.values)(car_word),
            held_word(run, tail),
        );
        words
    }
}

/// What appending lists in their order in front of another gives.
pub open spec fn appended_before(run: Run, words: Seq<int>, tail: int) -> int
    decreases words.len(),
{
    if words.len() == 0 {
        tail
    } else {
        appended_before(
            run,
            words.drop_last(),
            (run.answers)(RuntimeFunction::Append, seq![words.last(), tail]),
        )
    }
}

/// `append` puts its arguments one in front of the other, in their order.
pub proof fn lemma_append_rest(
    run: Run,
    state: State,
    builder: usize,
    function: FunctionRef,
    env: Env,
    args: Seq<Expr>,
    end: nat,
    tail: Val,
    from: int,
) -> (words: Seq<int>)
    requires
        append_rest_steps(state, builder, function, env, args, end, tail) matches Ok((after, _)) && is_run(
            run,
            after.trace,
            from,
        ),
        0 <= from <= state.trace.len(),
        end <= args.len(),
        tail is Word || tail is HeapObject,
    ensures
        are_left(run, builder, function, env, args.subrange(0, end as int), words),
        append_rest_steps(state, builder, function, env, args, end, tail) matches Ok((after, value)) && held_word(
            run,
            value,
        ) == appended_before(run, words, held_word(run, tail)),
    decreases end,
{
    broadcast use {group_continues, lemma_slots_value_to_word, lemma_run_last};

    if end == 0 {
        Seq::empty()
    } else {
        assert(counted(0));
        reveal(binary_runtime_steps);
        let less = (end - 1) as nat;
        let (first, left) = compile_expr_steps(state, builder, function, env, args[end - 1])->Ok_0;
        lemma_slots_compile_expr(state, builder, function, env, args[end - 1], 0);
        let (second, left_word) = value_to_word_steps(first, builder, left);
        let (third, tail_word) = value_to_word_steps(second, builder, tail);
        let (fourth, result) = call_steps(third, builder, RuntimeFunction::Append, seq![left_word, tail_word]);
        lemma_slots_append_rest(fourth, builder, function, env, args, less, Val::Word(result), 0);
        assert(first.trace.len() <= second.trace.len() <= third.trace.len() <= fourth.trace.len());
        let (after, _) = append_rest_steps(state, builder, function, env, args, end, tail)->Ok_0;
        assert(continues(fourth.trace, after.trace));
        let before = lemma_append_rest(run, fourth, builder, function, env, args, less, Val::Word(result), from);
        lemma_run_start(run, fourth.trace, after.trace, from);
        assert(values_of(run, seq![left_word, tail_word]) =~= seq![(run.values)(left_word), (run.values)(tail_word)]);
        lemma_to_word(run, second, builder, tail, from);
        let words = before.push((run.values)(left_word));
        assert(words.drop_last() =~= before);
        assert(word_steps(state, builder, function, env, args[end - 1]) == Ok::<(State, Operand), Seq<char>>(
            (second, left_word),
        ));
        assert(is_left(run, builder, function, env, args[end - 1], words[less as int]));
        let part = args.subrange(0, end as int);
        assert forall|i: int| 0 <= i < part.len() implies is_left(
            run,
            builder,
            function,
            env,
            #[trigger] part[i],
            words[i],
        ) by {
            if i < less {
                assert(args.subrange(0, less as int)[i] == part[i]);
            }
        }
        words
    }
}

/// The words that are written in front of a vector are those of the arguments, in their order.
pub proof fn lemma_vector_elements(
    run: Run,
    state: State,
    builder: usize,
    function: FunctionRef,
    env: Env,
    args: Seq<Expr>,
    elements: Operand,
    count: nat,
    from: int,
) -> (words: Seq<int>)
    requires
        vector_elements_steps(state, builder, function, env, args, elements, count) matches Ok((after, _)) && is_run(
            run,
            after.trace,
            from,
        ) && after.trace.len() <= usize::MAX,
        0 <= from <= state.trace.len(),
        keeps_new_slots(run, state.trace),
        count <= args.len() <= usize::MAX,
    ensures
        are_left(run, builder, function, env, args.subrange(0, count as int), words),
        forall|i: int| 0 <= i < count ==> #[trigger] words[i] == (run.fields)((run.values)(elements), i),
    decreases count,
{
    broadcast use {group_continues, lemma_slots_value_to_word, lemma_run_last};

    if count == 0 {
        Seq::empty()
    } else {
        assert(counted(0));
        let less = (count - 1) as nat;
        let (first, _) = vector_elements_steps(state, builder, function, env, args, elements, less)->Ok_0;
        lemma_slots_vector_elements(state, builder, function, env, args, elements, less, 0);
        let (second, value) = compile_expr_steps(first, builder, function, env, args[count - 1])->Ok_0;
        lemma_slots_compile_expr(first, builder, function, env, args[count - 1], 0);
        let (third, word) = value_to_word_steps(second, builder, value);
        let index = (count - 1) as usize;
        let (fourth, slot) = value_steps(third, Op::ElementPointer { builder, base: elements, skip: 0, index });
        let fifth = push_step(fourth, Op::Store { builder, slot, value: word });
        assert(state.trace.len() <= first.trace.len() <= second.trace.len() <= third.trace.len());
        assert(is_run(run, fourth.trace, from));
        assert(is_run(run, third.trace, from));
        assert(continues(first.trace, third.trace));
        lemma_run_start(run, first.trace, third.trace, from);
        let before = lemma_vector_elements(run, state, builder, function, env, args, elements, less, from);
        let words = before.push((run.values)(word));
        assert(word_steps(first, builder, function, env, args[count - 1]) == Ok::<(State, Operand), Seq<char>>(
            (third, word),
        ));
        assert(is_left(run, builder, function, env, args[count - 1], words[less as int]));
        let part = args.subrange(0, count as int);
        assert forall|i: int| 0 <= i < part.len() implies is_left(
            run,
            builder,
            function,
            env,
            #[trigger] part[i],
            words[i],
        ) by {
            if i < less {
                assert(args.subrange(0, less as int)[i] == part[i]);
            }
        }
        assert forall|i: int| 0 <= i < count implies #[trigger] words[i] == (run.fields)((run.values)(elements), i) by {
            if i < less {
                assert(words[i] == before[i]);
            }
        }
        words
    }
}

/// `set-car!` and `set-cdr!` hand the runtime the pair and the word to put into it.
pub proof fn lemma_pair_stored(run: Run, state: State, builder: usize, pair: Val, value: Val, set_car: bool, from: int)
    requires
        is_run(run, pair_store_steps(state, builder, pair, value, set_car).0.trace, from),
        0 <= from <= state.trace.len(),
        pair is Word || pair is HeapObject || pair is RootedWord,
        value is Word || value is HeapObject,
    ensures
        ({
            let (by_pointer, by_word) = if set_car {
                (RuntimeFunction::PairSetCarGc, RuntimeFunction::PairSetCar)
            } else {
                (RuntimeFunction::PairSetCdrGc, RuntimeFunction::PairSetCdr)
            };
            let parts = seq![held_word(run, pair), held_word(run, value)];
            let result = (run.values)(pair_store_steps(state, builder, pair, value, set_car).1);
            result == (run.answers)(by_pointer, parts) || result == (run.answers)(by_word, parts)
        }),
{
    broadcast use {lemma_run_last, lemma_slots_value_to_word};

    assert(counted(0));
    reveal(pair_store_steps);
    reveal(load_rooted_word_steps);
    let (first, word) = value_to_word_steps(state, builder, value);
    assert(state.trace.len() <= first.trace.len());
    let (after, result) = pair_store_steps(state, builder, pair, value, set_car);
    match pair {
        Val::RootedWord { slot } => {
            let (second, pair_word) = load_rooted_word_steps(first, builder, slot);
            let (third, ptr) = value_steps(second, Op::IntToPtr { builder, value: pair_word });
            assert(values_of(run, seq![ptr, word]) =~= seq![(run.values)(ptr), (run.values)(word)]);
            lemma_to_word(run, state, builder, value, from);
        },
        Val::HeapObject { ptr, kind } => {
            if kind == HeapValueKind::Pair {
                assert(values_of(run, seq![ptr, word]) =~= seq![(run.values)(ptr), (run.values)(word)]);
                lemma_to_word(run, state, builder, value, from);
            } else {
                let (second, pair_word) = value_to_word_steps(first, builder, pair);
                assert(first.trace.len() <= second.trace.len());
                assert(values_of(run, seq![pair_word, word]) =~= seq![(run.values)(pair_word), (run.values)(word)]);
                lemma_to_word(run, first, builder, pair, from);
                lemma_to_word(run, state, builder, value, from);
            }
        },
        _ => {
            let (second, pair_word) = value_to_word_steps(first, builder, pair);
            assert(first.trace.len() <= second.trace.len());
            assert(values_of(run, seq![pair_word, word]) =~= seq![(run.values)(pair_word), (run.values)(word)]);
            lemma_to_word(run, first, builder, pair, from);
            lemma_to_word(run, state, builder, value, from);
        },
    }
}

/// `vector-set!` hands the runtime the vector, the place and the word to put there.
pub proof fn lemma_element_stored(run: Run, state: State, builder: usize, vector: Val, place: Operand, element: Val, from: int)
    requires
        is_run(run, vector_store_steps(state, builder, vector, place, element).0.trace, from),
        0 <= from <= state.trace.len(),
        vector is Word || vector is HeapObject,
        element is Word || element is HeapObject,
    ensures
        ({
            let parts = seq![held_word(run, vector), (run.values)(place), held_word(run, element)];
            let result = (run.values)(vector_store_steps(state, builder, vector, place, element).1);
            result == (run.answers)(RuntimeFunction::VectorSetGc, parts) || result == (run.answers)(
                RuntimeFunction::VectorSet,
                parts,
            )
        }),
{
    broadcast use {lemma_run_last, lemma_slots_value_to_word};

    assert(counted(0));
    reveal(vector_store_steps);
    let (first, word) = value_to_word_steps(state, builder, element);
    assert(state.trace.len() <= first.trace.len());
    let known = match vector {
        Val::HeapObject { ptr, kind } => if kind == HeapValueKind::Vector {
            Some(ptr)
        } else {
            None
        },
        _ => None,
    };
    match known {
        Some(ptr) => {
            assert(values_of(run, seq![ptr, place, word]) =~= seq![
                (run.values)(ptr),
                (run.values)(place),
                (run.values)(word),
            ]);
            lemma_to_word(run, state, builder, element, from);
        },
        None => {
            let (second, vector_word) = value_to_word_steps(first, builder, vector);
            assert(first.trace.len() <= second.trace.len());
            assert(values_of(run, seq![vector_word, place, word]) =~= seq![
                (run.values)(vector_word),
                (run.values)(place),
                (run.values)(word),
            ]);
            lemma_to_word(run, first, builder, vector, from);
            lemma_to_word(run, state, builder, element, from);
        },
    }
}

/// Whether the code of an expression leaves an argument that holds a word.
pub open spec fn is_passed(
    run: Run,
    builder: usize,
    function: FunctionRef,
    env: Env,
    expr: Expr,
    kind: AbiValueKind,
    word: int,
) -> bool {
    exists|state: State|
        (#[trigger] compile_expr_steps(state, builder, function, env, expr)) matches Ok((after, value)) && (match kind {
            AbiValueKind::Word => (run.values)(value_to_word_steps(after, builder, value).1) == word,
            AbiValueKind::Heap(expected) => value matches Val::HeapObject { ptr, kind: found } && found == expected
                && (run.values)(ptr) == word,
        })
}

/// The first arguments of a call are those that their expressions leave, in their order.
pub proof fn lemma_direct_args(
    run: Run,
    state: State,
    builder: usize,
    function: FunctionRef,
    env: Env,
    args: Seq<Expr>,
    skip: nat,
    kinds: Seq<AbiValueKind>,
    count: nat,
    context: Seq<char>,
    from: int,
)
    requires
        direct_args_steps(state, builder, function, env, args, skip, kinds, count, context) matches Ok((after, _))
            && is_run(run, after.trace, from),
        0 <= from <= state.trace.len(),
        count <= kinds.len(),
        skip + count <= args.len(),
    ensures
        direct_args_steps(state, builder, function, env, args, skip, kinds, count, context) matches Ok((after, given))
            && given.len() == count && forall|i: int|
            0 <= i < count ==> is_passed(
                run,
                builder,
                function,
                env,
                args[skip + i],
                kinds[i],
                argument_word(run, #[trigger] given[i]),
            ),
    decreases count,
{
    broadcast use {group_continues, lemma_slots_convert_argument_value};

    if count > 0 {
        assert(counted(0));
        let less = (count - 1) as nat;
        let (first, before) = direct_args_steps(
            state,
            builder,
            function,
            env,
            args,
            skip,
            kinds,
            less,
            context,
        )->Ok_0;
        lemma_slots_direct_args(state, builder, function, env, args, skip, kinds, less, context, 0);
        let expr = args[skip + count - 1];
        let (second, value) = compile_expr_steps(first, builder, function, env, expr)->Ok_0;
        lemma_slots_compile_expr(first, builder, function, env, expr, 0);
        let kind = kinds[count - 1];
        let (third, argument) = convert_argument_value_steps(second, builder, value, kind, context)->Ok_0;
        assert(continues(first.trace, third.trace));
        lemma_run_start(run, first.trace, third.trace, from);
        lemma_direct_args(run, state, builder, function, env, args, skip, kinds, less, context, from);
        assert(is_passed(run, builder, function, env, expr, kind, argument_word(run, argument))) by {
            reveal(convert_argument_value_steps);
        }
        let (after, given) = direct_args_steps(
            state,
            builder,
            function,
            env,
            args,
            skip,
            kinds,
            count,
            context,
        )->Ok_0;
        assert forall|i: int| 0 <= i < count implies is_passed(
            run,
            builder,
            function,
            env,
            args[skip + i],
            kinds[i],
            argument_word(run, #[trigger] given[i]),
        ) by {
            if i < less {
                assert(given[i] == before[i]);
            }
        }
    }
}

/// The further arguments of a call make up a list, in their order, in front of what is given.
pub proof fn lemma_further_args(
    run: Run,
    state: State,
    builder: usize,
    function: FunctionRef,
    env: Env,
    args: Seq<Expr>,
    start: nat,
    end: nat,
    tail: Operand,
    from: int,
) -> (words: Seq<int>)
    requires
        list_value_steps(state, builder, function, env, args, start, end, tail) matches Ok((after, _)) && is_run(
            run,
            after.trace,
            from,
        ) && after.trace.len() <= usize::MAX,
        0 <= from <= state.trace.len(),
        keeps_new_slots(run, state.trace),
        start <= end <= args.len(),
    ensures
        are_left(run, builder, function, env, args.subrange(start as int, end as int), words),
        list_value_steps(state, builder, function, env, args, start, end, tail) matches Ok((after, list)) && (run.values)(
            list,
        ) == list_before(run, words, (run.values)(tail)),
    decreases end,
{
    broadcast use {group_continues, lemma_slots_value_to_word, lemma_slots_cons_word};

    if end <= start {
        Seq::empty()
    } else {
        assert(counted(0));
        let less = (end - 1) as nat;
        let (first, value) = compile_expr_steps(state, builder, function, env, args[end - 1])->Ok_0;
        lemma_slots_compile_expr(state, builder, function, env, args[end - 1], 0);
        let (second, car) = value_to_word_steps(first, builder, value);
        let (third, list) = cons_word_steps(second, builder, car, tail);
        lemma_slots_list_value(third, builder, function, env, args, start, less, list, 0);
        assert(first.trace.len() <= second.trace.len() <= third.trace.len());
        let (after, _) = list_value_steps(state, builder, function, env, args, start, end, tail)->Ok_0;
        assert(continues(third.trace, after.trace));
        let before = lemma_further_args(run, third, builder, function, env, args, start, less, list, from);
        lemma_run_start(run, third.trace, after.trace, from);
        lemma_cons_computed(run, second, builder, car, tail, from);
        let words = before.push((run.values)(car));
        assert(word_steps(state, builder, function, env, args[end - 1]) == Ok::<(State, Operand), Seq<char>>(
            (second, car),
        ));
        assert(is_left(run, builder, function, env, args[end - 1], words[less - start]));
        let part = args.subrange(start as int, end as int);
        assert forall|i: int| 0 <= i < part.len() implies is_left(
            run,
            builder,
            function,
            env,
            #[trigger] part[i],
            words[i],
        ) by {
            if i < less - start {
                assert(args.subrange(start as int, less as int)[i] == part[i]);
            }
        }
        lemma_list_before(run, before, (run.values)(car), (run.values)(tail));
        words
    }
}

/// The words of a row of expressions are left in their order.
pub proof fn lemma_words_left(
    run: Run,
    state: State,
    builder: usize,
    function: FunctionRef,
    env: Env,
    args: Seq<Expr>,
    count: nat,
    from: int,
)
    requires
        words_steps(state, builder, function, env, args, count) matches Ok((after, _)) && is_run(run, after.trace, from),
        0 <= from <= state.trace.len(),
        count <= args.len(),
    ensures
        words_steps(state, builder, function, env, args, count) matches Ok((after, words)) && are_left(
            run,
            builder,
            function,
            env,
            args.subrange(0, count as int),
            values_of(run, words),
        ),
    decreases count,
{
    broadcast use {group_continues, lemma_slots_value_to_word};

    if count > 0 {
        assert(counted(0));
        let less = (count - 1) as nat;
        let (first, before) = words_steps(state, builder, function, env, args, less)->Ok_0;
        lemma_slots_words(state, builder, function, env, args, less, 0);
        let (second, value) = compile_expr_steps(first, builder, function, env, args[count - 1])->Ok_0;
        lemma_slots_compile_expr(first, builder, function, env, args[count - 1], 0);
        let (third, word) = value_to_word_steps(second, builder, value);
        assert(continues(first.trace, third.trace));
        lemma_run_start(run, first.trace, third.trace, from);
        lemma_words_left(run, state, builder, function, env, args, less, from);
        assert(word_steps(first, builder, function, env, args[count - 1]) == Ok::<(State, Operand), Seq<char>>(
            (third, word),
        ));
        assert(is_left(run, builder, function, env, args[count - 1], (run.values)(word)));
        let part = args.subrange(0, count as int);
        let all = values_of(run, before.push(word));
        assert forall|i: int| 0 <= i < part.len() implies is_left(
            run,
            builder,
            function,
            env,
            #[trigger] part[i],
            all[i],
        ) by {
            if i < less {
                assert(args.subrange(0, less as int)[i] == part[i]);
                assert(all[i] == values_of(run, before)[i]);
            }
        }
    }
}

/// `error` raises the list of the symbol `error` and its arguments, in their order.
pub proof fn lemma_error(run: Run, state: State, builder: usize, function: FunctionRef, env: Env, args: Seq<Expr>, from: int) -> (words:
    Seq<int>)
    requires
        error_steps(state, builder, function, env, args) matches Ok((after, _)) && is_run(run, after.trace, from)
            && after.trace.len() <= usize::MAX,
        0 <= from <= state.trace.len(),
        keeps_new_slots(run, state.trace),
    ensures
        are_left(run, builder, function, env, args, words),
        error_steps(state, builder, function, env, args) matches Ok((after, value)) && held_word(run, value) == (
        run.answers)(
            RuntimeFunction::RtRaise,
            seq![list_before(run, seq![symbol_of_text(run, "error"@)] + words, 10)],
        ),
{
    broadcast use {
        group_continues,
        lemma_run_last,
        lemma_slots_value_to_word,
        lemma_slots_symbol_literal,
        lemma_slots_list_of_words,
    };

    assert(counted(0));
    let (first, symbol) = symbol_literal_steps(state, builder, "error"@);
    let (second, symbol_word) = value_to_word_steps(first, builder, symbol);
    let (third, words) = words_steps(second, builder, function, env, args, args.len())->Ok_0;
    lemma_slots_words(second, builder, function, env, args, args.len(), 0);
    let all = seq![symbol_word] + words;
    let (fourth, list) = list_of_words_steps(third, builder, all);
    let (fifth, result) = call_steps(fourth, builder, RuntimeFunction::RtRaise, seq![list]);
    lemma_run_literals(run, fifth.trace, from);
    assert(first.trace.len() <= second.trace.len() <= third.trace.len() <= fourth.trace.len());
    assert(values_of(run, seq![list]) =~= seq![(run.values)(list)]);
    assert(is_run(run, fourth.trace, from));
    reveal(list_of_words_steps);
    lemma_list_computed(run, third, builder, all, all.len(), Operand::Word(10), from);
    assert(all.subrange(0, all.len() as int) =~= all);
    lemma_words_left(run, second, builder, function, env, args, args.len(), from);
    assert(args.subrange(0, args.len() as int) =~= args);
    lemma_run_start(run, second.trace, third.trace, from);
    assert((run.values)(symbol_word) == symbol_of_text(run, "error"@)) by {
        lemma_to_word(run, first, builder, symbol, from);
        lemma_symbol_made(run, state, builder, "error"@, from);
    }
    assert(values_of(run, all) =~= seq![symbol_of_text(run, "error"@)] + values_of(run, words));
    values_of(run, words)
}

/// The symbol that the runtime makes of a text.
pub open spec fn symbol_of_text(run: Run, text: Seq<char>) -> int {
    (run.answers)(
        RuntimeFunction::AllocSymbolGc,
        seq![(run.texts)(text), encode_utf8(text).len() as usize as u64 as int],
    )
}

/// The string that the runtime makes of a text.
pub open spec fn string_of_text(run: Run, text: Seq<char>) -> int {
    (run.answers)(
        RuntimeFunction::AllocStringGc,
        seq![(run.texts)(text), encode_utf8(text).len() as usize as u64 as int],
    )
}

/// A symbol is made of its text.
proof fn lemma_symbol_made(run: Run, state: State, builder: usize, text: Seq<char>, from: int)
    requires
        is_run(run, symbol_literal_steps(state, builder, text).0.trace, from),
        0 <= from <= state.trace.len(),
    ensures
        is_run(run, state.trace, from),
        symbol_literal_steps(state, builder, text).1 is HeapObject,
        held_word(run, symbol_literal_steps(state, builder, text).1) == symbol_of_text(run, text),
{
    broadcast use lemma_run_last;

    reveal(symbol_literal_steps);
    reveal(literal_steps);
    lemma_run_literals(run, symbol_literal_steps(state, builder, text).0.trace, from);
    let name = "__symbol_literal_"@ + decimal_text(state.counter);
    let (first, global) = value_steps(state, Op::AddBytes { name, text });
    let counted_on = State { counter: first.counter + 1, ..first };
    let (second, pointer) = value_steps(counted_on, Op::PointerCast { builder, value: global });
    let length = encode_utf8(text).len() as usize as u64;
    let operands = seq![pointer, Operand::Word(length)];
    assert(values_of(run, operands) =~= seq![(run.values)(pointer), length as int]);
}

/// A string is made of its text.
proof fn lemma_string_made(run: Run, state: State, builder: usize, text: Seq<char>, from: int)
    requires
        is_run(run, string_literal_steps(state, builder, text).0.trace, from),
        0 <= from <= state.trace.len(),
    ensures
        is_run(run, state.trace, from),
        string_literal_steps(state, builder, text).1 is HeapObject,
        held_word(run, string_literal_steps(state, builder, text).1) == string_of_text(run, text),
{
    broadcast use lemma_run_last;

    reveal(string_literal_steps);
    reveal(literal_steps);
    lemma_run_literals(run, string_literal_steps(state, builder, text).0.trace, from);
    let name = "__string_literal_"@ + decimal_text(state.counter);
    let (first, global) = value_steps(state, Op::AddBytes { name, text });
    let counted_on = State { counter: first.counter + 1, ..first };
    let (second, pointer) = value_steps(counted_on, Op::PointerCast { builder, value: global });
    let length = encode_utf8(text).len() as usize as u64;
    let operands = seq![pointer, Operand::Word(length)];
    assert(values_of(run, operands) =~= seq![(run.values)(pointer), length as int]);
}

/// The word of quoted data: atoms are themselves, and a list is made of the words of its items, in their
/// order, in front of its tail or the empty list.
pub open spec fn datum_word(run: Run, datum: Datum) -> int
    decreases datum, 1nat,
{
    match datum {
        Datum::Integer(value) => integer_word(value as int),
        Datum::Boolean(value) => truth_word(value),
        Datum::Char(value) => 8 * (value as int) + 4,
        Datum::String(value) => string_of_text(run, value@),
        Datum::Symbol(value) => symbol_of_text(run, value@),
        Datum::List { items, tail } => data_before(
            run,
            items@,
            items@.len(),
            match tail {
                Some(tail) => datum_word(run, *tail),
                None => 10,
            },
        ),
    }
}

/// The list of the first data of a row in front of another.
pub open spec fn data_before(run: Run, items: Seq<Datum>, count: nat, tail: int) -> int
    decreases items, count,
{
    if count == 0 || count > items.len() {
        tail
    } else {
        data_before(run, items, (count - 1) as nat, pair_of(run, datum_word(run, items[count - 1]), tail))
    }
}

/// The code of quoted data leaves its word.
pub proof fn lemma_quoted(run: Run, state: State, builder: usize, datum: Datum, from: int)
    requires
        compile_quote_steps(state, builder, datum) matches Ok((after, _)) && is_run(run, after.trace, from)
            && after.trace.len() <= usize::MAX,
        0 <= from <= state.trace.len(),
        keeps_new_slots(run, state.trace),
        usize::MAX == u64::MAX,
    ensures
        is_run(run, state.trace, from),
        compile_quote_steps(state, builder, datum) matches Ok((after, value)) && held_word(run, value) == datum_word(
            run,
            datum,
        ) && (value is Word || value is HeapObject),
    decreases datum, 1nat,
{
    let (after, value) = compile_quote_steps(state, builder, datum)->Ok_0;
    lemma_run_literals(run, after.trace, from);
    match datum {
        Datum::String(text) => {
            lemma_string_made(run, state, builder, text@, from);
        },
        Datum::Symbol(text) => {
            lemma_symbol_made(run, state, builder, text@, from);
        },
        Datum::List { items, tail } => {
            match tail {
                Some(tail) => {
                    let (first, last) = compile_quote_steps(state, builder, *tail)->Ok_0;
                    lemma_quote_grows(state, builder, *tail);
                    lemma_quote_items_grow(first, builder, items@, items@.len(), last);
                    lemma_quote_kind(state, builder, *tail);
                    lemma_quoted_items(run, first, builder, items@, items@.len(), last, from);
                    lemma_quoted(run, state, builder, *tail, from);
                },
                None => {
                    lemma_quoted_items(run, state, builder, items@, items@.len(), Val::Word(Operand::Word(10)), from);
                },
            }
        },
        _ => {},
    }
}

proof fn lemma_quote_kind(state: State, builder: usize, datum: Datum)
    ensures
        compile_quote_steps(state, builder, datum) matches Ok((_, value)) ==> value is Word || value is HeapObject,
    decreases datum, 1nat,
{
    reveal(string_literal_steps);
    reveal(symbol_literal_steps);
    reveal(literal_steps);
    if let Datum::List { items, tail } = datum {
        match tail {
            Some(tail) => {
                lemma_quote_kind(state, builder, *tail);
                if let Ok((first, last)) = compile_quote_steps(state, builder, *tail) {
                    lemma_quote_items_kind(first, builder, items@, items@.len(), last);
                }
            },
            None => {
                lemma_quote_items_kind(state, builder, items@, items@.len(), Val::Word(Operand::Word(10)));
            },
        }
    }
}

proof fn lemma_quote_items_kind(state: State, builder: usize, items: Seq<Datum>, count: nat, tail: Val)
    requires
        tail is Word || tail is HeapObject,
    ensures
        quote_items_steps(state, builder, items, count, tail) matches Ok((_, value)) ==> value is Word
            || value is HeapObject,
    decreases items, count,
{
    if 0 < count <= items.len() {
        if let Ok((first, car)) = compile_quote_steps(state, builder, items[count - 1]) {
            let (second, car_word) = value_to_word_steps(first, builder, car);
            let (third, cdr_word) = value_to_word_steps(second, builder, tail);
            let (fourth, ptr) = alloc_pair_rooted_steps(third, builder, car_word, cdr_word);
            let next = Val::HeapObject { ptr, kind: HeapValueKind::Pair };
            lemma_quote_items_kind(fourth, builder, items, (count - 1) as nat, next);
        }
    }
}

proof fn lemma_quote_grows(state: State, builder: usize, datum: Datum)
    ensures
        compile_quote_steps(state, builder, datum) matches Ok((after, _)) ==> state.trace.len() <= after.trace.len()
            && continues(state.trace, after.trace),
{
    lemma_slots_compile_quote(state, builder, datum, 0);
}

proof fn lemma_quote_items_grow(state: State, builder: usize, items: Seq<Datum>, count: nat, tail: Val)
    ensures
        quote_items_steps(state, builder, items, count, tail) matches Ok((after, _)) ==> state.trace.len()
            <= after.trace.len() && continues(state.trace, after.trace),
{
    lemma_slots_quote_items(state, builder, items, count, tail, 0);
}

proof fn lemma_quoted_items(run: Run, state: State, builder: usize, items: Seq<Datum>, count: nat, tail: Val, from: int)
    requires
        quote_items_steps(state, builder, items, count, tail) matches Ok((after, _)) && is_run(run, after.trace, from)
            && after.trace.len() <= usize::MAX,
        0 <= from <= state.trace.len(),
        keeps_new_slots(run, state.trace),
        usize::MAX == u64::MAX,
        tail is Word || tail is HeapObject,
    ensures
        is_run(run, state.trace, from),
        quote_items_steps(state, builder, items, count, tail) matches Ok((after, value)) && held_word(run, value)
            == data_before(run, items, count, held_word(run, tail)) && (value is Word || value is HeapObject),
    decreases items, count,
{
    broadcast use {group_continues, lemma_slots_value_to_word, lemma_pair_leaves_no_slot};

    if 0 < count <= items.len() {
        assert(counted(0));
        let less = (count - 1) as nat;
        let (first, car) = compile_quote_steps(state, builder, items[count - 1])->Ok_0;
        lemma_quote_grows(state, builder, items[count - 1]);
        lemma_quote_kind(state, builder, items[count - 1]);
        let (second, car_word) = value_to_word_steps(first, builder, car);
        let (third, cdr_word) = value_to_word_steps(second, builder, tail);
        let (fourth, ptr) = alloc_pair_rooted_steps(third, builder, car_word, cdr_word);
        let next = Val::HeapObject { ptr, kind: HeapValueKind::Pair };
        assert(first.trace.len() <= second.trace.len() <= third.trace.len() <= fourth.trace.len());
        lemma_quote_items_grow(fourth, builder, items, less, next);
        lemma_quoted_items(run, fourth, builder, items, less, next, from);
        lemma_pair_computed(run, third, builder, car_word, cdr_word, from);
        lemma_to_word(run, second, builder, tail, from);
        lemma_to_word(run, first, builder, car, from);
        lemma_quoted(run, state, builder, items[count - 1], from);
    }
}

/// Whether the code of an expression leaves the procedure that is called.
pub open spec fn is_called(run: Run, builder: usize, function: FunctionRef, env: Env, expr: Expr, called: Val) -> bool {
    exists|state: State|
        (#[trigger] compile_expr_steps(state, builder, function, env, expr)) matches Ok((_, value)) && (called == value
            || (called is Closure && held_word(run, called) == held_word(run, value)))
}

/// Whether the arguments of a call have words: as far as the procedure has parameters in the form that it
/// asks for, and all others as words.
pub open spec fn are_passed(
    run: Run,
    builder: usize,
    function: FunctionRef,
    env: Env,
    signature: Signature,
    args: Seq<Expr>,
    words: Seq<int>,
) -> bool {
    &&& words.len() == args.len()
    &&& forall|i: int|
        0 <= i < args.len() && i < signature.params.len() ==> is_passed(
            run,
            builder,
            function,
            env,
            #[trigger] args[i],
            signature.params[i],
            words[i],
        )
    &&& forall|i: int|
        signature.params.len() <= i < args.len() ==> is_left(run, builder, function, env, #[trigger] args[i], words[i])
}

/// The arguments of a call are those of its expressions, in their order.
pub proof fn lemma_call_args(
    run: Run,
    state: State,
    builder: usize,
    function: FunctionRef,
    env: Env,
    signature: Signature,
    args: Seq<Expr>,
    from: int,
) -> (words: Seq<int>)
    requires
        call_args_steps(state, builder, function, env, signature, args) matches Ok((after, _)) && is_run(
            run,
            after.trace,
            from,
        ) && after.trace.len() <= usize::MAX,
        0 <= from <= state.trace.len(),
        keeps_new_slots(run, state.trace),
    ensures
        are_passed(run, builder, function, env, signature, args, words),
        call_args_steps(state, builder, function, env, signature, args) matches Ok((after, given)) && arguments_list(
            run,
            signature,
            argument_values(run, given),
        ) == list_before(run, words, 10),
{
    broadcast use group_continues;

    let required = signature.params.len();
    let context = "procedure.argument"@;
    let (after, given) = call_args_steps(state, builder, function, env, signature, args)->Ok_0;
    let (first, direct) = direct_args_steps(
        state,
        builder,
        function,
        env,
        args,
        0,
        signature.params,
        required,
        context,
    )->Ok_0;
    lemma_slots_direct_args(state, builder, function, env, args, 0, signature.params, required, context, 0);
    lemma_run_literals(run, after.trace, from);
    let firsts = argument_values(run, direct);
    if signature.rest {
        let nil = Operand::Word(10);
        let (second, rest) = list_value_steps(first, builder, function, env, args, required, args.len(), nil)->Ok_0;
        lemma_slots_list_value(first, builder, function, env, args, required, args.len(), nil, 0);
        let others = lemma_further_args(run, first, builder, function, env, args, required, args.len(), nil, from);
        lemma_run_start(run, first.trace, second.trace, from);
        lemma_direct_args(run, state, builder, function, env, args, 0, signature.params, required, context, from);
        let words = firsts + others;
        let held = argument_values(run, given);
        assert(held.drop_last() =~= firsts);
        assert(held.last() == (run.values)(rest));
        lemma_lists_joined(run, firsts, others, 10);
        assert forall|i: int| 0 <= i < args.len() && i < signature.params.len() implies is_passed(
            run,
            builder,
            function,
            env,
            #[trigger] args[i],
            signature.params[i],
            words[i],
        ) by {
            assert(words[i] == argument_word(run, direct[i]));
            assert(args[0 + i] == args[i]);
        }
        let part = args.subrange(required as int, args.len() as int);
        assert forall|i: int| signature.params.len() <= i < args.len() implies is_left(
            run,
            builder,
            function,
            env,
            #[trigger] args[i],
            words[i],
        ) by {
            assert(part[i - required] == args[i]);
            assert(words[i] == others[i - required]);
        }
        words
    } else {
        lemma_direct_args(run, state, builder, function, env, args, 0, signature.params, required, context, from);
        assert forall|i: int| 0 <= i < args.len() && i < signature.params.len() implies is_passed(
            run,
            builder,
            function,
            env,
            #[trigger] args[i],
            signature.params[i],
            firsts[i],
        ) by {
            assert(firsts[i] == argument_word(run, direct[i]));
            assert(args[0 + i] == args[i]);
        }
        firsts
    }
}

/// A call of a procedure leaves what the procedure answers to the list of its arguments, in their order.
pub proof fn lemma_procedure_call(
    run: Run,
    state: State,
    builder: usize,
    function: FunctionRef,
    env: Env,
    expr: Expr,
    callee: Expr,
    args: Seq<Expr>,
    from: int,
) -> (result: (Val, Signature, Seq<int>))
    requires
        expr.kind matches ExprKind::Call { callee: head, args: row } && *head == callee && row@ == args,
        calls_builtin(callee, env) is None,
        compile_call_steps(state, builder, function, env, expr) matches Ok((after, _)) && is_run(run, after.trace, from)
            && after.trace.len() <= usize::MAX,
        0 <= from <= state.trace.len(),
        keeps_new_slots(run, state.trace),
    ensures
        is_called(run, builder, function, env, callee, result.0),
        are_passed(run, builder, function, env, result.1, args, result.2),
        compile_call_steps(state, builder, function, env, expr) matches Ok((after, value)) && held_word(run, value)
            == applied(
            run,
            code_and_object(run, result.0).0,
            code_and_object(run, result.0).1,
            list_before(run, result.2, 10),
        ),
{
    broadcast use {group_continues, lemma_run_last, lemma_slots_resolve_callable_value, lemma_call_leaves_no_slot};

    assert(counted(0));
    let (first, value) = compile_expr_steps(state, builder, function, env, callee)->Ok_0;
    lemma_slots_compile_expr(state, builder, function, env, callee, 0);
    let (second, (resolved, signature)) = resolve_callable_value_steps(first, builder, value, args.len())->Ok_0;
    assert(first.trace.len() <= second.trace.len() && continues(first.trace, second.trace));
    let (third, given) = call_args_steps(second, builder, function, env, signature, args)->Ok_0;
    lemma_slots_call_args(second, builder, function, env, signature, args, 0);
    lemma_call_computed(run, third, builder, resolved, signature, given, from);
    let words = lemma_call_args(run, second, builder, function, env, signature, args, from);
    lemma_run_start(run, second.trace, third.trace, from);
    assert(resolved == value || (resolved is Closure && held_word(run, resolved) == held_word(run, value))) by {
        reveal(resolve_callable_value_steps);
        reveal(load_rooted_word_steps);
    }
    assert(is_called(run, builder, function, env, callee, resolved));
    (resolved, signature, words)
}

/// Several values are made of the words of the arguments, in their order.
pub proof fn lemma_rooted_args(
    run: Run,
    state: State,
    builder: usize,
    function: FunctionRef,
    env: Env,
    args: Seq<Expr>,
    count: nat,
    from: int,
)
    requires
        rooted_args_steps(state, builder, function, env, args, count) matches Ok((after, _)) && is_run(
            run,
            after.trace,
            from,
        ) && after.trace.len() <= usize::MAX,
        0 <= from <= state.trace.len(),
        keeps_new_slots(run, state.trace),
        count <= args.len(),
    ensures
        rooted_args_steps(state, builder, function, env, args, count) matches Ok((after, slots)) && are_left(
            run,
            builder,
            function,
            env,
            args.subrange(0, count as int),
            slots.map_values(run.cells),
        ),
    decreases count,
{
    broadcast use {group_continues, lemma_slots_value_to_word, lemma_root_word_leaves_one};

    if count > 0 {
        assert(counted(0));
        let less = (count - 1) as nat;
        let (first, before) = rooted_args_steps(state, builder, function, env, args, less)->Ok_0;
        lemma_slots_rooted_args(state, builder, function, env, args, less, 0);
        let (second, value) = compile_expr_steps(first, builder, function, env, args[count - 1])->Ok_0;
        lemma_slots_compile_expr(first, builder, function, env, args[count - 1], 0);
        let (third, word) = value_to_word_steps(second, builder, value);
        let (fourth, slot) = root_word_steps(third, builder, word);
        assert(first.trace.len() <= third.trace.len() <= fourth.trace.len() && continues(first.trace, third.trace));
        lemma_word_held(run, third, builder, word, from);
        lemma_run_start(run, first.trace, third.trace, from);
        lemma_rooted_args(run, state, builder, function, env, args, less, from);
        assert(word_steps(first, builder, function, env, args[count - 1]) == Ok::<(State, Operand), Seq<char>>(
            (third, word),
        ));
        assert(is_left(run, builder, function, env, args[count - 1], (run.cells)(slot)));
        let part = args.subrange(0, count as int);
        let all = before.push(slot).map_values(run.cells);
        assert forall|i: int| 0 <= i < part.len() implies is_left(
            run,
            builder,
            function,
            env,
            #[trigger] part[i],
            all[i],
        ) by {
            if i < less {
                assert(args.subrange(0, less as int)[i] == part[i]);
                assert(all[i] == before.map_values(run.cells)[i]);
            }
        }
    }
}

/// Words that were kept reachable are copied into a row in their order.
proof fn lemma_copied(run: Run, state: State, builder: usize, slots: Seq<Operand>, elements: Operand, count: nat, from: int)
    requires
        is_run(run, copy_slots_steps(state, builder, slots, elements, count).trace, from),
        0 <= from <= state.trace.len(),
        keeps_new_slots(run, state.trace),
        copy_slots_steps(state, builder, slots, elements, count).trace.len() <= usize::MAX,
        count <= slots.len() <= usize::MAX,
    ensures
        is_run(run, state.trace, from),
        forall|i: int| 0 <= i < count ==> (run.cells)(#[trigger] slots[i]) == (run.fields)((run.values)(elements), i),
    decreases count,
{
    broadcast use {group_continues, lemma_run_last, lemma_slots_copy_slots};

    reveal(copy_slots_steps);
    if count > 0 {
        assert(counted(0));
        reveal(load_rooted_word_steps);
        let less = (count - 1) as nat;
        let first = copy_slots_steps(state, builder, slots, elements, less);
        assert(state.trace.len() <= first.trace.len());
        let (second, word) = load_rooted_word_steps(first, builder, slots[count - 1]);
        let index = (count - 1) as usize;
        let (third, slot) = value_steps(second, Op::ElementPointer { builder, base: elements, skip: 0, index });
        assert(is_run(run, third.trace, from));
        assert(is_run(run, second.trace, from));
        assert(is_run(run, first.trace, from));
        lemma_copied(run, state, builder, slots, elements, less, from);
    }
}

/// `values` hands the runtime as many words as it has arguments, in their order. A single value stands for
/// itself.
pub proof fn lemma_values(run: Run, state: State, builder: usize, function: FunctionRef, env: Env, args: Seq<Expr>, from: int) -> (result: (
    int,
    Seq<int>,
))
    requires
        values_steps(state, builder, function, env, args) matches Ok((after, _)) && is_run(run, after.trace, from)
            && after.trace.len() <= usize::MAX,
        0 <= from <= state.trace.len(),
        keeps_new_slots(run, state.trace),
        1 < args.len() <= usize::MAX,
        usize::MAX == u64::MAX,
    ensures
        are_left(run, builder, function, env, args, result.1),
        forall|i: int| 0 <= i < args.len() ==> #[trigger] result.1[i] == (run.fields)(result.0, i),
        values_steps(state, builder, function, env, args) matches Ok((after, value)) && held_word(run, value) == (
        run.answers)(RuntimeFunction::AllocValues, seq![result.0, args.len() as int]),
{
    broadcast use {group_continues, lemma_run_last, lemma_slots_copy_slots, lemma_popped_slots_forgotten};

    assert(counted(0));
    let (first, slots) = rooted_args_steps(state, builder, function, env, args, args.len())->Ok_0;
    lemma_slots_rooted_args(state, builder, function, env, args, args.len(), 0);
    lemma_rooted_length(state, builder, function, env, args, args.len());
    let (second, elements) = value_steps(first, Op::ArrayAlloca { builder, count: slots.len() as usize });
    let third = copy_slots_steps(second, builder, slots, elements, slots.len());
    assert(second.trace.len() <= third.trace.len());
    let (fourth, pointer) = value_steps(third, Op::PointerCast { builder, value: elements });
    let length = Operand::Word(slots.len() as usize as u64);
    let (fifth, made) = call_steps(fourth, builder, RuntimeFunction::AllocValues, seq![pointer, length]);
    let (after, value) = values_steps(state, builder, function, env, args)->Ok_0;
    assert(after == pop_root_slots_steps(fifth, builder, slots.len()));
    lemma_run_literals(run, after.trace, from);
    lemma_forgotten(run, fifth, builder, slots.len(), from);
    assert(values_of(run, seq![pointer, length]) =~= seq![(run.values)(pointer), args.len() as int]);
    assert(is_run(run, third.trace, from));
    lemma_copied(run, second, builder, slots, elements, slots.len(), from);
    assert(is_run(run, first.trace, from));
    lemma_rooted_args(run, state, builder, function, env, args, args.len(), from);
    assert(args.subrange(0, args.len() as int) =~= args);
    let words = slots.map_values(run.cells);
    assert forall|i: int| 0 <= i < args.len() implies #[trigger] words[i] == (run.fields)((run.values)(elements), i) by {
        assert(words[i] == (run.cells)(slots[i]));
    }
    ((run.values)(elements), words)
}

proof fn lemma_rooted_length(state: State, builder: usize, function: FunctionRef, env: Env, args: Seq<Expr>, count: nat)
    requires
        count <= args.len(),
    ensures
        rooted_args_steps(state, builder, function, env, args, count) matches Ok((_, slots)) ==> slots.len() == count,
    decreases count,
{
    if count > 0 {
        lemma_rooted_length(state, builder, function, env, args, (count - 1) as nat);
    }
}

/// `vector` hands the runtime as many words as it has arguments, in their order.
pub proof fn lemma_vector(run: Run, state: State, builder: usize, function: FunctionRef, env: Env, args: Seq<Expr>, from: int) -> (result: (
    int,
    Seq<int>,
))
    requires
        vector_steps(state, builder, function, env, args) matches Ok((after, _)) && is_run(run, after.trace, from)
            && after.trace.len() <= usize::MAX,
        0 <= from <= state.trace.len(),
        keeps_new_slots(run, state.trace),
        0 < args.len() <= usize::MAX,
        usize::MAX == u64::MAX,
    ensures
        are_left(run, builder, function, env, args, result.1),
        forall|i: int| 0 <= i < args.len() ==> #[trigger] result.1[i] == (run.fields)(result.0, i),
        vector_steps(state, builder, function, env, args) matches Ok((after, value)) && held_word(run, value) == (
        run.answers)(RuntimeFunction::AllocVectorGc, seq![result.0, args.len() as int]),
{
    broadcast use {group_continues, lemma_run_last};

    let (first, elements) = value_steps(state, Op::ArrayAlloca { builder, count: args.len() as usize });
    let (second, _) = vector_elements_steps(first, builder, function, env, args, elements, args.len())->Ok_0;
    lemma_slots_vector_elements(first, builder, function, env, args, elements, args.len(), 0);
    let (third, pointer) = value_steps(second, Op::PointerCast { builder, value: elements });
    let length = Operand::Word(args.len() as usize as u64);
    let (fourth, made) = call_steps(third, builder, RuntimeFunction::AllocVectorGc, seq![pointer, length]);
    lemma_run_literals(run, fourth.trace, from);
    assert(values_of(run, seq![pointer, length]) =~= seq![(run.values)(pointer), args.len() as int]);
    assert(is_run(run, third.trace, from));
    assert(is_run(run, second.trace, from));
    let words = lemma_vector_elements(run, first, builder, function, env, args, elements, args.len(), from);
    assert(args.subrange(0, args.len() as int) =~= args);
    ((run.values)(elements), words)
}

} // verus!
