//! What `map` and `for-each` do with lists: each call gets the elements of the lists at one place, in the
//! order of the lists.
use crate::backend::abi::RuntimeFunction;
use crate::backend::codegen::expression_laws::{lemma_slots_compile_expr, lemma_slots_iteration_lists};
use crate::backend::codegen::laws::{
    counted, lemma_popped_slots_forgotten, lemma_root_word_leaves_one, lemma_rooted_call_leaves_no_slot, lemma_slots_cons_word,
    lemma_slots_fixnum_operand, lemma_slots_iteration_args, lemma_slots_list_of_words, lemma_slots_same_lengths,
    lemma_slots_value_to_word,
};
use crate::backend::codegen::meaning_laws::{agrees, is_calm, lemma_meaning, meaning, Vars};
use crate::backend::codegen::plan::{accepts, compile_expr_steps};
use crate::backend::codegen::plan_builtins::{
    iteration_args_steps, iteration_lists_steps, iteration_loop_steps, same_lengths_steps,
};
use crate::backend::codegen::procedure_laws::{
    applied, argument_values, argument_word, arguments_list, held_word, keeps_new_slots, lemma_cons_computed, lemma_forgotten,
    lemma_list_computed, lemma_rooted_call_computed, lemma_word_held, list_before, pair_of,
};
use crate::backend::codegen::run_laws::{
    integer_in, is_integer_word, is_run, lemma_checked, lemma_integer_taken, lemma_run_last, lemma_run_literals,
    lemma_run_start, lemma_standing, modulus, passes, standing, values_of, wrapped, Run,
};
use crate::backend::codegen::state::{
    binary_steps, block_steps, branch, branch_if, call_steps, compare_steps, position, push_step, value_steps, Argument,
    Env, RootedVal, State, Val,
};
use crate::backend::codegen::values::{
    convert_argument_value_steps, cons_word_steps, emit_callable_call_steps, emit_rooted_callable_call_steps,
    emit_trampoline_call_steps, empty_list_word,
    fixnum_operand_steps, list_of_words_steps, load_rooted_word_steps, pop_root_slots_steps, root_word_steps,
    value_to_word_steps, word_to_codegen_value_steps,
};
use crate::backend::ir::{continues, group_continues, BinaryOp, FunctionRef, Op, Operand, Predicate};
use crate::backend::kinds::{AbiValueKind, Signature};
use crate::middle::hir::Expr;
use vstd::prelude::*;

verus! {

broadcast use vstd::seq_lib::group_seq_properties;

/// The element of the list in a slot.
pub open spec fn element_of(run: Run, slot: Operand, index: Operand) -> int {
    (run.answers)(RuntimeFunction::ListRef, seq![(run.cells)(slot), (run.values)(index)])
}

/// The argument or the further word that a procedure gets from a list.
pub open spec fn given_word(run: Run, direct: Seq<Argument>, extras: Seq<Operand>, j: int) -> int {
    if j < direct.len() {
        argument_word(run, direct[j])
    } else {
        (run.values)(extras[j - direct.len()])
    }
}

/// In each round the procedure gets an element of each list: the argument with a number is the element
/// of the list with that number, at the place of the round.
pub proof fn lemma_elements_given(
    run: Run,
    state: State,
    builder: usize,
    kinds: Seq<AbiValueKind>,
    slots: Seq<Operand>,
    index: Operand,
    count: nat,
    from: int,
)
    requires
        iteration_args_steps(state, builder, kinds, slots, index, count) matches Ok((after, _)) && is_run(
            run,
            after.trace,
            from,
        ),
        0 <= from <= state.trace.len(),
        count <= slots.len(),
    ensures
        iteration_args_steps(state, builder, kinds, slots, index, count) matches Ok((after, (direct, extras))) && {
            &&& passes(run, state, after, builder)
            &&& direct.len() == (if count < kinds.len() { count } else { kinds.len() })
            &&& direct.len() + extras.len() == count
            &&& forall|j: int|
                0 <= j < count ==> #[trigger] given_word(run, direct, extras, j) == element_of(run, slots[j], index)
        },
    decreases count,
{
    broadcast use {group_continues, lemma_run_last, lemma_standing, lemma_slots_iteration_args};

    reveal(iteration_args_steps);
    if count > 0 {
        let less = (count - 1) as nat;
        let (first, (direct, extras)) = iteration_args_steps(state, builder, kinds, slots, index, less)->Ok_0;
        let (after, (all_direct, all_extras)) = iteration_args_steps(state, builder, kinds, slots, index, count)->Ok_0;
        assert(counted(0));
        assert(state.trace.len() <= first.trace.len() && continues(state.trace, first.trace));
        lemma_run_literals(run, after.trace, from);
        let slot = slots[count - 1];
        let (second, list) = load_rooted_word_steps(first, builder, slot);
        let (third, element) = call_steps(second, builder, RuntimeFunction::ListRef, seq![list, index]);
        assert(values_of(run, seq![list, index]) =~= seq![(run.values)(list), (run.values)(index)]);
        reveal(load_rooted_word_steps);
        reveal(word_to_codegen_value_steps);
        reveal(convert_argument_value_steps);
        reveal(value_to_word_steps);
        assert(is_run(run, third.trace, from));
        lemma_elements_given(run, state, builder, kinds, slots, index, less, from);
        assert forall|j: int| 0 <= j < count implies #[trigger] given_word(run, all_direct, all_extras, j) == element_of(
            run,
            slots[j],
            index,
        ) by {
            if j < less {
                assert(given_word(run, direct, extras, j) == element_of(run, slots[j], index));
            }
        }
    }
}

/// The elements of the lists in slots at a place.
pub open spec fn elements_at(run: Run, slots: Seq<Operand>, place: int) -> Seq<int> {
    slots.map_values(|slot: Operand| (run.answers)(RuntimeFunction::ListRef, seq![(run.cells)(slot), place]))
}

/// What the procedure answers to the elements of the lists at a place, in the order of the lists.
pub open spec fn answer_at(run: Run, callable: RootedVal, slots: Seq<Operand>, place: int) -> int {
    let list = list_before(run, elements_at(run, slots, place), 10);
    match callable {
        RootedVal::Function(info) => applied(
            run,
            (run.values)(Operand::Address(FunctionRef::Defined(info.wrapper))),
            0,
            list,
        ),
        RootedVal::Closure { slot, signature: _ } => applied(
            run,
            (run.fields)((run.cells)(slot), 2),
            (run.cells)(slot),
            list,
        ),
    }
}

/// Whether the two slots that a loop counts and collects in are those that change.
pub open spec fn only_change(run: Run, index_slot: Operand, result_slot: Operand) -> bool {
    forall|slot: Operand| #[trigger] (run.changes)(slot) <==> slot == index_slot || slot == result_slot
}

/// Whether all lengths are the first.
pub open spec fn same_values(run: Run, lengths: Seq<Operand>, count: int) -> bool {
    forall|i: int| 0 <= i < count ==> (run.values)(#[trigger] lengths[i]) == (run.values)(lengths[0])
}

/// Whether a loop is entered where the lists are equally long: it counts from zero, and collects from the
/// empty list on.
pub open spec fn is_entered(
    run: Run,
    before: State,
    head: State,
    builder: usize,
    lengths: Seq<Operand>,
    index_slot: Operand,
    result_slot: Operand,
    collect: bool,
) -> bool {
    &&& (run.later)(index_slot) == 0
    &&& collect ==> (run.later)(result_slot) == 10
    &&& same_values(run, lengths, lengths.len() as int) ==> passes(run, before, head, builder)
}

/// Whether a round of a loop does what it should. As long as the count is less than the length of the
/// lists, the answer of the procedure to the elements at the count is put in front of what was collected,
/// and the count goes up by one. In the end what was collected is turned round.
pub open spec fn is_round(
    run: Run,
    after: State,
    builder: usize,
    callable: RootedVal,
    slots: Seq<Operand>,
    lengths: Seq<Operand>,
    index_slot: Operand,
    result_slot: Operand,
    collect: bool,
    value: Val,
) -> bool {
    &&& (run.later)(index_slot) == wrapped((run.cells)(index_slot) + 1)
    &&& collect ==> (run.later)(result_slot) == pair_of(
        run,
        answer_at(run, callable, slots, (run.cells)(index_slot)),
        (run.cells)(result_slot),
    )
    &&& (run.cells)(index_slot) >= (run.values)(lengths[0]) ==> (run.reached)(standing(after.trace, builder))
    &&& held_word(run, value) == (if collect {
        (run.answers)(RuntimeFunction::Reverse, seq![(run.cells)(result_slot)])
    } else {
        14
    })
}

/// The state at the start of a round, with the slots that the loop counts and collects in.
spec fn loop_head(state: State, builder: usize, function: FunctionRef, lengths: Seq<Operand>, collect: bool) -> (
    State,
    Operand,
    Operand,
    usize,
    usize,
    usize,
) {
    let state = same_lengths_steps(state, builder, function, lengths, lengths.len());
    let (state, index_slot) = value_steps(state, Op::Alloca { builder });
    let state = push_step(state, Op::Store { builder, slot: index_slot, value: Operand::Word(0) });
    let (state, result_slot) = if collect {
        root_word_steps(state, builder, empty_list_word())
    } else {
        (state, Operand::NullRaw)
    };
    let (state, cond_block) = block_steps(state, function);
    let (state, body_block) = block_steps(state, function);
    let (state, step_block) = block_steps(state, function);
    let (state, done_block) = block_steps(state, function);
    let state = branch(state, builder, cond_block);
    (position(state, builder, cond_block), index_slot, result_slot, body_block, step_block, done_block)
}

/// Code goes on behind the check of the lengths where they are equal.
proof fn lemma_lengths_checked(
    run: Run,
    state: State,
    builder: usize,
    function: FunctionRef,
    lengths: Seq<Operand>,
    count: nat,
    from: int,
)
    requires
        is_run(run, same_lengths_steps(state, builder, function, lengths, count).trace, from),
        0 <= from <= state.trace.len(),
        count <= lengths.len(),
    ensures
        is_run(run, state.trace, from),
        same_values(run, lengths, count as int) ==> passes(
            run,
            state,
            same_lengths_steps(state, builder, function, lengths, count),
            builder,
        ),
    decreases count,
{
    broadcast use {lemma_run_last, lemma_standing, lemma_slots_same_lengths};

    reveal(same_lengths_steps);
    if count > 1 {
        assert(counted(0));
        let before = same_lengths_steps(state, builder, function, lengths, (count - 1) as nat);
        assert(state.trace.len() <= before.trace.len());
        let (compared, same) = compare_steps(before, builder, Predicate::Equal, lengths[0], lengths[count - 1]);
        lemma_checked(run, compared, builder, function, same, from);
        lemma_lengths_checked(run, state, builder, function, lengths, (count - 1) as nat, from);
    }
}

/// The loop of `map` and `for-each` is entered with a count of zero and, where it collects, the empty list.
proof fn lemma_entered(
    run: Run,
    state: State,
    builder: usize,
    function: FunctionRef,
    lengths: Seq<Operand>,
    collect: bool,
    from: int,
)
    requires
        is_run(run, loop_head(state, builder, function, lengths, collect).0.trace, from),
        0 <= from <= state.trace.len(),
        only_change(
            run,
            loop_head(state, builder, function, lengths, collect).1,
            loop_head(state, builder, function, lengths, collect).2,
        ),
    ensures
        is_entered(
            run,
            state,
            loop_head(state, builder, function, lengths, collect).0,
            builder,
            lengths,
            loop_head(state, builder, function, lengths, collect).1,
            loop_head(state, builder, function, lengths, collect).2,
            collect,
        ),
{
    broadcast use {lemma_run_last, lemma_standing, lemma_slots_same_lengths};

    let (head, index_slot, result_slot, _, _, _) = loop_head(state, builder, function, lengths, collect);
    lemma_run_literals(run, head.trace, from);
    let first = same_lengths_steps(state, builder, function, lengths, lengths.len());
    assert(counted(0));
    assert(state.trace.len() <= first.trace.len());
    reveal(root_word_steps);
    assert(is_run(run, first.trace, from));
    lemma_lengths_checked(run, state, builder, function, lengths, lengths.len(), from);
}

/// The arguments of a round are the elements of the lists.
proof fn lemma_round_arguments(
    run: Run,
    direct: Seq<Argument>,
    extras: Seq<Operand>,
    args: Seq<Argument>,
    signature: Signature,
    slots: Seq<Operand>,
    index: Operand,
    rest: Operand,
)
    requires
        accepts(signature, slots.len()),
        direct.len() == (if slots.len() < signature.params.len() {
            slots.len()
        } else {
            signature.params.len()
        }),
        direct.len() + extras.len() == slots.len(),
        forall|j: int|
            0 <= j < slots.len() ==> #[trigger] given_word(run, direct, extras, j) == element_of(run, slots[j], index),
        signature.rest ==> args == direct.push(Argument::Int(rest)) && (run.values)(rest) == list_before(
            run,
            values_of(run, extras),
            10,
        ),
        !signature.rest ==> args == direct,
    ensures
        arguments_list(run, signature, argument_values(run, args)) == list_before(
            run,
            elements_at(run, slots, (run.values)(index)),
            10,
        ),
{
    let held = argument_values(run, args);
    let elements = elements_at(run, slots, (run.values)(index));
    if signature.rest {
        let firsts = held.drop_last();
        assert(held.last() == (run.values)(rest));
        assert(elements =~= firsts + values_of(run, extras)) by {
            assert forall|j: int| 0 <= j < slots.len() implies elements[j] == (firsts + values_of(run, extras))[j] by {
                assert(given_word(run, direct, extras, j) == element_of(run, slots[j], index));
            }
        }
        lemma_lists_joined(run, firsts, values_of(run, extras), 10);
    } else {
        assert(held =~= elements) by {
            assert forall|j: int| 0 <= j < slots.len() implies held[j] == elements[j] by {
                assert(given_word(run, direct, extras, j) == element_of(run, slots[j], index));
            }
        }
    }
}

/// A list of words in front of a list of words is the list of all.
pub(crate) proof fn lemma_lists_joined(run: Run, first: Seq<int>, second: Seq<int>, tail: int)
    ensures
        list_before(run, first, list_before(run, second, tail)) == list_before(run, first + second, tail),
    decreases first.len(),
{
    if first.len() == 0 {
        assert(first + second =~= second);
    } else {
        assert((first + second).skip(1) =~= first.skip(1) + second);
        lemma_lists_joined(run, first.skip(1), second, tail);
    }
}

/// A round of the loop of `map` and `for-each`.
#[verifier::rlimit(60)]
proof fn lemma_round(
    run: Run,
    state: State,
    builder: usize,
    function: FunctionRef,
    callable: RootedVal,
    signature: Signature,
    slots: Seq<Operand>,
    lengths: Seq<Operand>,
    collect: bool,
)
    requires
        iteration_loop_steps(state, builder, function, callable, signature, slots, lengths, collect) matches Ok(
            (after, _),
        ) && is_run(run, after.trace, loop_head(state, builder, function, lengths, collect).0.trace.len() as int)
            && after.trace.len() <= usize::MAX,
        only_change(
            run,
            loop_head(state, builder, function, lengths, collect).1,
            loop_head(state, builder, function, lengths, collect).2,
        ),
        (run.reached)(standing(loop_head(state, builder, function, lengths, collect).0.trace, builder)),
        accepts(signature, slots.len()),
        callable matches RootedVal::Closure { slot, signature: own } ==> own == signature,
    ensures
        iteration_loop_steps(state, builder, function, callable, signature, slots, lengths, collect) matches Ok(
            (after, value),
        ) && is_round(
            run,
            after,
            builder,
            callable,
            slots,
            lengths,
            loop_head(state, builder, function, lengths, collect).1,
            loop_head(state, builder, function, lengths, collect).2,
            collect,
            value,
        ),
{
    broadcast use {
        lemma_run_last,
        lemma_standing,
        lemma_slots_iteration_args,
        lemma_slots_list_of_words,
        lemma_rooted_call_leaves_no_slot,
        lemma_slots_value_to_word,
        lemma_slots_cons_word,
        lemma_popped_slots_forgotten,
        group_continues,
    };

    assert(counted(0));
    reveal(iteration_loop_steps);
    let (after, value) = iteration_loop_steps(
        state,
        builder,
        function,
        callable,
        signature,
        slots,
        lengths,
        collect,
    )->Ok_0;
    let (head, index_slot, result_slot, body_block, step_block, done_block) = loop_head(
        state,
        builder,
        function,
        lengths,
        collect,
    );
    let from = head.trace.len() as int;
    lemma_run_literals(run, after.trace, from);
    let cond_block = standing(head.trace, builder);
    let (loaded, index) = load_rooted_word_steps(head, builder, index_slot);
    let (compared, keep_going) = compare_steps(loaded, builder, Predicate::UnsignedLess, index, lengths[0]);
    let branched = branch_if(compared, builder, keep_going, body_block, done_block);
    let body = position(branched, builder, body_block);
    assert(from < loaded.trace.len() && index_slot != result_slot) by {
        reveal(load_rooted_word_steps);
        reveal(root_word_steps);
    }
    assert(iteration_args_steps(body, builder, signature.params, slots, index, slots.len()) is Ok);
    let (given, (direct, extras)) = iteration_args_steps(
        body,
        builder,
        signature.params,
        slots,
        index,
        slots.len(),
    )->Ok_0;
    assert(body.trace.len() <= given.trace.len());
    let (rested, rest) = list_of_words_steps(given, builder, extras);
    let (ready, args) = if signature.rest {
        (rested, direct.push(Argument::Int(rest)))
    } else {
        (given, direct)
    };
    assert(given.trace.len() <= ready.trace.len());
    let (called, answer) = emit_rooted_callable_call_steps(ready, builder, callable, signature, args)->Ok_0;
    assert(ready.trace.len() <= called.trace.len());
    let (worded, item) = value_to_word_steps(called, builder, answer);
    let (current_state, current) = load_rooted_word_steps(worded, builder, result_slot);
    let (consed, list) = cons_word_steps(current_state, builder, item, current);
    let stored = if collect {
        push_step(consed, Op::Store { builder, slot: result_slot, value: list })
    } else {
        called
    };
    let stepping = position(branch(stored, builder, step_block), builder, step_block);
    let (added, next) = binary_steps(stepping, builder, BinaryOp::Plus, index, Operand::Word(1));
    let counted_up = push_step(added, Op::Store { builder, slot: index_slot, value: next });
    let done = position(branch(counted_up, builder, cond_block), builder, done_block);
    let (reversed_state, reversed) = load_rooted_word_steps(done, builder, result_slot);
    let (turned, result) = call_steps(reversed_state, builder, RuntimeFunction::Reverse, seq![reversed]);
    let (finished, left) = if collect {
        (turned, result)
    } else {
        (done, Operand::Word(14))
    };
    let first_popped = if collect {
        pop_root_slots_steps(finished, builder, 1)
    } else {
        finished
    };
    let second_popped = pop_root_slots_steps(first_popped, builder, slots.len());
    assert(value == Val::Word(left));
    assert(after == if callable is Closure {
        pop_root_slots_steps(second_popped, builder, 1)
    } else {
        second_popped
    });
    assert(current_state.trace.len() == worded.trace.len() + 1 && reversed_state.trace.len() == done.trace.len() + 1) by {
        reveal(load_rooted_word_steps);
    }
    assert(called.trace.len() <= worded.trace.len() && current_state.trace.len() <= consed.trace.len());
    assert(done.trace.len() <= finished.trace.len() <= first_popped.trace.len() <= second_popped.trace.len());
    if callable is Closure {
        lemma_forgotten(run, second_popped, builder, 1, from);
    }
    lemma_forgotten(run, first_popped, builder, slots.len(), from);
    if collect {
        lemma_forgotten(run, finished, builder, 1, from);
    }
    assert(is_run(run, done.trace, from) && (collect ==> (run.values)(result) == (run.answers)(
        RuntimeFunction::Reverse,
        seq![(run.cells)(result_slot)],
    ))) by {
        reveal(load_rooted_word_steps);
        assert(values_of(run, seq![reversed]) =~= seq![(run.values)(reversed)]);
    }
    assert(is_run(run, counted_up.trace, from));
    assert(is_run(run, added.trace, from));
    assert(is_run(run, stepping.trace, from));
    assert(is_run(run, stored.trace, from));
    assert(keeps_new_slots(run, head.trace)) by {
        reveal(root_word_steps);
    }
    if collect {
        assert(is_run(run, consed.trace, from));
        lemma_cons_computed(run, current_state, builder, item, current, from);
        assert(is_run(run, worded.trace, from) && (run.values)(current) == (run.cells)(result_slot)) by {
            reveal(load_rooted_word_steps);
        }
        lemma_answer_kind(ready, builder, callable, signature, args);
        lemma_answer_word(run, called, builder, answer, from);
    }
    assert(is_run(run, called.trace, from));
    lemma_rooted_call_computed(run, ready, builder, callable, signature, args, from);
    if signature.rest {
        reveal(list_of_words_steps);
        lemma_list_computed(run, given, builder, extras, extras.len(), Operand::Word(10), from);
        assert(extras.subrange(0, extras.len() as int) =~= extras);
    }
    assert(is_run(run, given.trace, from));
    lemma_elements_given(run, body, builder, signature.params, slots, index, slots.len(), from);
    lemma_round_arguments(run, direct, extras, args, signature, slots, index, rest);
    assert(continues(body.trace, given.trace));
    lemma_run_start(run, body.trace, given.trace, from);
    assert(is_run(run, branched.trace, from));
    assert(is_run(run, compared.trace, from));
    assert(is_run(run, loaded.trace, from) && (run.values)(index) == (run.cells)(index_slot)) by {
        reveal(load_rooted_word_steps);
    }
    assert((run.later)(index_slot) == wrapped((run.cells)(index_slot) + 1));
    assert(collect ==> (run.later)(result_slot) == (run.values)(list));
    assert(collect ==> (run.values)(item) == answer_at(run, callable, slots, (run.cells)(index_slot)));
    assert(standing(loaded.trace, builder) == cond_block) by {
        reveal(load_rooted_word_steps);
    }
    assert((run.cells)(index_slot) >= (run.values)(lengths[0]) ==> (run.reached)(done_block));
    assert(standing(done.trace, builder) == done_block);
    assert(standing(finished.trace, builder) == done_block) by {
        reveal(load_rooted_word_steps);
    }
    assert(passes(run, finished, after, builder));
}

/// A call leaves a word or a heap object.
proof fn lemma_answer_kind(state: State, builder: usize, callee: RootedVal, signature: Signature, args: Seq<Argument>)
    ensures
        emit_rooted_callable_call_steps(state, builder, callee, signature, args) matches Ok((_, value)) ==> value is Word
            || value is HeapObject,
{
    reveal(emit_rooted_callable_call_steps);
    reveal(emit_callable_call_steps);
    reveal(emit_trampoline_call_steps);
    reveal(word_to_codegen_value_steps);
}

/// What a call left becomes the word of its answer.
proof fn lemma_answer_word(run: Run, state: State, builder: usize, value: Val, from: int)
    requires
        is_run(run, value_to_word_steps(state, builder, value).0.trace, from),
        0 <= from <= state.trace.len(),
        value is Word || value is HeapObject || value is Closure,
    ensures
        is_run(run, state.trace, from),
        passes(run, state, value_to_word_steps(state, builder, value).0, builder),
        (run.values)(value_to_word_steps(state, builder, value).1) == held_word(run, value),
{
    broadcast use {lemma_run_last, lemma_standing};

    reveal(value_to_word_steps);
}

/// Whether code is a loop over lists, with its head and the slots that it counts and collects in.
pub open spec fn is_loop(
    before: State,
    head: State,
    after: State,
    builder: usize,
    callable: RootedVal,
    slots: Seq<Operand>,
    lengths: Seq<Operand>,
    index_slot: Operand,
    result_slot: Operand,
    collect: bool,
    value: Val,
) -> bool {
    &&& index_slot != result_slot
    &&& before.trace.len() <= head.trace.len()
    &&& forall|run: Run, from: int| #[trigger]
        is_run(run, head.trace, from) && 0 <= from <= before.trace.len() && only_change(run, index_slot, result_slot)
            ==> is_entered(run, before, head, builder, lengths, index_slot, result_slot, collect)
    &&& forall|run: Run| #[trigger]
        is_run(run, after.trace, head.trace.len() as int) && only_change(run, index_slot, result_slot) && (run.reached)(
            standing(head.trace, builder),
        ) ==> is_round(run, after, builder, callable, slots, lengths, index_slot, result_slot, collect, value)
}

/// The code of `map` and `for-each` is a loop: it is entered with a count of zero, and in each round the
/// procedure is called with the elements of the lists at the count, in the order of the lists.
pub proof fn lemma_iteration(
    state: State,
    builder: usize,
    function: FunctionRef,
    callable: RootedVal,
    signature: Signature,
    slots: Seq<Operand>,
    lengths: Seq<Operand>,
    collect: bool,
)
    requires
        iteration_loop_steps(state, builder, function, callable, signature, slots, lengths, collect) matches Ok(
            (after, _),
        ) && after.trace.len() <= usize::MAX,
        accepts(signature, slots.len()),
        callable matches RootedVal::Closure { slot, signature: own } ==> own == signature,
    ensures
        iteration_loop_steps(state, builder, function, callable, signature, slots, lengths, collect) matches Ok(
            (after, value),
        ) && exists|head: State, index_slot: Operand, result_slot: Operand| #[trigger]
            is_loop(
                state,
                head,
                after,
                builder,
                callable,
                slots,
                lengths,
                index_slot,
                result_slot,
                collect,
                value,
            ),
{
    broadcast use lemma_slots_same_lengths;

    let (after, value) = iteration_loop_steps(
        state,
        builder,
        function,
        callable,
        signature,
        slots,
        lengths,
        collect,
    )->Ok_0;
    let (head, index_slot, result_slot, _, _, _) = loop_head(state, builder, function, lengths, collect);
    assert(counted(0));
    let checked = same_lengths_steps(state, builder, function, lengths, lengths.len());
    assert(state.trace.len() <= checked.trace.len());
    lemma_loop_grows(state, builder, function, callable, signature, slots, lengths, collect);
    assert(index_slot != result_slot && state.trace.len() <= head.trace.len()) by {
        reveal(root_word_steps);
    }
    assert forall|run: Run, from: int| #[trigger]
        is_run(run, head.trace, from) && 0 <= from <= state.trace.len() && only_change(
            run,
            index_slot,
            result_slot,
        ) implies is_entered(run, state, head, builder, lengths, index_slot, result_slot, collect) by {
        lemma_entered(run, state, builder, function, lengths, collect, from);
    }
    assert forall|run: Run| #[trigger]
        is_run(run, after.trace, head.trace.len() as int) && only_change(run, index_slot, result_slot) && (run.reached)(
            standing(head.trace, builder),
        ) implies is_round(
        run,
        after,
        builder,
        callable,
        slots,
        lengths,
        index_slot,
        result_slot,
        collect,
        value,
    ) by {
        lemma_round(run, state, builder, function, callable, signature, slots, lengths, collect);
    }
    assert(is_loop(
        state,
        head,
        after,
        builder,
        callable,
        slots,
        lengths,
        index_slot,
        result_slot,
        collect,
        value,
    ));
}

proof fn lemma_loop_grows(
    state: State,
    builder: usize,
    function: FunctionRef,
    callable: RootedVal,
    signature: Signature,
    slots: Seq<Operand>,
    lengths: Seq<Operand>,
    collect: bool,
)
    ensures
        iteration_loop_steps(state, builder, function, callable, signature, slots, lengths, collect) matches Ok((after, _))
            ==> loop_head(state, builder, function, lengths, collect).0.trace.len() <= after.trace.len(),
{
    broadcast use {
        lemma_slots_iteration_args,
        lemma_slots_list_of_words,
        lemma_rooted_call_leaves_no_slot,
        lemma_slots_value_to_word,
        lemma_slots_cons_word,
        lemma_popped_slots_forgotten,
    };

    assert(counted(0));
    reveal(iteration_loop_steps);
    reveal(load_rooted_word_steps);
}

/// What the answers of a procedure are collected to: the first answers of a row, the last in front.
pub open spec fn collected(run: Run, callable: RootedVal, slots: Seq<Operand>, count: nat) -> int
    decreases count,
{
    if count == 0 {
        10
    } else {
        let before = (count - 1) as nat;
        pair_of(run, answer_at(run, callable, slots, before as int), collected(run, callable, slots, before))
    }
}

/// Whether one run follows another: the slots that change hold what the other left, and the rest is as it
/// was.
pub open spec fn follows(earlier: Run, run: Run, index_slot: Operand, result_slot: Operand) -> bool {
    &&& run.answers == earlier.answers
    &&& run.fields == earlier.fields
    &&& forall|slot: Operand| slot != index_slot && slot != result_slot ==> #[trigger] (run.cells)(slot)
        == (earlier.cells)(slot)
    &&& (run.cells)(index_slot) == (earlier.later)(index_slot)
    &&& (run.cells)(result_slot) == (earlier.later)(result_slot)
    &&& forall|function: FunctionRef| #[trigger] (run.values)(Operand::Address(function)) == (earlier.values)(
        Operand::Address(function),
    )
}

/// Whether a run is the round with a number of a loop: it starts at the head, and follows the round before
/// it or, as the first, the entry.
pub open spec fn is_round_of(
    rounds: Seq<Run>,
    k: int,
    entry: Run,
    head: State,
    after: State,
    builder: usize,
    lengths: Seq<Operand>,
    index_slot: Operand,
    result_slot: Operand,
) -> bool {
    &&& is_run(rounds[k], after.trace, head.trace.len() as int)
    &&& only_change(rounds[k], index_slot, result_slot)
    &&& (rounds[k].reached)(standing(head.trace, builder))
    &&& (rounds[k].values)(lengths[0]) == (entry.values)(lengths[0])
    &&& follows(
        if k == 0 {
            entry
        } else {
            rounds[k - 1]
        },
        rounds[k],
        index_slot,
        result_slot,
    )
}

/// Whether runs are the rounds of a loop, one behind the other.
pub open spec fn are_rounds(
    rounds: Seq<Run>,
    entry: Run,
    head: State,
    after: State,
    builder: usize,
    lengths: Seq<Operand>,
    index_slot: Operand,
    result_slot: Operand,
) -> bool {
    forall|k: int|
        0 <= k < rounds.len() ==> #[trigger] is_round_of(
            rounds,
            k,
            entry,
            head,
            after,
            builder,
            lengths,
            index_slot,
            result_slot,
        )
}

proof fn lemma_same_list(first: Run, second: Run, words: Seq<int>, tail: int)
    requires
        first.answers == second.answers,
    ensures
        list_before(first, words, tail) == list_before(second, words, tail),
    decreases words.len(),
{
    if words.len() > 0 {
        lemma_same_list(first, second, words.skip(1), tail);
    }
}

/// `map` leaves the reverse of what the answers of the procedure were collected to: where the lists have a
/// length, the answers to the elements at all places below it, the last in front. So the list that it
/// leaves holds at each place the answer to the elements of the lists at that place.
pub proof fn lemma_mapped(
    before: State,
    head: State,
    after: State,
    builder: usize,
    callable: RootedVal,
    slots: Seq<Operand>,
    lengths: Seq<Operand>,
    index_slot: Operand,
    result_slot: Operand,
    value: Val,
    entry: Run,
    rounds: Seq<Run>,
    from: int,
)
    requires
        is_loop(
            before,
            head,
            after,
            builder,
            callable,
            slots,
            lengths,
            index_slot,
            result_slot,
            true,
            value,
        ),
        is_run(entry, head.trace, from),
        0 <= from <= before.trace.len(),
        only_change(entry, index_slot, result_slot),
        are_rounds(rounds, entry, head, after, builder, lengths, index_slot, result_slot),
        rounds.len() == (entry.values)(lengths[0]) + 1,
        forall|j: int| 0 <= j < slots.len() ==> #[trigger] slots[j] != index_slot && slots[j] != result_slot,
        callable matches RootedVal::Closure { slot, signature: _ } ==> slot != index_slot && slot != result_slot,
    ensures
        (rounds.last().reached)(standing(after.trace, builder)),
        held_word(rounds.last(), value) == (entry.answers)(
            RuntimeFunction::Reverse,
            seq![collected(entry, callable, slots, (entry.values)(lengths[0]) as nat)],
        ),
{
    let count = (entry.values)(lengths[0]);
    lemma_run_literals(entry, head.trace, from);
    assert(is_entered(entry, before, head, builder, lengths, index_slot, result_slot, true));
    lemma_rounds_counted(
        before,
        head,
        after,
        builder,
        callable,
        slots,
        lengths,
        index_slot,
        result_slot,
        value,
        entry,
        rounds,
        count as nat,
    );
    assert(is_round_of(rounds, count, entry, head, after, builder, lengths, index_slot, result_slot));
}

proof fn lemma_rounds_counted(
    before: State,
    head: State,
    after: State,
    builder: usize,
    callable: RootedVal,
    slots: Seq<Operand>,
    lengths: Seq<Operand>,
    index_slot: Operand,
    result_slot: Operand,
    value: Val,
    entry: Run,
    rounds: Seq<Run>,
    k: nat,
)
    requires
        is_loop(
            before,
            head,
            after,
            builder,
            callable,
            slots,
            lengths,
            index_slot,
            result_slot,
            true,
            value,
        ),
        is_entered(entry, before, head, builder, lengths, index_slot, result_slot, true),
        are_rounds(rounds, entry, head, after, builder, lengths, index_slot, result_slot),
        k < rounds.len() <= modulus(),
        forall|j: int| 0 <= j < slots.len() ==> #[trigger] slots[j] != index_slot && slots[j] != result_slot,
        callable matches RootedVal::Closure { slot, signature: _ } ==> slot != index_slot && slot != result_slot,
    ensures
        (rounds[k as int].cells)(index_slot) == k,
        (rounds[k as int].cells)(result_slot) == collected(entry, callable, slots, k),
        rounds[k as int].answers == entry.answers,
        rounds[k as int].fields == entry.fields,
        forall|slot: Operand| slot != index_slot && slot != result_slot ==> #[trigger] (rounds[k as int].cells)(slot)
            == (entry.cells)(slot),
        forall|function: FunctionRef| #[trigger] (rounds[k as int].values)(Operand::Address(function)) == (entry.values)(
            Operand::Address(function),
        ),
    decreases k,
{
    let round = rounds[k as int];
    assert(is_round_of(rounds, k as int, entry, head, after, builder, lengths, index_slot, result_slot));
    if k > 0 {
        let less = (k - 1) as nat;
        lemma_rounds_counted(
            before,
            head,
            after,
            builder,
            callable,
            slots,
            lengths,
            index_slot,
            result_slot,
            value,
            entry,
            rounds,
            less,
        );
        let earlier = rounds[less as int];
        assert(is_round_of(rounds, less as int, entry, head, after, builder, lengths, index_slot, result_slot));
        assert(follows(earlier, round, index_slot, result_slot));
        assert(is_round(
            earlier,
            after,
            builder,
            callable,
            slots,
            lengths,
            index_slot,
            result_slot,
            true,
            value,
        ));
        assert(answer_at(earlier, callable, slots, less as int) == answer_at(entry, callable, slots, less as int)) by {
            let held = elements_at(earlier, slots, less as int);
            assert(held =~= elements_at(entry, slots, less as int));
            lemma_same_list(earlier, entry, held, 10);
        }
    }
}

/// The slots of `map` and `for-each` hold the lists in the order of the arguments, and the lengths are what
/// the runtime answers for them.
pub proof fn lemma_lists_held(
    run: Run,
    state: State,
    builder: usize,
    function: FunctionRef,
    env: Env,
    vars: Vars,
    args: Seq<Expr>,
    count: nat,
    from: int,
)
    requires
        is_calm(run),
        agrees(env, vars, run),
        iteration_lists_steps(state, builder, function, env, args, count) matches Ok((after, _)) && is_run(
            run,
            after.trace,
            from,
        ) && after.trace.len() <= usize::MAX,
        0 <= from <= state.trace.len(),
        count < args.len(),
        keeps_new_slots(run, state.trace),
        forall|list: int| is_integer_word(#[trigger] (run.answers)(RuntimeFunction::ListLength, seq![list])),
        forall|j: int| 1 <= j <= count ==> meaning(#[trigger] args[j], vars, run) is Some,
        (run.reached)(standing(state.trace, builder)),
    ensures
        iteration_lists_steps(state, builder, function, env, args, count) matches Ok((after, (slots, lengths))) && {
            &&& (run.reached)(standing(after.trace, builder))
            &&& slots.len() == count && lengths.len() == count
            &&& forall|j: int| 0 <= j < count ==> (run.cells)(#[trigger] slots[j]) == meaning(args[j + 1], vars, run)->0
            &&& forall|j: int|
                0 <= j < count ==> (run.values)(#[trigger] lengths[j]) == wrapped(
                    integer_in((run.answers)(RuntimeFunction::ListLength, seq![meaning(args[j + 1], vars, run)->0])),
                )
        },
    decreases count,
{
    broadcast use {
        group_continues,
        lemma_run_last,
        lemma_standing,
        lemma_slots_value_to_word,
        lemma_root_word_leaves_one,
        lemma_slots_fixnum_operand,
    };

    if count > 0 {
        assert(counted(0));
        let less = (count - 1) as nat;
        let (first, (slots, lengths)) = iteration_lists_steps(state, builder, function, env, args, less)->Ok_0;
        lemma_slots_iteration_lists(state, builder, function, env, args, less, 0);
        let (second, value) = compile_expr_steps(first, builder, function, env, args[count as int])->Ok_0;
        lemma_slots_compile_expr(first, builder, function, env, args[count as int], 0);
        let (third, word) = value_to_word_steps(second, builder, value);
        let (fourth, slot) = root_word_steps(third, builder, word);
        let (fifth, length) = call_steps(fourth, builder, RuntimeFunction::ListLength, seq![word]);
        let (sixth, decoded) = fixnum_operand_steps(fifth, builder, function, length);
        assert(second.trace.len() <= third.trace.len() && continues(second.trace, third.trace));
        assert(third.trace.len() <= fourth.trace.len());
        assert(fifth.trace.len() <= sixth.trace.len());
        assert(first.trace.len() <= sixth.trace.len());
        lemma_integer_taken(run, fifth, builder, function, length, from);
        assert(values_of(run, seq![word]) =~= seq![(run.values)(word)]);
        lemma_word_held(run, third, builder, word, from);
        lemma_run_start(run, second.trace, third.trace, from);
        lemma_run_start(run, first.trace, second.trace, from);
        lemma_lists_held(run, state, builder, function, env, vars, args, less, from);
        lemma_meaning(run, first, builder, function, env, vars, args[count as int], from);
        assert(meaning(args[count as int], vars, run) is Some);
        lemma_answer_word(run, second, builder, value, from);
        let (after, (all_slots, all_lengths)) = iteration_lists_steps(state, builder, function, env, args, count)->Ok_0;
        assert forall|j: int| 0 <= j < count implies (run.cells)(#[trigger] all_slots[j]) == meaning(
            args[j + 1],
            vars,
            run,
        )->0 by {
            if j < less {
                assert(all_slots[j] == slots[j]);
            }
        }
        assert forall|j: int| 0 <= j < count implies (run.values)(#[trigger] all_lengths[j]) == wrapped(
            integer_in((run.answers)(RuntimeFunction::ListLength, seq![meaning(args[j + 1], vars, run)->0])),
        ) by {
            if j < less {
                assert(all_lengths[j] == lengths[j]);
            }
        }
    }
}

} // verus!
