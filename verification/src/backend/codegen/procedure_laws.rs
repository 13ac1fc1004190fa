//! What the code of calls does: it makes pairs and lists of words in their order, and hands procedures
//! the list of their arguments.
use crate::backend::abi::RuntimeFunction;
use crate::backend::codegen::laws::{
    counted, lemma_list_leaves_no_slot, lemma_pair_leaves_no_slot, lemma_popped_slots_forgotten,
    lemma_root_word_leaves_one, lemma_slots_argument_words, lemma_slots_cons_word, lemma_slots_list_of_words,
};
use crate::backend::codegen::run_laws::{
    is_run, lemma_run_last, lemma_run_literals, lemma_standing, passes, values_of, Run,
};
use crate::backend::codegen::state::{call_steps, value_steps, Argument, RootedVal, State, Val};
use crate::backend::codegen::values::{
    alloc_pair_rooted_steps, argument_words_steps, build_scheme_args_list_steps, cons_word_steps,
    emit_callable_call_steps, emit_rooted_callable_call_steps, emit_trampoline_call_steps, list_of_words_steps,
    load_closure_code_ptr_steps, load_element_steps, load_rooted_word_steps, pop_root_slots_steps, prefixed_list_steps,
    root_word_steps, scheme_callable_parts_steps, word_to_codegen_value_steps,
};
use crate::backend::ir::{group_continues, FunctionRef, Op, Operand, Step};
use crate::backend::kinds::Signature;
use vstd::prelude::*;

verus! {

broadcast use vstd::seq_lib::group_seq_properties;

/// The word that an argument holds.
pub open spec fn argument_word(run: Run, argument: Argument) -> int {
    match argument {
        Argument::Int(word) => (run.values)(word),
        Argument::Pointer(ptr) => (run.values)(ptr),
    }
}

/// The words that arguments hold.
pub open spec fn argument_values(run: Run, arguments: Seq<Argument>) -> Seq<int> {
    arguments.map_values(|argument: Argument| argument_word(run, argument))
}

/// The pair that the runtime makes of two words.
pub open spec fn pair_of(run: Run, car: int, cdr: int) -> int {
    (run.answers)(RuntimeFunction::AllocPairGc, seq![car, cdr])
}

/// The list of words in front of another: the first word is the car of the first pair.
pub open spec fn list_before(run: Run, words: Seq<int>, tail: int) -> int
    decreases words.len(),
{
    if words.len() == 0 {
        tail
    } else {
        pair_of(run, words[0], list_before(run, words.skip(1), tail))
    }
}

pub(crate) proof fn lemma_list_before(run: Run, words: Seq<int>, last: int, tail: int)
    ensures
        list_before(run, words.push(last), tail) == list_before(run, words, pair_of(run, last, tail)),
    decreases words.len(),
{
    if words.len() == 0 {
        assert(words.push(last).skip(1) =~= Seq::<int>::empty());
        reveal_with_fuel(list_before, 2);
    } else {
        assert(words.push(last).skip(1) =~= words.skip(1).push(last));
        lemma_list_before(run, words.skip(1), last, tail);
    }
}

/// Slots that are made from a place on do not change.
pub open spec fn keeps_new_slots(run: Run, trace: Seq<Step>) -> bool {
    forall|place: usize| trace.len() <= place ==> !#[trigger] (run.changes)(Operand::Result(place))
}

/// A word that is put into a slot is held there.
pub proof fn lemma_word_held(run: Run, state: State, builder: usize, value: Operand, from: int)
    requires
        is_run(run, root_word_steps(state, builder, value).0.trace, from),
        0 <= from <= state.trace.len(),
        keeps_new_slots(run, state.trace),
        root_word_steps(state, builder, value).0.trace.len() <= usize::MAX,
    ensures
        is_run(run, state.trace, from),
        passes(run, state, root_word_steps(state, builder, value).0, builder),
        (run.cells)(root_word_steps(state, builder, value).1) == (run.values)(value),
{
    broadcast use {lemma_run_last, lemma_standing};

    reveal(root_word_steps);
}

/// Forgetting slots leads on.
pub proof fn lemma_forgotten(run: Run, state: State, builder: usize, count: nat, from: int)
    requires
        is_run(run, pop_root_slots_steps(state, builder, count).trace, from),
        0 <= from <= state.trace.len(),
    ensures
        is_run(run, state.trace, from),
        passes(run, state, pop_root_slots_steps(state, builder, count), builder),
    decreases count,
{
    broadcast use {lemma_run_last, lemma_standing, lemma_popped_slots_forgotten};

    reveal(pop_root_slots_steps);
    if count > 0 {
        assert(counted(0));
        let before = pop_root_slots_steps(state, builder, (count - 1) as nat);
        assert(state.trace.len() <= before.trace.len());
        lemma_forgotten(run, state, builder, (count - 1) as nat, from);
    }
}

/// A pair is made of its car and its cdr, in this order.
pub proof fn lemma_pair_computed(run: Run, state: State, builder: usize, car: Operand, cdr: Operand, from: int)
    requires
        is_run(run, alloc_pair_rooted_steps(state, builder, car, cdr).0.trace, from),
        0 <= from <= state.trace.len(),
        keeps_new_slots(run, state.trace),
        alloc_pair_rooted_steps(state, builder, car, cdr).0.trace.len() <= usize::MAX,
    ensures
        is_run(run, state.trace, from),
        passes(run, state, alloc_pair_rooted_steps(state, builder, car, cdr).0, builder),
        (run.values)(alloc_pair_rooted_steps(state, builder, car, cdr).1) == pair_of(
            run,
            (run.values)(car),
            (run.values)(cdr),
        ),
{
    broadcast use {
        lemma_run_last,
        lemma_standing,
        lemma_root_word_leaves_one,
        lemma_popped_slots_forgotten,
        group_continues,
    };

    reveal(alloc_pair_rooted_steps);
    assert(counted(0));
    let (first, car_slot) = root_word_steps(state, builder, car);
    let (second, cdr_slot) = root_word_steps(first, builder, cdr);
    let (third, car_word) = load_rooted_word_steps(second, builder, car_slot);
    let (fourth, cdr_word) = load_rooted_word_steps(third, builder, cdr_slot);
    let (fifth, pair) = call_steps(fourth, builder, RuntimeFunction::AllocPairGc, seq![car_word, cdr_word]);
    reveal(load_rooted_word_steps);
    assert(values_of(run, seq![car_word, cdr_word]) =~= seq![(run.values)(car_word), (run.values)(cdr_word)]);
    lemma_forgotten(run, fifth, builder, 2, from);
    assert(is_run(run, fourth.trace, from));
    assert(is_run(run, third.trace, from));
    assert(is_run(run, second.trace, from));
    lemma_word_held(run, first, builder, cdr, from);
    lemma_word_held(run, state, builder, car, from);
}

/// The same where the pair becomes a word.
pub proof fn lemma_cons_computed(run: Run, state: State, builder: usize, car: Operand, cdr: Operand, from: int)
    requires
        is_run(run, cons_word_steps(state, builder, car, cdr).0.trace, from),
        0 <= from <= state.trace.len(),
        keeps_new_slots(run, state.trace),
        cons_word_steps(state, builder, car, cdr).0.trace.len() <= usize::MAX,
    ensures
        is_run(run, state.trace, from),
        passes(run, state, cons_word_steps(state, builder, car, cdr).0, builder),
        (run.values)(cons_word_steps(state, builder, car, cdr).1) == pair_of(run, (run.values)(car), (run.values)(cdr)),
{
    broadcast use {lemma_run_last, lemma_standing, lemma_pair_leaves_no_slot};

    reveal(cons_word_steps);
    assert(counted(0));
    let (paired, pair) = alloc_pair_rooted_steps(state, builder, car, cdr);
    assert(state.trace.len() <= paired.trace.len());
    lemma_pair_computed(run, state, builder, car, cdr, from);
}

/// Words are put in front of a list in their order.
pub proof fn lemma_list_computed(
    run: Run,
    state: State,
    builder: usize,
    words: Seq<Operand>,
    count: nat,
    tail: Operand,
    from: int,
)
    requires
        is_run(run, prefixed_list_steps(state, builder, words, count, tail).0.trace, from),
        0 <= from <= state.trace.len(),
        count <= words.len(),
        keeps_new_slots(run, state.trace),
        prefixed_list_steps(state, builder, words, count, tail).0.trace.len() <= usize::MAX,
    ensures
        is_run(run, state.trace, from),
        passes(run, state, prefixed_list_steps(state, builder, words, count, tail).0, builder),
        (run.values)(prefixed_list_steps(state, builder, words, count, tail).1) == list_before(
            run,
            values_of(run, words.subrange(0, count as int)),
            (run.values)(tail),
        ),
    decreases count,
{
    broadcast use {lemma_slots_cons_word, lemma_list_leaves_no_slot, group_continues};

    reveal(prefixed_list_steps);
    let held = values_of(run, words.subrange(0, count as int));
    if count > 0 {
        assert(counted(0));
        let less = (count - 1) as nat;
        let (first, list) = cons_word_steps(state, builder, words[count - 1], tail);
        assert(state.trace.len() <= first.trace.len());
        assert(first.trace.len() <= prefixed_list_steps(first, builder, words, less, list).0.trace.len());
        lemma_list_computed(run, first, builder, words, less, list, from);
        lemma_cons_computed(run, state, builder, words[count - 1], tail, from);
        let fewer = values_of(run, words.subrange(0, less as int));
        assert(held =~= fewer.push((run.values)(words[count - 1])));
        lemma_list_before(run, fewer, (run.values)(words[count - 1]), (run.values)(tail));
    } else {
        assert(held =~= Seq::<int>::empty());
    }
}

/// Arguments become the words that they hold.
pub proof fn lemma_words_computed(run: Run, state: State, builder: usize, values: Seq<Argument>, count: nat, from: int)
    requires
        is_run(run, argument_words_steps(state, builder, values, count).0.trace, from),
        0 <= from <= state.trace.len(),
        count <= values.len(),
    ensures
        is_run(run, state.trace, from),
        passes(run, state, argument_words_steps(state, builder, values, count).0, builder),
        values_of(run, argument_words_steps(state, builder, values, count).1) == argument_values(run, values).subrange(
            0,
            count as int,
        ),
    decreases count,
{
    broadcast use {lemma_run_last, lemma_standing, lemma_slots_argument_words};

    reveal(argument_words_steps);
    let (after, words) = argument_words_steps(state, builder, values, count);
    let meant = argument_values(run, values).subrange(0, count as int);
    if count > 0 {
        assert(counted(0));
        let less = (count - 1) as nat;
        let (first, before) = argument_words_steps(state, builder, values, less);
        assert(state.trace.len() <= first.trace.len());
        lemma_words_computed(run, state, builder, values, less, from);
        let fewer = argument_values(run, values).subrange(0, less as int);
        assert(meant =~= fewer.push(argument_word(run, values[count - 1])));
        assert(values_of(run, words) =~= values_of(run, before).push((run.values)(words.last())));
    } else {
        assert(values_of(run, words) =~= meant);
    }
}

/// What a procedure answers to a list of arguments: its code is entered with the procedure and the list.
pub open spec fn applied(run: Run, code: int, procedure: int, list: int) -> int {
    (run.answers)(RuntimeFunction::RtTrampolineApply, seq![code, procedure, list])
}

/// The list of arguments that a procedure gets. Behind the arguments that it requires stands the list of
/// all others, where it takes more.
pub open spec fn arguments_list(run: Run, signature: Signature, words: Seq<int>) -> int {
    if signature.rest {
        list_before(run, words.drop_last(), words.last())
    } else {
        list_before(run, words, 10)
    }
}

/// What is called: the code and the procedure object.
pub open spec fn code_and_object(run: Run, callee: Val) -> (int, int) {
    match callee {
        Val::Function(info) => ((run.values)(Operand::Address(FunctionRef::Defined(info.wrapper))), 0),
        Val::Closure { ptr, signature } => ((run.fields)((run.values)(ptr), 2), (run.values)(ptr)),
        _ => (0, 0),
    }
}

/// The word behind a value.
pub open spec fn held_word(run: Run, value: Val) -> int {
    match value {
        Val::Word(word) => (run.values)(word),
        Val::HeapObject { ptr, kind } => (run.values)(ptr),
        Val::Closure { ptr, signature } => (run.values)(ptr),
        Val::MutableBox { ptr } => (run.values)(ptr),
        Val::RootedWord { slot } => (run.cells)(slot),
        Val::Function(_) => 0,
    }
}

/// A call hands the procedure the list of its arguments in their order, and leaves its answer.
pub proof fn lemma_call_computed(
    run: Run,
    state: State,
    builder: usize,
    callee: Val,
    signature: Signature,
    args: Seq<Argument>,
    from: int,
)
    requires
        emit_callable_call_steps(state, builder, callee, signature, args) matches Ok((after, _)) && is_run(
            run,
            after.trace,
            from,
        ) && after.trace.len() <= usize::MAX,
        0 <= from <= state.trace.len(),
        keeps_new_slots(run, state.trace),
    ensures
        is_run(run, state.trace, from),
        emit_callable_call_steps(state, builder, callee, signature, args) matches Ok((after, value)) && {
            &&& passes(run, state, after, builder)
            &&& value is Word || value is HeapObject
            &&& held_word(run, value) == applied(
                run,
                code_and_object(run, callee).0,
                code_and_object(run, callee).1,
                arguments_list(run, signature, argument_values(run, args)),
            )
        },
{
    broadcast use {
        lemma_run_last,
        lemma_standing,
        lemma_slots_argument_words,
        lemma_slots_list_of_words,
        lemma_list_leaves_no_slot,
        group_continues,
    };

    reveal(emit_callable_call_steps);
    reveal(build_scheme_args_list_steps);
    reveal(emit_trampoline_call_steps);
    reveal(scheme_callable_parts_steps);
    reveal(load_closure_code_ptr_steps);
    reveal(load_element_steps);
    reveal(word_to_codegen_value_steps);
    reveal(list_of_words_steps);
    assert(counted(0));
    let (after, value) = emit_callable_call_steps(state, builder, callee, signature, args)->Ok_0;
    let (worded, words) = argument_words_steps(state, builder, args, args.len());
    assert(state.trace.len() <= worded.trace.len());
    let (listed, list) = build_scheme_args_list_steps(state, builder, signature, args)->Ok_0;
    assert(worded.trace.len() <= listed.trace.len());
    let (parted, (code_ptr, closure_word, _)) = scheme_callable_parts_steps(listed, builder, callee)->Ok_0;
    assert(listed.trace.len() <= parted.trace.len());
    lemma_run_literals(run, after.trace, from);
    assert(values_of(run, seq![code_ptr, closure_word, list]) =~= seq![
        (run.values)(code_ptr),
        (run.values)(closure_word),
        (run.values)(list),
    ]);
    assert(is_run(run, parted.trace, from));
    assert(is_run(run, listed.trace, from));
    let required = signature.params.len();
    let held = argument_values(run, args);
    if signature.rest {
        let firsts = words.subrange(0, required as int);
        lemma_list_computed(run, worded, builder, firsts, required, words[required as int], from);
        lemma_words_computed(run, state, builder, args, args.len(), from);
        assert(held.subrange(0, args.len() as int) =~= held);
        assert(values_of(run, words)[required as int] == (run.values)(words[required as int]));
        assert(firsts.subrange(0, required as int) =~= firsts);
        assert(values_of(run, firsts) =~= held.drop_last());
    } else {
        lemma_list_computed(run, worded, builder, words, words.len(), Operand::Word(10), from);
        lemma_words_computed(run, state, builder, args, args.len(), from);
        assert(held.subrange(0, args.len() as int) =~= held);
        assert(words.subrange(0, words.len() as int) =~= words);
    }
}

/// The same for a procedure that was kept reachable.
pub proof fn lemma_rooted_call_computed(
    run: Run,
    state: State,
    builder: usize,
    callee: RootedVal,
    signature: Signature,
    args: Seq<Argument>,
    from: int,
)
    requires
        emit_rooted_callable_call_steps(state, builder, callee, signature, args) matches Ok((after, _)) && is_run(
            run,
            after.trace,
            from,
        ) && after.trace.len() <= usize::MAX,
        0 <= from <= state.trace.len(),
        keeps_new_slots(run, state.trace),
        callee matches RootedVal::Closure { slot, signature: own } ==> own == signature,
    ensures
        is_run(run, state.trace, from),
        emit_rooted_callable_call_steps(state, builder, callee, signature, args) matches Ok((after, value)) && {
            &&& passes(run, state, after, builder)
            &&& value is Word || value is HeapObject
            &&& held_word(run, value) == (match callee {
                RootedVal::Function(info) => applied(
                    run,
                    (run.values)(Operand::Address(FunctionRef::Defined(info.wrapper))),
                    0,
                    arguments_list(run, signature, argument_values(run, args)),
                ),
                RootedVal::Closure { slot, signature: _ } => applied(
                    run,
                    (run.fields)((run.cells)(slot), 2),
                    (run.cells)(slot),
                    arguments_list(run, signature, argument_values(run, args)),
                ),
            })
        },
{
    broadcast use {lemma_run_last, lemma_standing};

    reveal(emit_rooted_callable_call_steps);
    reveal(load_rooted_word_steps);
    match callee {
        RootedVal::Function(info) => {
            lemma_call_computed(run, state, builder, Val::Function(info), signature, args, from);
        },
        RootedVal::Closure { slot, signature: own } => {
            let (first, word) = load_rooted_word_steps(state, builder, slot);
            let (second, ptr) = value_steps(first, Op::IntToPtr { builder, value: word });
            lemma_call_computed(run, second, builder, Val::Closure { ptr, signature: own }, own, args, from);
        },
    }
}

} // verus!
