//! What procedures see: parameters stand for the arguments in their order, and captured names for what they
//! stood for where the procedure was made.
use crate::backend::abi::RuntimeFunction;
use crate::backend::codegen::laws::{
    counted, lemma_slots_apply_list_args, lemma_slots_bind_captures, lemma_slots_fill_captures,
    lemma_slots_packet_args, lemma_slots_value_to_word, lemma_slots_wrapper_args,
};
use crate::backend::codegen::plan::bind_steps;
use crate::backend::codegen::plan_builtins::{apply_list_args_steps, packet_args_steps};
use crate::backend::codegen::plan_procedures::{
    bind_captures_steps, bind_params_steps, fill_captures_steps, wrapper_args_steps,
};
use crate::backend::codegen::procedure_laws::{argument_word, held_word, keeps_new_slots};
use crate::backend::codegen::run_laws::{is_run, lemma_run_last, lemma_run_literals, lemma_run_start, values_of, Run};
use crate::backend::codegen::state::{call_steps, push_step, value_steps, Env, State, Val};
use crate::backend::codegen::values::{
    convert_argument_value_steps, load_closure_env_word_steps, load_element_steps, load_list_element_steps,
    load_rooted_word_steps, load_values_element_steps, value_to_word_steps, word_to_codegen_value_steps,
};
use crate::backend::ir::{continues, group_continues, FunctionRef, Op, Operand};
use crate::backend::kinds::{AbiValueKind, NameKind, Signature};
use vstd::prelude::*;

verus! {

broadcast use vstd::seq_lib::group_seq_properties;

/// What the runtime answers for the element of a list or of several values at a place.
pub open spec fn element_answer(run: Run, entry: RuntimeFunction, object: Operand, place: int) -> int {
    (run.answers)(entry, seq![(run.values)(object), place])
}

proof fn lemma_element_operands(run: Run, after: State, object: Operand, place: u64, from: int)
    requires
        is_run(run, after.trace, from),
    ensures
        values_of(run, seq![object, Operand::Word(place)]) == seq![(run.values)(object), place as int],
{
    lemma_run_literals(run, after.trace, from);
    assert(values_of(run, seq![object, Operand::Word(place)]) =~= seq![(run.values)(object), place as int]);
}

/// A word that is taken out as a value of a kind and turned into an argument of that kind stays the word.
proof fn lemma_converted(
    run: Run,
    state: State,
    builder: usize,
    word: Operand,
    kind: AbiValueKind,
    context: Seq<char>,
    from: int,
)
    requires
        ({
            let (taken, value) = word_to_codegen_value_steps(state, builder, word, kind);
            convert_argument_value_steps(taken, builder, value, kind, context) matches Ok((after, _)) && is_run(
                run,
                after.trace,
                from,
            )
        }),
        0 <= from <= state.trace.len(),
    ensures
        is_run(run, state.trace, from),
        ({
            let (taken, value) = word_to_codegen_value_steps(state, builder, word, kind);
            convert_argument_value_steps(taken, builder, value, kind, context) matches Ok((after, argument))
                && argument_word(run, argument) == (run.values)(word)
        }),
{
    broadcast use lemma_run_last;

    reveal(word_to_codegen_value_steps);
    reveal(convert_argument_value_steps);
    reveal(value_to_word_steps);
}

/// A procedure that is called with a list of arguments gets its elements in their order.
pub proof fn lemma_wrapper_args(
    run: Run,
    state: State,
    builder: usize,
    args_list: Operand,
    kinds: Seq<AbiValueKind>,
    count: nat,
    context: Seq<char>,
    from: int,
)
    requires
        wrapper_args_steps(state, builder, args_list, kinds, count, context) matches Ok((after, _)) && is_run(
            run,
            after.trace,
            from,
        ),
        0 <= from <= state.trace.len(),
        count <= kinds.len() <= usize::MAX,
        usize::MAX == u64::MAX,
    ensures
        wrapper_args_steps(state, builder, args_list, kinds, count, context) matches Ok((after, given)) && given.len()
            == count && forall|i: int|
            0 <= i < count ==> (run.values)(#[trigger] given[i]) == element_answer(
                run,
                RuntimeFunction::ListRef,
                args_list,
                i,
            ),
    decreases count,
{
    broadcast use {group_continues, lemma_run_last, lemma_slots_wrapper_args};

    reveal(wrapper_args_steps);
    if count > 0 {
        assert(counted(0));
        reveal(load_list_element_steps);
        let less = (count - 1) as nat;
        let (first, before) = wrapper_args_steps(state, builder, args_list, kinds, less, context)->Ok_0;
        assert(state.trace.len() <= first.trace.len());
        let (after, given) = wrapper_args_steps(state, builder, args_list, kinds, count, context)->Ok_0;
        let place = (count - 1) as usize as u64;
        let (second, word) = call_steps(
            first,
            builder,
            RuntimeFunction::ListRef,
            seq![args_list, Operand::Word(place)],
        );
        lemma_element_operands(run, after, args_list, place, from);
        lemma_converted(run, second, builder, word, kinds[count - 1], context, from);
        lemma_wrapper_args(run, state, builder, args_list, kinds, less, context, from);
        assert forall|i: int| 0 <= i < count implies (run.values)(#[trigger] given[i]) == element_answer(
            run,
            RuntimeFunction::ListRef,
            args_list,
            i,
        ) by {
            if i < less {
                assert(given[i] == before[i]);
            }
        }
    }
}

/// `apply` takes the arguments that are missing out of its list, in their order.
pub proof fn lemma_applied_list(
    run: Run,
    state: State,
    builder: usize,
    list: Operand,
    kinds: Seq<AbiValueKind>,
    start: nat,
    count: nat,
    from: int,
)
    requires
        apply_list_args_steps(state, builder, list, kinds, start, count) matches Ok((after, _)) && is_run(
            run,
            after.trace,
            from,
        ),
        0 <= from <= state.trace.len(),
        start <= count <= kinds.len() <= usize::MAX,
        usize::MAX == u64::MAX,
    ensures
        apply_list_args_steps(state, builder, list, kinds, start, count) matches Ok((after, given)) && given.len() == count
            - start && forall|i: int|
            0 <= i < count - start ==> argument_word(run, #[trigger] given[i]) == element_answer(
                run,
                RuntimeFunction::ListRef,
                list,
                i,
            ),
    decreases count,
{
    broadcast use {group_continues, lemma_run_last, lemma_slots_apply_list_args};

    reveal(apply_list_args_steps);
    if count > start {
        assert(counted(0));
        reveal(load_list_element_steps);
        let less = (count - 1) as nat;
        let (first, before) = apply_list_args_steps(state, builder, list, kinds, start, less)->Ok_0;
        assert(state.trace.len() <= first.trace.len());
        let (after, given) = apply_list_args_steps(state, builder, list, kinds, start, count)->Ok_0;
        let place = (count - 1 - start) as usize as u64;
        let (second, word) = call_steps(
            first,
            builder,
            RuntimeFunction::ListRef,
            seq![list, Operand::Word(place)],
        );
        lemma_element_operands(run, after, list, place, from);
        lemma_converted(run, second, builder, word, kinds[count - 1], "apply.list.arg"@, from);
        lemma_applied_list(run, state, builder, list, kinds, start, less, from);
        assert forall|i: int| 0 <= i < count - start implies argument_word(run, #[trigger] given[i]) == element_answer(
            run,
            RuntimeFunction::ListRef,
            list,
            i,
        ) by {
            if i < less - start {
                assert(given[i] == before[i]);
            }
        }
    }
}

/// The consumer of several values gets them in their order.
pub proof fn lemma_consumed_values(
    run: Run,
    state: State,
    builder: usize,
    packet: Operand,
    kinds: Seq<AbiValueKind>,
    count: nat,
    from: int,
)
    requires
        packet_args_steps(state, builder, packet, kinds, count) matches Ok((after, _)) && is_run(run, after.trace, from),
        0 <= from <= state.trace.len(),
        count <= kinds.len() <= usize::MAX,
        usize::MAX == u64::MAX,
    ensures
        packet_args_steps(state, builder, packet, kinds, count) matches Ok((after, given)) && given.len() == count
            && forall|i: int|
            0 <= i < count ==> argument_word(run, #[trigger] given[i]) == element_answer(
                run,
                RuntimeFunction::ValuesRef,
                packet,
                i,
            ),
    decreases count,
{
    broadcast use {group_continues, lemma_run_last, lemma_slots_packet_args};

    reveal(packet_args_steps);
    if count > 0 {
        assert(counted(0));
        reveal(load_values_element_steps);
        let less = (count - 1) as nat;
        let (first, before) = packet_args_steps(state, builder, packet, kinds, less)->Ok_0;
        assert(state.trace.len() <= first.trace.len());
        let (after, given) = packet_args_steps(state, builder, packet, kinds, count)->Ok_0;
        let place = (count - 1) as usize as u64;
        let (second, word) = call_steps(
            first,
            builder,
            RuntimeFunction::ValuesRef,
            seq![packet, Operand::Word(place)],
        );
        lemma_element_operands(run, after, packet, place, from);
        lemma_converted(run, second, builder, word, kinds[count - 1], "call-with-values packet arg"@, from);
        lemma_consumed_values(run, state, builder, packet, kinds, less, from);
        assert forall|i: int| 0 <= i < count implies argument_word(run, #[trigger] given[i]) == element_answer(
            run,
            RuntimeFunction::ValuesRef,
            packet,
            i,
        ) by {
            if i < less {
                assert(given[i] == before[i]);
            }
        }
    }
}

/// Whether no two captured names are the same.
pub open spec fn are_distinct(captures: Seq<(Seq<char>, NameKind)>) -> bool {
    forall|i: int, j: int| 0 <= i < j < captures.len() ==> (#[trigger] captures[i]).0 != (#[trigger] captures[j]).0
}

/// A procedure sees under a captured name the word of its object with the number of the name.
pub proof fn lemma_captures_seen(
    run: Run,
    state: State,
    builder: usize,
    closure: Operand,
    captures: Seq<(Seq<char>, NameKind)>,
    count: nat,
    from: int,
)
    requires
        is_run(run, bind_captures_steps(state, builder, closure, captures, count).0.trace, from),
        0 <= from <= state.trace.len(),
        count <= captures.len() <= usize::MAX,
        are_distinct(captures),
    ensures
        is_run(run, state.trace, from),
        forall|i: int|
            0 <= i < count ==> {
                let env = bind_captures_steps(state, builder, closure, captures, count).1;
                env.contains_key((#[trigger] captures[i]).0) && held_word(run, env[captures[i].0]) == (run.fields)(
                    (run.values)(closure),
                    4 + i,
                )
            },
    decreases count,
{
    broadcast use {group_continues, lemma_run_last, lemma_slots_bind_captures};

    reveal(bind_captures_steps);
    if count > 0 {
        assert(counted(0));
        reveal(load_closure_env_word_steps);
        reveal(load_element_steps);
        let less = (count - 1) as nat;
        let (first, before) = bind_captures_steps(state, builder, closure, captures, less);
        assert(state.trace.len() <= first.trace.len());
        lemma_captures_seen(run, state, builder, closure, captures, less, from);
        let env = bind_captures_steps(state, builder, closure, captures, count).1;
        assert forall|i: int| 0 <= i < count implies env.contains_key((#[trigger] captures[i]).0) && held_word(
            run,
            env[captures[i].0],
        ) == (run.fields)((run.values)(closure), 4 + i) by {
            if i < less {
                assert(captures[i].0 != captures[count - 1].0);
                assert(before.contains_key(captures[i].0));
            }
        }
    }
}

/// The words that a procedure object is made of are those of the captured names, in their order.
pub proof fn lemma_captures_kept(
    run: Run,
    state: State,
    builder: usize,
    env: Env,
    values: Operand,
    captures: Seq<(Seq<char>, NameKind)>,
    count: nat,
    from: int,
)
    requires
        fill_captures_steps(state, builder, env, values, captures, count) matches Ok((after, _)) && is_run(
            run,
            after.trace,
            from,
        ) && after.trace.len() <= usize::MAX,
        0 <= from <= state.trace.len(),
        keeps_new_slots(run, state.trace),
        count <= captures.len() <= usize::MAX,
        forall|i: int|
            0 <= i < captures.len() && env.contains_key((#[trigger] captures[i]).0) ==> !(env[captures[i].0] is Function),
    ensures
        forall|i: int|
            0 <= i < count ==> env.contains_key((#[trigger] captures[i]).0) && (run.fields)((run.values)(values), i)
                == held_word(run, env[captures[i].0]),
    decreases count,
{
    broadcast use {group_continues, lemma_run_last, lemma_slots_fill_captures, lemma_slots_value_to_word};

    reveal(fill_captures_steps);
    if count > 0 {
        assert(counted(0));
        let less = (count - 1) as nat;
        let (first, _) = fill_captures_steps(state, builder, env, values, captures, less)->Ok_0;
        assert(state.trace.len() <= first.trace.len());
        let captured = captures[count - 1];
        assert(env.contains_key(captured.0));
        let (second, word) = value_to_word_steps(first, builder, env[captured.0]);
        assert(first.trace.len() <= second.trace.len() && continues(first.trace, second.trace));
        let index = (count - 1) as usize;
        let (third, slot) = value_steps(second, Op::ElementPointer { builder, base: values, skip: 0, index });
        let fourth = push_step(third, Op::Store { builder, slot, value: word });
        assert(is_run(run, third.trace, from));
        assert(is_run(run, second.trace, from));
        lemma_run_start(run, first.trace, second.trace, from);
        lemma_captures_kept(run, state, builder, env, values, captures, less, from);
        assert((run.values)(word) == held_word(run, env[captured.0])) by {
            reveal(value_to_word_steps);
            reveal(load_rooted_word_steps);
        }
    }
}

/// A parameter stands for the argument with its number, unless it is assigned to or its pair is changed.
pub proof fn lemma_parameters_seen(
    state: State,
    builder: usize,
    function: FunctionRef,
    skip: usize,
    signature: Signature,
    name: Seq<char>,
    required: Seq<Seq<char>>,
    count: nat,
    env: Env,
    assigned: Set<Seq<char>>,
    changed: Set<Seq<char>>,
)
    requires
        count <= required.len() <= usize::MAX,
        forall|i: int, j: int| 0 <= i < j < required.len() ==> #[trigger] required[i] != #[trigger] required[j],
    ensures
        bind_params_steps(state, builder, function, skip, signature, name, required, count, env, assigned, changed) matches Ok(
            (_, (scoped, _)),
        ) ==> forall|i: int|
            0 <= i < count ==> {
                let operand = Operand::Param { function, skip, index: i as usize };
                &&& scoped.contains_key(#[trigger] required[i])
                &&& !assigned.contains(required[i]) && !changed.contains(required[i]) ==> match scoped[required[i]] {
                    Val::Word(word) => word == operand,
                    Val::HeapObject { ptr, kind } => ptr == operand,
                    _ => false,
                }
            },
    decreases count,
{
    reveal(bind_params_steps);
    reveal(bind_steps);
    if count > 0 {
        let less = (count - 1) as nat;
        lemma_parameters_seen(
            state,
            builder,
            function,
            skip,
            signature,
            name,
            required,
            less,
            env,
            assigned,
            changed,
        );
        if let Ok((_, (scoped, _))) = bind_params_steps(
            state,
            builder,
            function,
            skip,
            signature,
            name,
            required,
            count,
            env,
            assigned,
            changed,
        ) {
            let (_, (before, _)) = bind_params_steps(
                state,
                builder,
                function,
                skip,
                signature,
                name,
                required,
                less,
                env,
                assigned,
                changed,
            )->Ok_0;
            assert forall|i: int| 0 <= i < less implies scoped.contains_key(#[trigger] required[i]) && scoped[required[i]]
                == before[required[i]] by {
                assert(required[i] != required[count - 1]);
            }
        }
    }
}

} // verus!
