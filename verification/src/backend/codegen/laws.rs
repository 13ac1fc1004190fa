//! What holds of the code that tells the collector about slots of the frame.
use crate::backend::abi::RuntimeFunction;
use crate::backend::codegen::plan::{
    bind_steps, guard_handler_steps, literal_steps, string_literal_steps, symbol_literal_steps, truth_steps,
    variable_steps,
};
use crate::backend::codegen::plan_builtins::{
    answer_steps, apply_list_args_steps, binary_builtin_steps, binary_runtime_steps, boolean_predicate_steps,
    chain_steps, char_predicate_steps, char_to_integer_steps, consume_values_steps, copy_slots_steps,
    element_steps, fold_steps, gc_stress_steps, integer_to_char_steps, iteration_args_steps,
    iteration_loop_steps, kind_predicate_steps, length_steps, list_place_steps, list_predicate_steps,
    not_steps, null_predicate_steps, packet_args_steps, packet_consumer_steps, pair_access_steps,
    pair_predicate_steps, pair_store_steps, procedure_predicate_steps, reference_steps, same_lengths_steps,
    single_consumer_steps, symbol_predicate_steps, unary_builtin_steps, unary_runtime_steps,
    vector_store_steps, zero_predicate_steps,
};
use crate::backend::codegen::plan_procedures::{
    bind_captures_steps, bind_formals_steps, bind_params_steps, closure_allocation_steps,
    closure_scheme_wrapper_steps, direct_scheme_wrapper_steps, fill_captures_steps, letrec_allocate_steps,
    letrec_capture_steps, letrec_declare_steps, scheme_wrapper_steps, set_captures_steps, wrapper_args_steps,
    wrapper_return_steps, Captured, Declared,
};
use crate::backend::codegen::state::{Argument, Callable, Env, RootedVal, State, Val};
use crate::backend::codegen::values::{
    alloc_pair_rooted_steps, allocate_placeholder_closure_steps, argument_words_steps, box_value_steps,
    branch_on_pending_exception_steps, build_scheme_args_list_steps, char_operand_steps, check_length_steps,
    compare_codegen_values_steps, compare_gc_pointers_steps, cons_word_steps, convert_argument_value_steps,
    decode_fixnum_steps, emit_callable_call_steps, emit_exception_return_block_steps,
    emit_rooted_callable_call_steps, emit_tail_request_steps, emit_trampoline_call_steps,
    encode_fixnum_value_steps, ensure_fixnum_steps, fill_steps, fixnum_operand_steps, is_char_steps,
    list_of_words_steps, list_tail_word_steps, load_box_word_steps, load_closure_code_ptr_steps,
    load_closure_env_word_steps, load_element_steps, load_list_element_steps, load_rooted_word_steps,
    load_values_element_steps, merge_branch_values_steps, phi_steps, pop_root_slots_steps, prefixed_list_steps,
    resolve_callable_value_steps, root_callable_value_steps, root_word_steps, scheme_callable_parts_steps,
    tagged_bool_steps, tail_return_value_steps, trap_if_false_steps, value_to_word_steps,
    word_to_codegen_value_steps,
};
use crate::backend::ir::{continues, group_continues, BinaryOp, FunctionRef, IrType, Op, Operand, Predicate, Step};
use crate::backend::kinds::{AbiValueKind, NameKind, Signature};
use crate::middle::hir::{Binding, Params};
use vstd::prelude::*;

verus! {

broadcast use vstd::seq_lib::group_seq_properties;

/// Whether an operation of a builder calls an entry of the runtime.
pub open spec fn calls_entry(step: Step, builder: usize, entry: RuntimeFunction) -> bool {
    match step {
        Op::Call { builder: caller, target, args } => caller == builder && target == FunctionRef::Runtime(entry),
        _ => false,
    }
}

/// How many operations of a builder call an entry of the runtime.
pub open spec fn calls_of(trace: Seq<Step>, builder: usize, entry: RuntimeFunction) -> nat
    decreases trace.len(),
{
    if trace.len() == 0 {
        0
    } else {
        calls_of(trace.drop_last(), builder, entry) + (if calls_entry(trace.last(), builder, entry) {
            1nat
        } else {
            0nat
        })
    }
}

/// How many more slots of the frame the operations of a builder tell the collector about than they
/// have it forget.
#[verifier::opaque]
pub open spec fn slots_left(trace: Seq<Step>, builder: usize) -> int {
    calls_of(trace, builder, RuntimeFunction::RtRootSlotPush) - calls_of(trace, builder, RuntimeFunction::RtRootSlotPop)
}

/// Marks a builder whose slots are counted.
pub open spec fn counted(builder: usize) -> bool {
    true
}

/// Whether operations were added, and those of `builder` tell the collector about so many more slots
/// than they have it forget. `probe` stands for any builder.
pub open spec fn quietly_moves(before: State, after: State, builder: usize, count: int, probe: usize) -> bool {
    &&& before.trace.len() <= after.trace.len()
    &&& continues(before.trace, after.trace)
    &&& slots_left(after.trace, probe) == slots_left(before.trace, probe) + (if probe == builder { count } else { 0 })
}

/// Whether operations were added that leave no slot of any builder.
pub open spec fn quiet(before: State, after: State, probe: usize) -> bool {
    &&& before.trace.len() <= after.trace.len()
    &&& continues(before.trace, after.trace)
    &&& slots_left(after.trace, probe) == slots_left(before.trace, probe)
}

/// The same where more builders may have been made, for a builder that was there before.
pub open spec fn moves(before: State, after: State, builder: usize, count: int, probe: usize) -> bool {
    &&& before.trace.len() <= after.trace.len()
    &&& continues(before.trace, after.trace)
    &&& probe < before.trace.len() && after.trace.len() <= usize::MAX ==> slots_left(after.trace, probe) == slots_left(
        before.trace,
        probe,
    ) + (if probe == builder { count } else { 0 })
}

/// The same where no slot of a builder that was there before is left.
pub open spec fn steady(before: State, after: State, probe: usize) -> bool {
    &&& before.trace.len() <= after.trace.len()
    &&& continues(before.trace, after.trace)
    &&& probe < before.trace.len() && after.trace.len() <= usize::MAX ==> slots_left(after.trace, probe) == slots_left(
        before.trace,
        probe,
    )
}

/// The same for all builders but one.
pub open spec fn tail_steady(before: State, after: State, builder: usize, probe: usize) -> bool {
    &&& before.trace.len() <= after.trace.len()
    &&& continues(before.trace, after.trace)
    &&& probe != builder ==> steady(before, after, probe)
}

/// An operation more makes a difference only where it is a call of one of the two entries.
pub(crate) broadcast proof fn lemma_one_more(trace: Seq<Step>, step: Step, probe: usize)
    ensures
        #![trigger trace.push(step), counted(probe)]
        slots_left(trace.push(step), probe) == slots_left(trace, probe) + (if calls_entry(
            step,
            probe,
            RuntimeFunction::RtRootSlotPush,
        ) {
            1int
        } else {
            0int
        }) - (if calls_entry(step, probe, RuntimeFunction::RtRootSlotPop) { 1int } else { 0int }),
{
    reveal(slots_left);
    assert(trace.push(step).drop_last() =~= trace);
}

pub(crate) broadcast proof fn lemma_slots_load_element(
    state: State,
    builder: usize,
    base: Operand,
    skip: usize,
    index: usize,
    probe: usize,
)
    ensures
        #![trigger load_element_steps(state, builder, base, skip, index), counted(probe)]
        quiet(state, load_element_steps(state, builder, base, skip, index).0, probe),
{
    broadcast use {lemma_one_more, group_continues};

    assert(counted(probe));
    reveal(load_element_steps);
}

pub(crate) broadcast proof fn lemma_slots_load_rooted_word(
    state: State,
    builder: usize,
    slot: Operand,
    probe: usize,
)
    ensures
        #![trigger load_rooted_word_steps(state, builder, slot), counted(probe)]
        quiet(state, load_rooted_word_steps(state, builder, slot).0, probe),
{
    broadcast use {lemma_one_more, group_continues};

    assert(counted(probe));
    reveal(load_rooted_word_steps);
}

/// Rooting a word tells the collector about one slot.
pub broadcast proof fn lemma_root_word_leaves_one(state: State, builder: usize, value: Operand, probe: usize)
    ensures
        #![trigger root_word_steps(state, builder, value), counted(probe)]
        quietly_moves(state, root_word_steps(state, builder, value).0, builder, 1, probe),
{
    broadcast use {lemma_one_more, group_continues};

    assert(counted(probe));
    reveal(root_word_steps);
}

/// Popping slots has the collector forget as many.
pub broadcast proof fn lemma_popped_slots_forgotten(state: State, builder: usize, count: nat, probe: usize)
    ensures
        #![trigger pop_root_slots_steps(state, builder, count), counted(probe)]
        quietly_moves(state, pop_root_slots_steps(state, builder, count), builder, -count, probe),
    decreases count,
{
    broadcast use {lemma_one_more, group_continues};

    assert(counted(probe));
    reveal(pop_root_slots_steps);
    if count > 0 {
        lemma_popped_slots_forgotten(state, builder, (count - 1) as nat, probe);
    }
}

pub(crate) broadcast proof fn lemma_slots_fill(
    state: State,
    builder: usize,
    values: Operand,
    count: nat,
    probe: usize,
)
    ensures
        #![trigger fill_steps(state, builder, values, count), counted(probe)]
        quiet(state, fill_steps(state, builder, values, count), probe),
    decreases count,
{
    broadcast use {lemma_one_more, group_continues};

    assert(counted(probe));
    reveal(fill_steps);
    if count != 0 {
        lemma_slots_fill(state, builder, values, (count - 1) as nat, probe);
    }
}

pub(crate) broadcast proof fn lemma_slots_allocate_placeholder_closure(
    state: State,
    builder: usize,
    wrapper: usize,
    signature: Signature,
    env_len: usize,
    probe: usize,
)
    ensures
        #![trigger
            allocate_placeholder_closure_steps(state, builder, wrapper, signature, env_len),
            counted(probe)]
        quiet(
            state,
            allocate_placeholder_closure_steps(state, builder, wrapper, signature, env_len).0,
            probe,
        ),
{
    broadcast use {lemma_one_more, group_continues, lemma_slots_fill};

    assert(counted(probe));
    reveal(allocate_placeholder_closure_steps);
}

pub(crate) broadcast proof fn lemma_slots_value_to_word(
    state: State,
    builder: usize,
    value: Val,
    probe: usize,
)
    ensures
        #![trigger value_to_word_steps(state, builder, value), counted(probe)]
        quiet(state, value_to_word_steps(state, builder, value).0, probe),
{
    broadcast use {lemma_one_more, group_continues, lemma_slots_load_rooted_word, lemma_slots_allocate_placeholder_closure};

    assert(counted(probe));
    reveal(value_to_word_steps);
}

/// Making a pair leaves no slot with the collector.
pub broadcast proof fn lemma_pair_leaves_no_slot(
    state: State,
    builder: usize,
    car: Operand,
    cdr: Operand,
    probe: usize,
)
    ensures
        #![trigger alloc_pair_rooted_steps(state, builder, car, cdr), counted(probe)]
        quiet(state, alloc_pair_rooted_steps(state, builder, car, cdr).0, probe),
{
    broadcast use {
        lemma_one_more,
        group_continues,
        lemma_slots_load_rooted_word,
        lemma_root_word_leaves_one,
        lemma_popped_slots_forgotten,
    };

    assert(counted(probe));
    reveal(alloc_pair_rooted_steps);
}

pub(crate) broadcast proof fn lemma_slots_cons_word(
    state: State,
    builder: usize,
    car: Operand,
    cdr: Operand,
    probe: usize,
)
    ensures
        #![trigger cons_word_steps(state, builder, car, cdr), counted(probe)]
        quiet(state, cons_word_steps(state, builder, car, cdr).0, probe),
{
    broadcast use {lemma_one_more, group_continues, lemma_pair_leaves_no_slot};

    assert(counted(probe));
    reveal(cons_word_steps);
}

/// Building a list in front of another leaves no slot with the collector, however long it is.
pub broadcast proof fn lemma_list_leaves_no_slot(
    state: State,
    builder: usize,
    words: Seq<Operand>,
    count: nat,
    tail: Operand,
    probe: usize,
)
    ensures
        #![trigger prefixed_list_steps(state, builder, words, count, tail), counted(probe)]
        quiet(state, prefixed_list_steps(state, builder, words, count, tail).0, probe),
    decreases count,
{
    broadcast use {lemma_one_more, group_continues, lemma_slots_cons_word};

    assert(counted(probe));
    reveal(prefixed_list_steps);
    if 0 < count <= words.len() {
        let (state, list) = cons_word_steps(state, builder, words[count - 1], tail);
        lemma_list_leaves_no_slot(state, builder, words, (count - 1) as nat, list, probe);
    }
}

pub(crate) broadcast proof fn lemma_slots_list_of_words(
    state: State,
    builder: usize,
    words: Seq<Operand>,
    probe: usize,
)
    ensures
        #![trigger list_of_words_steps(state, builder, words), counted(probe)]
        quiet(state, list_of_words_steps(state, builder, words).0, probe),
{
    broadcast use {lemma_one_more, group_continues, lemma_list_leaves_no_slot};

    assert(counted(probe));
    reveal(list_of_words_steps);
}

pub(crate) broadcast proof fn lemma_slots_argument_words(
    state: State,
    builder: usize,
    values: Seq<Argument>,
    count: nat,
    probe: usize,
)
    ensures
        #![trigger argument_words_steps(state, builder, values, count), counted(probe)]
        quiet(state, argument_words_steps(state, builder, values, count).0, probe),
    decreases count,
{
    broadcast use {lemma_one_more, group_continues};

    assert(counted(probe));
    reveal(argument_words_steps);
    if 0 < count <= values.len() {
        lemma_slots_argument_words(state, builder, values, (count - 1) as nat, probe);
    }
}

pub(crate) broadcast proof fn lemma_slots_build_scheme_args_list(
    state: State,
    builder: usize,
    signature: Signature,
    values: Seq<Argument>,
    probe: usize,
)
    ensures
        #![trigger build_scheme_args_list_steps(state, builder, signature, values), counted(probe)]
        build_scheme_args_list_steps(state, builder, signature, values) matches Ok((after, _))
            ==> quiet(state, after, probe),
{
    broadcast use {
        lemma_one_more,
        group_continues,
        lemma_list_leaves_no_slot,
        lemma_slots_list_of_words,
        lemma_slots_argument_words,
    };

    assert(counted(probe));
    reveal(build_scheme_args_list_steps);
}

pub(crate) broadcast proof fn lemma_slots_trap_if_false(
    state: State,
    builder: usize,
    function: FunctionRef,
    condition: Operand,
    probe: usize,
)
    ensures
        #![trigger trap_if_false_steps(state, builder, function, condition), counted(probe)]
        quiet(state, trap_if_false_steps(state, builder, function, condition), probe),
{
    broadcast use {lemma_one_more, group_continues};

    assert(counted(probe));
    reveal(trap_if_false_steps);
}

pub(crate) broadcast proof fn lemma_slots_fixnum_operand(
    state: State,
    builder: usize,
    function: FunctionRef,
    word: Operand,
    probe: usize,
)
    ensures
        #![trigger fixnum_operand_steps(state, builder, function, word), counted(probe)]
        quiet(state, fixnum_operand_steps(state, builder, function, word).0, probe),
{
    broadcast use {lemma_one_more, group_continues, lemma_slots_trap_if_false};

    assert(counted(probe));
    reveal(fixnum_operand_steps);
    reveal(ensure_fixnum_steps);
    reveal(decode_fixnum_steps);
}

pub(crate) broadcast proof fn lemma_slots_encode_fixnum_value(
    state: State,
    builder: usize,
    value: Operand,
    probe: usize,
)
    ensures
        #![trigger encode_fixnum_value_steps(state, builder, value), counted(probe)]
        quiet(state, encode_fixnum_value_steps(state, builder, value).0, probe),
{
    broadcast use {lemma_one_more, group_continues};

    assert(counted(probe));
    reveal(encode_fixnum_value_steps);
}

pub(crate) broadcast proof fn lemma_slots_tagged_bool(
    state: State,
    builder: usize,
    condition: Operand,
    probe: usize,
)
    ensures
        #![trigger tagged_bool_steps(state, builder, condition), counted(probe)]
        quiet(state, tagged_bool_steps(state, builder, condition).0, probe),
{
    broadcast use {lemma_one_more, group_continues};

    assert(counted(probe));
    reveal(tagged_bool_steps);
}

pub(crate) broadcast proof fn lemma_slots_is_char(state: State, builder: usize, word: Operand, probe: usize)
    ensures
        #![trigger is_char_steps(state, builder, word), counted(probe)]
        quiet(state, is_char_steps(state, builder, word).0, probe),
{
    broadcast use {lemma_one_more, group_continues};

    assert(counted(probe));
    reveal(is_char_steps);
}

pub(crate) broadcast proof fn lemma_slots_char_operand(
    state: State,
    builder: usize,
    function: FunctionRef,
    word: Operand,
    probe: usize,
)
    ensures
        #![trigger char_operand_steps(state, builder, function, word), counted(probe)]
        quiet(state, char_operand_steps(state, builder, function, word).0, probe),
{
    broadcast use {lemma_one_more, group_continues, lemma_slots_trap_if_false, lemma_slots_is_char};

    assert(counted(probe));
    reveal(char_operand_steps);
}

pub(crate) broadcast proof fn lemma_slots_convert_argument_value(
    state: State,
    builder: usize,
    value: Val,
    kind: AbiValueKind,
    context: Seq<char>,
    probe: usize,
)
    ensures
        #![trigger convert_argument_value_steps(state, builder, value, kind, context), counted(probe)]
        convert_argument_value_steps(state, builder, value, kind, context) matches Ok((after, _))
            ==> quiet(state, after, probe),
{
    broadcast use {lemma_one_more, group_continues, lemma_slots_value_to_word};

    assert(counted(probe));
    reveal(convert_argument_value_steps);
}

pub(crate) broadcast proof fn lemma_slots_word_to_codegen_value(
    state: State,
    builder: usize,
    word: Operand,
    kind: AbiValueKind,
    probe: usize,
)
    ensures
        #![trigger word_to_codegen_value_steps(state, builder, word, kind), counted(probe)]
        quiet(state, word_to_codegen_value_steps(state, builder, word, kind).0, probe),
{
    broadcast use {lemma_one_more, group_continues};

    assert(counted(probe));
    reveal(word_to_codegen_value_steps);
}

pub(crate) broadcast proof fn lemma_slots_load_list_element(
    state: State,
    builder: usize,
    list: Operand,
    index: usize,
    kind: AbiValueKind,
    probe: usize,
)
    ensures
        #![trigger load_list_element_steps(state, builder, list, index, kind), counted(probe)]
        quiet(state, load_list_element_steps(state, builder, list, index, kind).0, probe),
{
    broadcast use {lemma_one_more, group_continues, lemma_slots_word_to_codegen_value};

    assert(counted(probe));
    reveal(load_list_element_steps);
}

pub(crate) broadcast proof fn lemma_slots_list_tail_word(
    state: State,
    builder: usize,
    list: Operand,
    index: usize,
    probe: usize,
)
    ensures
        #![trigger list_tail_word_steps(state, builder, list, index), counted(probe)]
        quiet(state, list_tail_word_steps(state, builder, list, index).0, probe),
{
    broadcast use {lemma_one_more, group_continues};

    assert(counted(probe));
    reveal(list_tail_word_steps);
}

pub(crate) broadcast proof fn lemma_slots_branch_on_pending_exception(
    state: State,
    builder: usize,
    function: FunctionRef,
    probe: usize,
)
    ensures
        #![trigger branch_on_pending_exception_steps(state, builder, function), counted(probe)]
        quiet(state, branch_on_pending_exception_steps(state, builder, function), probe),
{
    broadcast use {lemma_one_more, group_continues};

    assert(counted(probe));
    reveal(branch_on_pending_exception_steps);
}

pub(crate) broadcast proof fn lemma_slots_scheme_callable_parts(
    state: State,
    builder: usize,
    callee: Val,
    probe: usize,
)
    ensures
        #![trigger scheme_callable_parts_steps(state, builder, callee), counted(probe)]
        scheme_callable_parts_steps(state, builder, callee) matches Ok((after, _))
            ==> quiet(state, after, probe),
{
    broadcast use {lemma_one_more, group_continues, lemma_slots_load_element};

    assert(counted(probe));
    reveal(scheme_callable_parts_steps);
    reveal(load_closure_code_ptr_steps);
}

pub(crate) broadcast proof fn lemma_slots_emit_trampoline_call(
    state: State,
    builder: usize,
    callee: Val,
    signature: Signature,
    args_list: Operand,
    probe: usize,
)
    ensures
        #![trigger emit_trampoline_call_steps(state, builder, callee, signature, args_list), counted(probe)]
        emit_trampoline_call_steps(state, builder, callee, signature, args_list) matches Ok((after, _))
            ==> quiet(state, after, probe),
{
    broadcast use {lemma_one_more, group_continues, lemma_slots_word_to_codegen_value, lemma_slots_scheme_callable_parts};

    assert(counted(probe));
    reveal(emit_trampoline_call_steps);
}

/// Calling a procedure leaves no slot with the collector.
pub broadcast proof fn lemma_call_leaves_no_slot(
    state: State,
    builder: usize,
    callee: Val,
    signature: Signature,
    args: Seq<Argument>,
    probe: usize,
)
    ensures
        #![trigger emit_callable_call_steps(state, builder, callee, signature, args), counted(probe)]
        emit_callable_call_steps(state, builder, callee, signature, args) matches Ok((after, _))
            ==> quiet(state, after, probe),
{
    broadcast use {lemma_one_more, group_continues, lemma_slots_build_scheme_args_list, lemma_slots_emit_trampoline_call};

    assert(counted(probe));
    reveal(emit_callable_call_steps);
}

/// Keeping a procedure reachable takes a slot where it is an object.
pub broadcast proof fn lemma_root_callable_leaves_one(state: State, builder: usize, callee: Val, probe: usize)
    ensures
        #![trigger root_callable_value_steps(state, builder, callee), counted(probe)]
        root_callable_value_steps(state, builder, callee) matches Ok((after, value))
            ==> quietly_moves(state, after, builder, (if value is Closure { 1int } else { 0int }), probe),
{
    broadcast use {lemma_one_more, group_continues, lemma_root_word_leaves_one};

    assert(counted(probe));
    reveal(root_callable_value_steps);
}

/// The same for a procedure that was kept reachable.
pub broadcast proof fn lemma_rooted_call_leaves_no_slot(
    state: State,
    builder: usize,
    callee: RootedVal,
    signature: Signature,
    args: Seq<Argument>,
    probe: usize,
)
    ensures
        #![trigger emit_rooted_callable_call_steps(state, builder, callee, signature, args), counted(probe)]
        emit_rooted_callable_call_steps(state, builder, callee, signature, args) matches Ok((after, _))
            ==> quiet(state, after, probe),
{
    broadcast use {lemma_one_more, group_continues, lemma_slots_load_rooted_word, lemma_call_leaves_no_slot};

    assert(counted(probe));
    reveal(emit_rooted_callable_call_steps);
}

/// Asking for a tail call has the collector forget the slots of the frame.
pub broadcast proof fn lemma_tail_request_forgets_the_frame(
    state: State,
    builder: usize,
    return_kind: AbiValueKind,
    callee: Val,
    signature: Signature,
    args_list: Operand,
    cleanup_roots: nat,
    probe: usize,
)
    ensures
        #![trigger
            emit_tail_request_steps(state, builder, return_kind, callee, signature, args_list, cleanup_roots),
            counted(probe)]
        emit_tail_request_steps(
            state,
            builder,
            return_kind,
            callee,
            signature,
            args_list,
            cleanup_roots,
        ) matches Ok((after, _)) ==> quietly_moves(state, after, builder, -cleanup_roots, probe),
{
    broadcast use {lemma_one_more, group_continues, lemma_popped_slots_forgotten, lemma_slots_scheme_callable_parts};

    assert(counted(probe));
    reveal(emit_tail_request_steps);
}

/// Returning has the collector forget the slots of the frame.
pub broadcast proof fn lemma_return_forgets_the_frame(
    state: State,
    builder: usize,
    cleanup_roots: nat,
    return_kind: AbiValueKind,
    value: Val,
    probe: usize,
)
    ensures
        #![trigger tail_return_value_steps(state, builder, cleanup_roots, return_kind, value), counted(probe)]
        tail_return_value_steps(state, builder, cleanup_roots, return_kind, value) matches Ok((after, _))
            ==> quietly_moves(state, after, builder, -cleanup_roots, probe),
{
    broadcast use {lemma_one_more, group_continues, lemma_popped_slots_forgotten, lemma_slots_value_to_word};

    assert(counted(probe));
    reveal(tail_return_value_steps);
}

pub(crate) broadcast proof fn lemma_slots_emit_exception_return_block(
    state: State,
    exception_block: usize,
    return_kind: AbiValueKind,
    rooted_slots: nat,
    probe: usize,
)
    ensures
        #![trigger
            emit_exception_return_block_steps(state, exception_block, return_kind, rooted_slots),
            counted(probe)]
        steady(
            state,
            emit_exception_return_block_steps(state, exception_block, return_kind, rooted_slots),
            probe,
        ),
{
    broadcast use {lemma_one_more, group_continues, lemma_popped_slots_forgotten};

    assert(counted(probe));
    reveal(emit_exception_return_block_steps);
}

pub(crate) broadcast proof fn lemma_slots_resolve_callable_value(
    state: State,
    builder: usize,
    value: Val,
    arg_count: nat,
    probe: usize,
)
    ensures
        #![trigger resolve_callable_value_steps(state, builder, value, arg_count), counted(probe)]
        resolve_callable_value_steps(state, builder, value, arg_count) matches Ok((after, _))
            ==> quiet(state, after, probe),
{
    broadcast use {lemma_one_more, group_continues, lemma_slots_load_rooted_word};

    assert(counted(probe));
    reveal(resolve_callable_value_steps);
}

pub(crate) broadcast proof fn lemma_slots_phi(
    state: State,
    builder: usize,
    ty: IrType,
    first: Operand,
    first_block: usize,
    second: Operand,
    second_block: usize,
    probe: usize,
)
    ensures
        #![trigger phi_steps(state, builder, ty, first, first_block, second, second_block), counted(probe)]
        quiet(state, phi_steps(state, builder, ty, first, first_block, second, second_block).0, probe),
{
    broadcast use {lemma_one_more, group_continues};

    assert(counted(probe));
    reveal(phi_steps);
}

pub(crate) broadcast proof fn lemma_slots_merge_branch_values(
    state: State,
    builder: usize,
    then_value: Val,
    then_block: usize,
    else_value: Val,
    else_block: usize,
    probe: usize,
)
    ensures
        #![trigger
            merge_branch_values_steps(state, builder, then_value, then_block, else_value, else_block),
            counted(probe)]
        merge_branch_values_steps(
            state,
            builder,
            then_value,
            then_block,
            else_value,
            else_block,
        ) matches Ok((after, _)) ==> quiet(state, after, probe),
{
    broadcast use {lemma_one_more, group_continues, lemma_slots_phi};

    assert(counted(probe));
    reveal(merge_branch_values_steps);
}

pub(crate) broadcast proof fn lemma_slots_string_literal(
    state: State,
    builder: usize,
    text: Seq<char>,
    probe: usize,
)
    ensures
        #![trigger string_literal_steps(state, builder, text), counted(probe)]
        quiet(state, string_literal_steps(state, builder, text).0, probe),
{
    broadcast use {lemma_one_more, group_continues};

    assert(counted(probe));
    reveal(string_literal_steps);
    reveal(literal_steps);
}

pub(crate) broadcast proof fn lemma_slots_symbol_literal(
    state: State,
    builder: usize,
    text: Seq<char>,
    probe: usize,
)
    ensures
        #![trigger symbol_literal_steps(state, builder, text), counted(probe)]
        quiet(state, symbol_literal_steps(state, builder, text).0, probe),
{
    broadcast use {lemma_one_more, group_continues};

    assert(counted(probe));
    reveal(symbol_literal_steps);
    reveal(literal_steps);
}

pub(crate) broadcast proof fn lemma_slots_variable(
    state: State,
    builder: usize,
    env: Env,
    name: Seq<char>,
    probe: usize,
)
    ensures
        #![trigger variable_steps(state, builder, env, name), counted(probe)]
        variable_steps(state, builder, env, name) matches Ok((after, _)) ==> quiet(state, after, probe),
{
    broadcast use {lemma_one_more, group_continues, lemma_slots_load_element, lemma_slots_load_rooted_word};

    assert(counted(probe));
    reveal(variable_steps);
    reveal(load_box_word_steps);
}

pub(crate) broadcast proof fn lemma_slots_truth(state: State, builder: usize, value: Val, probe: usize)
    ensures
        #![trigger truth_steps(state, builder, value), counted(probe)]
        truth_steps(state, builder, value) matches Ok((after, _)) ==> quiet(state, after, probe),
{
    broadcast use {lemma_one_more, group_continues};

    assert(counted(probe));
    reveal(truth_steps);
}

pub(crate) broadcast proof fn lemma_slots_bind(
    state: State,
    builder: usize,
    env: Env,
    rooted: nat,
    name: Seq<char>,
    value: Val,
    assigned: Set<Seq<char>>,
    changed: Set<Seq<char>>,
    probe: usize,
)
    ensures
        #![trigger bind_steps(state, builder, env, rooted, name, value, assigned, changed), counted(probe)]
        quietly_moves(
            state,
            bind_steps(state, builder, env, rooted, name, value, assigned, changed).0,
            builder,
            bind_steps(state, builder, env, rooted, name, value, assigned, changed).1.1 - rooted,
            probe,
        ),
{
    broadcast use {lemma_one_more, group_continues, lemma_root_word_leaves_one, lemma_slots_value_to_word};

    assert(counted(probe));
    reveal(bind_steps);
    reveal(box_value_steps);
}

pub(crate) broadcast proof fn lemma_slots_guard_handler(
    state: State,
    builder: usize,
    env: Env,
    handler_block: usize,
    name: Seq<char>,
    probe: usize,
)
    ensures
        #![trigger guard_handler_steps(state, builder, env, handler_block, name), counted(probe)]
        quiet(state, guard_handler_steps(state, builder, env, handler_block, name).0, probe),
{
    broadcast use {lemma_one_more, group_continues};

    assert(counted(probe));
    reveal(guard_handler_steps);
}

pub(crate) broadcast proof fn lemma_slots_fold(
    state: State,
    builder: usize,
    op: BinaryOp,
    first: Operand,
    operands: Seq<Operand>,
    start: nat,
    end: nat,
    probe: usize,
)
    ensures
        #![trigger fold_steps(state, builder, op, first, operands, start, end), counted(probe)]
        quiet(state, fold_steps(state, builder, op, first, operands, start, end).0, probe),
    decreases end,
{
    broadcast use {lemma_one_more, group_continues};

    assert(counted(probe));
    reveal(fold_steps);
    if start < end <= operands.len() {
        lemma_slots_fold(state, builder, op, first, operands, start, (end - 1) as nat, probe);
    }
}

pub(crate) broadcast proof fn lemma_slots_chain(
    state: State,
    builder: usize,
    predicate: Predicate,
    operands: Seq<Operand>,
    count: nat,
    probe: usize,
)
    ensures
        #![trigger chain_steps(state, builder, predicate, operands, count), counted(probe)]
        quiet(state, chain_steps(state, builder, predicate, operands, count).0, probe),
    decreases count,
{
    broadcast use {lemma_one_more, group_continues};

    assert(counted(probe));
    reveal(chain_steps);
    if 0 < count < operands.len() {
        lemma_slots_chain(state, builder, predicate, operands, (count - 1) as nat, probe);
    }
}

pub(crate) broadcast proof fn lemma_slots_answer(
    state: State,
    builder: usize,
    condition: Operand,
    probe: usize,
)
    ensures
        #![trigger answer_steps(state, builder, condition), counted(probe)]
        answer_steps(state, builder, condition) matches Ok((after, _)) ==> quiet(state, after, probe),
{
    broadcast use {lemma_one_more, group_continues, lemma_slots_tagged_bool};

    assert(counted(probe));
    reveal(answer_steps);
}

pub(crate) broadcast proof fn lemma_slots_pair_store(
    state: State,
    builder: usize,
    pair: Val,
    value: Val,
    set_car: bool,
    probe: usize,
)
    ensures
        #![trigger pair_store_steps(state, builder, pair, value, set_car), counted(probe)]
        quiet(state, pair_store_steps(state, builder, pair, value, set_car).0, probe),
{
    broadcast use {lemma_one_more, group_continues, lemma_slots_load_rooted_word, lemma_slots_value_to_word};

    assert(counted(probe));
    reveal(pair_store_steps);
}

pub(crate) broadcast proof fn lemma_slots_vector_store(
    state: State,
    builder: usize,
    vector: Val,
    place: Operand,
    element: Val,
    probe: usize,
)
    ensures
        #![trigger vector_store_steps(state, builder, vector, place, element), counted(probe)]
        quiet(state, vector_store_steps(state, builder, vector, place, element).0, probe),
{
    broadcast use {lemma_one_more, group_continues, lemma_slots_value_to_word};

    assert(counted(probe));
    reveal(vector_store_steps);
}

pub(crate) broadcast proof fn lemma_slots_copy_slots(
    state: State,
    builder: usize,
    slots: Seq<Operand>,
    elements: Operand,
    count: nat,
    probe: usize,
)
    ensures
        #![trigger copy_slots_steps(state, builder, slots, elements, count), counted(probe)]
        quiet(state, copy_slots_steps(state, builder, slots, elements, count), probe),
    decreases count,
{
    broadcast use {lemma_one_more, group_continues, lemma_slots_load_rooted_word};

    assert(counted(probe));
    reveal(copy_slots_steps);
    if 0 < count <= slots.len() {
        lemma_slots_copy_slots(state, builder, slots, elements, (count - 1) as nat, probe);
    }
}

pub(crate) broadcast proof fn lemma_slots_packet_args(
    state: State,
    builder: usize,
    packet: Operand,
    kinds: Seq<AbiValueKind>,
    count: nat,
    probe: usize,
)
    ensures
        #![trigger packet_args_steps(state, builder, packet, kinds, count), counted(probe)]
        packet_args_steps(state, builder, packet, kinds, count) matches Ok((after, _))
            ==> quiet(state, after, probe),
    decreases count,
{
    broadcast use {lemma_one_more, group_continues, lemma_slots_convert_argument_value, lemma_slots_word_to_codegen_value};

    assert(counted(probe));
    reveal(packet_args_steps);
    reveal(load_values_element_steps);
    if 0 < count <= kinds.len() {
        lemma_slots_packet_args(state, builder, packet, kinds, (count - 1) as nat, probe);
    }
}

pub(crate) broadcast proof fn lemma_slots_packet_consumer(
    state: State,
    builder: usize,
    function: FunctionRef,
    consumer: RootedVal,
    signature: Signature,
    produced_slot: Operand,
    probe: usize,
)
    ensures
        #![trigger
            packet_consumer_steps(state, builder, function, consumer, signature, produced_slot),
            counted(probe)]
        packet_consumer_steps(
            state,
            builder,
            function,
            consumer,
            signature,
            produced_slot,
        ) matches Ok((after, _)) ==> quiet(state, after, probe),
{
    broadcast use {
        lemma_one_more,
        group_continues,
        lemma_slots_load_rooted_word,
        lemma_slots_trap_if_false,
        lemma_slots_fixnum_operand,
        lemma_rooted_call_leaves_no_slot,
        lemma_slots_packet_args,
    };

    assert(counted(probe));
    reveal(packet_consumer_steps);
    reveal(check_length_steps);
}

pub(crate) broadcast proof fn lemma_slots_single_consumer(
    state: State,
    builder: usize,
    consumer: RootedVal,
    signature: Signature,
    produced_slot: Operand,
    probe: usize,
)
    ensures
        #![trigger single_consumer_steps(state, builder, consumer, signature, produced_slot), counted(probe)]
        single_consumer_steps(state, builder, consumer, signature, produced_slot) matches Ok((after, _))
            ==> quiet(state, after, probe),
{
    broadcast use {
        lemma_one_more,
        group_continues,
        lemma_slots_load_rooted_word,
        lemma_slots_list_of_words,
        lemma_slots_convert_argument_value,
        lemma_slots_word_to_codegen_value,
        lemma_rooted_call_leaves_no_slot,
    };

    assert(counted(probe));
    reveal(single_consumer_steps);
}

/// Handing the values of one procedure to another leaves no slot with the collector.
pub broadcast proof fn lemma_consumed_values_leave_no_slot(
    state: State,
    builder: usize,
    function: FunctionRef,
    producer: Val,
    producer_signature: Signature,
    consumer: Val,
    signature: Signature,
    probe: usize,
)
    ensures
        #![trigger
            consume_values_steps(state, builder, function, producer, producer_signature, consumer, signature),
            counted(probe)]
        consume_values_steps(
            state,
            builder,
            function,
            producer,
            producer_signature,
            consumer,
            signature,
        ) matches Ok((after, _)) ==> quiet(state, after, probe),
{
    broadcast use {
        lemma_one_more,
        group_continues,
        lemma_slots_load_rooted_word,
        lemma_root_word_leaves_one,
        lemma_popped_slots_forgotten,
        lemma_slots_value_to_word,
        lemma_call_leaves_no_slot,
        lemma_root_callable_leaves_one,
        lemma_slots_merge_branch_values,
        lemma_slots_packet_consumer,
        lemma_slots_single_consumer,
    };

    assert(counted(probe));
    reveal(consume_values_steps);
}

pub(crate) broadcast proof fn lemma_slots_apply_list_args(
    state: State,
    builder: usize,
    list: Operand,
    kinds: Seq<AbiValueKind>,
    from: nat,
    count: nat,
    probe: usize,
)
    ensures
        #![trigger apply_list_args_steps(state, builder, list, kinds, from, count), counted(probe)]
        apply_list_args_steps(state, builder, list, kinds, from, count) matches Ok((after, _))
            ==> quiet(state, after, probe),
    decreases count,
{
    broadcast use {lemma_one_more, group_continues, lemma_slots_convert_argument_value, lemma_slots_load_list_element};

    assert(counted(probe));
    reveal(apply_list_args_steps);
    if from < count <= kinds.len() {
        lemma_slots_apply_list_args(state, builder, list, kinds, from, (count - 1) as nat, probe);
    }
}

pub(crate) broadcast proof fn lemma_slots_same_lengths(
    state: State,
    builder: usize,
    function: FunctionRef,
    lengths: Seq<Operand>,
    count: nat,
    probe: usize,
)
    ensures
        #![trigger same_lengths_steps(state, builder, function, lengths, count), counted(probe)]
        quiet(state, same_lengths_steps(state, builder, function, lengths, count), probe),
    decreases count,
{
    broadcast use {lemma_one_more, group_continues, lemma_slots_trap_if_false};

    assert(counted(probe));
    reveal(same_lengths_steps);
    if 1 < count <= lengths.len() {
        lemma_slots_same_lengths(state, builder, function, lengths, (count - 1) as nat, probe);
    }
}

pub(crate) broadcast proof fn lemma_slots_iteration_args(
    state: State,
    builder: usize,
    kinds: Seq<AbiValueKind>,
    slots: Seq<Operand>,
    index: Operand,
    count: nat,
    probe: usize,
)
    ensures
        #![trigger iteration_args_steps(state, builder, kinds, slots, index, count), counted(probe)]
        iteration_args_steps(state, builder, kinds, slots, index, count) matches Ok((after, _))
            ==> quiet(state, after, probe),
    decreases count,
{
    broadcast use {
        lemma_one_more,
        group_continues,
        lemma_slots_load_rooted_word,
        lemma_slots_convert_argument_value,
        lemma_slots_word_to_codegen_value,
    };

    assert(counted(probe));
    reveal(iteration_args_steps);
    if 0 < count <= slots.len() {
        lemma_slots_iteration_args(state, builder, kinds, slots, index, (count - 1) as nat, probe);
    }
}

/// The loop of `map` and `for-each` has the collector forget the slots of the lists, and that of the
/// procedure where it has one, and leaves no other.
pub broadcast proof fn lemma_iteration_forgets_its_slots(
    state: State,
    builder: usize,
    function: FunctionRef,
    callable: RootedVal,
    signature: Signature,
    slots: Seq<Operand>,
    lengths: Seq<Operand>,
    collect: bool,
    probe: usize,
)
    ensures
        #![trigger
            iteration_loop_steps(state, builder, function, callable, signature, slots, lengths, collect),
            counted(probe)]
        iteration_loop_steps(
            state,
            builder,
            function,
            callable,
            signature,
            slots,
            lengths,
            collect,
        ) matches Ok((after, _)) ==> quietly_moves(
                state,
                after,
                builder,
                -slots.len() - (if callable is Closure { 1int } else { 0int }),
                probe,
            ),
{
    broadcast use {
        lemma_one_more,
        group_continues,
        lemma_slots_load_rooted_word,
        lemma_root_word_leaves_one,
        lemma_popped_slots_forgotten,
        lemma_slots_value_to_word,
        lemma_slots_cons_word,
        lemma_slots_list_of_words,
        lemma_rooted_call_leaves_no_slot,
        lemma_slots_same_lengths,
        lemma_slots_iteration_args,
    };

    assert(counted(probe));
    reveal(iteration_loop_steps);
}

#[verifier::rlimit(30)]
pub(crate) broadcast proof fn lemma_slots_unary_builtin(
    state: State,
    builder: usize,
    function: FunctionRef,
    name: Seq<char>,
    value: Val,
    probe: usize,
)
    ensures
        #![trigger unary_builtin_steps(state, builder, function, name, value), counted(probe)]
        unary_builtin_steps(state, builder, function, name, value) matches Ok((after, _))
            ==> quiet(state, after, probe),
{
    broadcast use {
        lemma_one_more,
        group_continues,
        lemma_slots_value_to_word,
        lemma_slots_trap_if_false,
        lemma_slots_fixnum_operand,
        lemma_slots_encode_fixnum_value,
        lemma_slots_is_char,
        lemma_slots_char_operand,
        lemma_slots_answer,
    };

    assert(counted(probe));
    reveal(unary_builtin_steps);
    reveal(not_steps);
    reveal(boolean_predicate_steps);
    reveal(zero_predicate_steps);
    reveal(char_predicate_steps);
    reveal(char_to_integer_steps);
    reveal(integer_to_char_steps);
    reveal(symbol_predicate_steps);
    reveal(procedure_predicate_steps);
    reveal(pair_predicate_steps);
    reveal(list_predicate_steps);
    reveal(null_predicate_steps);
    reveal(kind_predicate_steps);
    reveal(unary_runtime_steps);
    reveal(length_steps);
    reveal(pair_access_steps);
    reveal(gc_stress_steps);
}

#[verifier::rlimit(30)]
pub(crate) broadcast proof fn lemma_slots_binary_builtin(
    state: State,
    builder: usize,
    function: FunctionRef,
    name: Seq<char>,
    first: Val,
    second: Val,
    probe: usize,
)
    ensures
        #![trigger binary_builtin_steps(state, builder, function, name, first, second), counted(probe)]
        binary_builtin_steps(state, builder, function, name, first, second) matches Ok((after, _))
            ==> quiet(state, after, probe),
{
    broadcast use {
        lemma_one_more,
        group_continues,
        lemma_slots_load_rooted_word,
        lemma_slots_value_to_word,
        lemma_slots_fixnum_operand,
        lemma_slots_answer,
    };

    assert(counted(probe));
    reveal(binary_builtin_steps);
    reveal(compare_codegen_values_steps);
    reveal(reference_steps);
    reveal(list_place_steps);
    reveal(binary_runtime_steps);
    reveal(compare_gc_pointers_steps);
    reveal(element_steps);
}

pub(crate) broadcast proof fn lemma_slots_bind_params(
    state: State,
    builder: usize,
    function: FunctionRef,
    skip: usize,
    signature: Signature,
    name: Seq<char>,
    required: Seq<Seq<char>>,
    count: nat,
    env: Env,
    assigned: Set<Seq<char>>,
    changed: Set<Seq<char>>,
    probe: usize,
)
    ensures
        #![trigger
            bind_params_steps(state, builder, function, skip, signature, name, required, count, env, assigned, changed),
            counted(probe)]
        bind_params_steps(
            state,
            builder,
            function,
            skip,
            signature,
            name,
            required,
            count,
            env,
            assigned,
            changed,
        ) matches Ok((after, value)) ==> quietly_moves(state, after, builder, value.1 as int, probe),
    decreases count,
{
    broadcast use {lemma_one_more, group_continues, lemma_slots_bind};

    assert(counted(probe));
    reveal(bind_params_steps);
    if 0 < count <= required.len() {
        lemma_slots_bind_params(
            state,
            builder,
            function,
            skip,
            signature,
            name,
            required,
            (count - 1) as nat,
            env,
            assigned,
            changed,
            probe,
        );
    }
}

pub(crate) broadcast proof fn lemma_slots_bind_formals(
    state: State,
    builder: usize,
    function: FunctionRef,
    skip: usize,
    signature: Signature,
    name: Seq<char>,
    formals: Params,
    env: Env,
    assigned: Set<Seq<char>>,
    changed: Set<Seq<char>>,
    probe: usize,
)
    ensures
        #![trigger
            bind_formals_steps(state, builder, function, skip, signature, name, formals, env, assigned, changed),
            counted(probe)]
        bind_formals_steps(
            state,
            builder,
            function,
            skip,
            signature,
            name,
            formals,
            env,
            assigned,
            changed,
        ) matches Ok((after, value)) ==> quietly_moves(state, after, builder, value.1 as int, probe),
{
    broadcast use {lemma_one_more, group_continues, lemma_slots_bind, lemma_slots_bind_params};

    assert(counted(probe));
    reveal(bind_formals_steps);
}

pub(crate) broadcast proof fn lemma_slots_bind_captures(
    state: State,
    builder: usize,
    closure: Operand,
    captures: Seq<(Seq<char>, NameKind)>,
    count: nat,
    probe: usize,
)
    ensures
        #![trigger bind_captures_steps(state, builder, closure, captures, count), counted(probe)]
        quiet(state, bind_captures_steps(state, builder, closure, captures, count).0, probe),
    decreases count,
{
    broadcast use {lemma_one_more, group_continues, lemma_slots_load_element};

    assert(counted(probe));
    reveal(bind_captures_steps);
    reveal(load_closure_env_word_steps);
    if 0 < count <= captures.len() {
        lemma_slots_bind_captures(state, builder, closure, captures, (count - 1) as nat, probe);
    }
}

pub(crate) broadcast proof fn lemma_slots_wrapper_args(
    state: State,
    builder: usize,
    args_list: Operand,
    kinds: Seq<AbiValueKind>,
    count: nat,
    context: Seq<char>,
    probe: usize,
)
    ensures
        #![trigger wrapper_args_steps(state, builder, args_list, kinds, count, context), counted(probe)]
        wrapper_args_steps(state, builder, args_list, kinds, count, context) matches Ok((after, _))
            ==> quiet(state, after, probe),
    decreases count,
{
    broadcast use {lemma_one_more, group_continues, lemma_slots_convert_argument_value, lemma_slots_load_list_element};

    assert(counted(probe));
    reveal(wrapper_args_steps);
    if 0 < count <= kinds.len() {
        lemma_slots_wrapper_args(state, builder, args_list, kinds, (count - 1) as nat, context, probe);
    }
}

pub(crate) broadcast proof fn lemma_slots_scheme_wrapper(
    state: State,
    wrapper: usize,
    target: usize,
    signature: Signature,
    takes_rest: bool,
    takes_closure: bool,
    context: Seq<char>,
    message: Seq<char>,
    probe: usize,
)
    ensures
        #![trigger
            scheme_wrapper_steps(state, wrapper, target, signature, takes_rest, takes_closure, context, message),
            counted(probe)]
        scheme_wrapper_steps(
            state,
            wrapper,
            target,
            signature,
            takes_rest,
            takes_closure,
            context,
            message,
        ) matches Ok((after, _)) ==> steady(state, after, probe),
{
    broadcast use {
        lemma_one_more,
        group_continues,
        lemma_slots_trap_if_false,
        lemma_slots_fixnum_operand,
        lemma_slots_list_tail_word,
        lemma_slots_wrapper_args,
    };

    assert(counted(probe));
    reveal(scheme_wrapper_steps);
    reveal(check_length_steps);
    reveal(wrapper_return_steps);
}

pub(crate) broadcast proof fn lemma_slots_direct_scheme_wrapper(
    state: State,
    info: Callable,
    formals: Params,
    name: Seq<char>,
    probe: usize,
)
    ensures
        #![trigger direct_scheme_wrapper_steps(state, info, formals, name), counted(probe)]
        direct_scheme_wrapper_steps(state, info, formals, name) matches Ok((after, _))
            ==> steady(state, after, probe),
{
    broadcast use {lemma_one_more, group_continues, lemma_slots_scheme_wrapper};

    assert(counted(probe));
    reveal(direct_scheme_wrapper_steps);
}

pub(crate) broadcast proof fn lemma_slots_closure_scheme_wrapper(
    state: State,
    wrapper: usize,
    function: usize,
    signature: Signature,
    formals: Params,
    name: Seq<char>,
    probe: usize,
)
    ensures
        #![trigger
            closure_scheme_wrapper_steps(state, wrapper, function, signature, formals, name),
            counted(probe)]
        closure_scheme_wrapper_steps(
            state,
            wrapper,
            function,
            signature,
            formals,
            name,
        ) matches Ok((after, _)) ==> steady(state, after, probe),
{
    broadcast use {lemma_one_more, group_continues, lemma_slots_scheme_wrapper};

    assert(counted(probe));
    reveal(closure_scheme_wrapper_steps);
}

pub(crate) broadcast proof fn lemma_slots_fill_captures(
    state: State,
    builder: usize,
    env: Env,
    values: Operand,
    captures: Seq<(Seq<char>, NameKind)>,
    count: nat,
    probe: usize,
)
    ensures
        #![trigger fill_captures_steps(state, builder, env, values, captures, count), counted(probe)]
        fill_captures_steps(state, builder, env, values, captures, count) matches Ok((after, _))
            ==> quiet(state, after, probe),
    decreases count,
{
    broadcast use {lemma_one_more, group_continues, lemma_slots_value_to_word};

    assert(counted(probe));
    reveal(fill_captures_steps);
    if 0 < count <= captures.len() {
        lemma_slots_fill_captures(state, builder, env, values, captures, (count - 1) as nat, probe);
    }
}

pub(crate) broadcast proof fn lemma_slots_closure_allocation(
    state: State,
    builder: usize,
    env: Env,
    wrapper: usize,
    signature: Signature,
    captures: Seq<(Seq<char>, NameKind)>,
    probe: usize,
)
    ensures
        #![trigger closure_allocation_steps(state, builder, env, wrapper, signature, captures), counted(probe)]
        closure_allocation_steps(state, builder, env, wrapper, signature, captures) matches Ok((after, _))
            ==> quiet(state, after, probe),
{
    broadcast use {lemma_one_more, group_continues, lemma_slots_fill_captures};

    assert(counted(probe));
    reveal(closure_allocation_steps);
}

pub(crate) broadcast proof fn lemma_slots_letrec_declare(
    state: State,
    signatures: Map<Seq<char>, Signature>,
    env: Env,
    bindings: Seq<Binding>,
    count: nat,
    probe: usize,
)
    ensures
        #![trigger letrec_declare_steps(state, signatures, env, bindings, count), counted(probe)]
        letrec_declare_steps(state, signatures, env, bindings, count) matches Ok((after, _))
            ==> quiet(state, after, probe),
    decreases count,
{
    broadcast use {lemma_one_more, group_continues};

    assert(counted(probe));
    reveal(letrec_declare_steps);
    if 0 < count <= bindings.len() {
        lemma_slots_letrec_declare(state, signatures, env, bindings, (count - 1) as nat, probe);
    }
}

pub(crate) broadcast proof fn lemma_slots_letrec_allocate(
    state: State,
    builder: usize,
    provisional: Env,
    bindings: Seq<Binding>,
    declared: Seq<Declared>,
    count: nat,
    probe: usize,
)
    ensures
        #![trigger
            letrec_allocate_steps(state, builder, provisional, bindings, declared, count),
            counted(probe)]
        quiet(state, letrec_allocate_steps(state, builder, provisional, bindings, declared, count).0, probe),
    decreases count,
{
    broadcast use {lemma_one_more, group_continues, lemma_slots_allocate_placeholder_closure};

    assert(counted(probe));
    reveal(letrec_allocate_steps);
    if 0 < count <= bindings.len() {
        lemma_slots_letrec_allocate(
            state,
            builder,
            provisional,
            bindings,
            declared,
            (count - 1) as nat,
            probe,
        );
    }
}

pub(crate) broadcast proof fn lemma_slots_set_captures(
    state: State,
    builder: usize,
    closure: Operand,
    scope: Env,
    binding: Seq<char>,
    captures: Seq<(Seq<char>, NameKind)>,
    count: nat,
    probe: usize,
)
    ensures
        #![trigger
            set_captures_steps(state, builder, closure, scope, binding, captures, count),
            counted(probe)]
        set_captures_steps(state, builder, closure, scope, binding, captures, count) matches Ok((after, _))
            ==> quiet(state, after, probe),
    decreases count,
{
    broadcast use {lemma_one_more, group_continues, lemma_slots_value_to_word};

    assert(counted(probe));
    reveal(set_captures_steps);
    if 0 < count <= captures.len() {
        lemma_slots_set_captures(state, builder, closure, scope, binding, captures, (count - 1) as nat, probe);
    }
}

pub(crate) broadcast proof fn lemma_slots_letrec_capture(
    state: State,
    builder: usize,
    scope: Env,
    bound: Env,
    captured: Captured,
    bindings: Seq<Binding>,
    count: nat,
    probe: usize,
)
    ensures
        #![trigger
            letrec_capture_steps(state, builder, scope, bound, captured, bindings, count),
            counted(probe)]
        letrec_capture_steps(state, builder, scope, bound, captured, bindings, count) matches Ok((after, _))
            ==> quiet(state, after, probe),
    decreases count,
{
    broadcast use {lemma_one_more, group_continues, lemma_slots_set_captures};

    assert(counted(probe));
    reveal(letrec_capture_steps);
    if 0 < count <= bindings.len() {
        lemma_slots_letrec_capture(
            state,
            builder,
            scope,
            bound,
            captured,
            bindings,
            (count - 1) as nat,
            probe,
        );
    }
}

} // verus!
