//! What the code of assignments and promises does: a variable is given the word of the value, and a promise
//! is run once.
use crate::backend::abi::RuntimeFunction;
use crate::backend::codegen::data_laws::{is_left, word_steps};
use crate::backend::codegen::expression_laws::lemma_slots_compile_expr;
use crate::backend::codegen::laws::{
    counted, lemma_call_leaves_no_slot, lemma_slots_branch_on_pending_exception, lemma_slots_value_to_word,
};
use crate::backend::codegen::meaning_laws::{is_calm, leaves, lemma_calm};
use crate::backend::codegen::plan::{compile_expr_steps, compile_set_steps, force_promise_steps, variable_steps};
use crate::backend::codegen::procedure_laws::{applied, argument_values, held_word, keeps_new_slots, lemma_call_computed};
use crate::backend::codegen::run_laws::{
    is_run, lemma_run_last, lemma_run_literals, lemma_standing, standing, values_of, Run,
};
use crate::backend::codegen::state::{
    block_steps, branch, branch_if, call_steps, emit_steps, position, value_steps, Env, State, Val,
};
use crate::backend::codegen::values::{
    branch_on_pending_exception_steps, emit_callable_call_steps, load_box_word_steps, load_element_steps, phi_steps,
    value_to_word_steps, word_of,
};
use crate::backend::ir::{group_continues, FunctionRef, Op, Operand};
use crate::backend::kinds::words_signature;
use crate::middle::hir::Expr;
use vstd::prelude::*;

verus! {

broadcast use vstd::seq_lib::group_seq_properties;

/// An assignment hands the runtime the cell of the variable and the word of the value.
pub proof fn lemma_assignment(
    run: Run,
    state: State,
    builder: usize,
    function: FunctionRef,
    env: Env,
    name: Seq<char>,
    value: Expr,
    from: int,
) -> (word: int)
    requires
        compile_set_steps(state, builder, function, env, name, value) matches Ok((after, _)) && is_run(
            run,
            after.trace,
            from,
        ),
        0 <= from <= state.trace.len(),
    ensures
        is_left(run, builder, function, env, value, word),
        env.contains_key(name) && env[name] is MutableBox,
        compile_set_steps(state, builder, function, env, name, value) matches Ok((after, result)) && leaves(
            run,
            result,
            (run.answers)(RuntimeFunction::BoxSetGc, seq![held_word(run, env[name]), word]),
        ),
{
    broadcast use {lemma_run_last, lemma_slots_value_to_word};

    assert(counted(0));
    let ptr = env[name]->MutableBox_ptr;
    let (first, compiled) = compile_expr_steps(state, builder, function, env, value)->Ok_0;
    lemma_slots_compile_expr(state, builder, function, env, value, 0);
    let (second, word) = value_to_word_steps(first, builder, compiled);
    assert(first.trace.len() <= second.trace.len());
    assert(values_of(run, seq![ptr, word]) =~= seq![(run.values)(ptr), (run.values)(word)]);
    assert(word_steps(state, builder, function, env, value) == Ok::<(State, Operand), Seq<char>>((second, word)));
    (run.values)(word)
}

/// A variable in a cell stands for the word in the cell.
pub proof fn lemma_cell_read(run: Run, state: State, builder: usize, env: Env, name: Seq<char>, from: int)
    requires
        env.contains_key(name),
        env[name] is MutableBox,
        variable_steps(state, builder, env, name) matches Ok((after, _)) && is_run(run, after.trace, from),
        0 <= from <= state.trace.len(),
    ensures
        variable_steps(state, builder, env, name) matches Ok((after, value)) && leaves(
            run,
            value,
            (run.fields)(held_word(run, env[name]), 2),
        ),
{
    broadcast use lemma_run_last;

    reveal(variable_steps);
    reveal(load_box_word_steps);
    reveal(load_element_steps);
}

/// Forcing a promise that has a value leaves the value. Otherwise its procedure is called without arguments,
/// and what the promise makes of the answer is left.
pub proof fn lemma_forced(
    run: Run,
    state: State,
    builder: usize,
    function: FunctionRef,
    promise: Operand,
    is_forced: RuntimeFunction,
    value_of: RuntimeFunction,
    resolve: RuntimeFunction,
    from: int,
)
    requires
        is_calm(run),
        force_promise_steps(state, builder, function, promise, is_forced, value_of, resolve) matches Ok((after, _))
            && is_run(run, after.trace, from) && after.trace.len() <= usize::MAX,
        0 <= from <= state.trace.len(),
        keeps_new_slots(run, state.trace),
        (run.reached)(standing(state.trace, builder)),
    ensures
        ({
            let object = (run.values)(promise);
            let held = (run.answers)(value_of, seq![object]);
            force_promise_steps(state, builder, function, promise, is_forced, value_of, resolve) matches Ok((after, value))
                && (run.reached)(standing(after.trace, builder)) && leaves(
                run,
                value,
                if (run.answers)(is_forced, seq![object]) == 1 {
                    held
                } else {
                    (run.answers)(resolve, seq![object, applied(run, (run.fields)(held, 2), held, 10)])
                },
            )
        }),
{
    broadcast use {
        group_continues,
        lemma_run_last,
        lemma_standing,
        lemma_call_leaves_no_slot,
        lemma_slots_branch_on_pending_exception,
    };

    assert(counted(0));
    reveal(force_promise_steps);
    let (after, value) = force_promise_steps(
        state,
        builder,
        function,
        promise,
        is_forced,
        value_of,
        resolve,
    )->Ok_0;
    lemma_run_literals(run, after.trace, from);
    assert(values_of(run, seq![promise]) =~= seq![(run.values)(promise)]);
    let (s1, forced) = call_steps(state, builder, is_forced, seq![promise]);
    let (s2, forced_block) = block_steps(s1, function);
    let (s3, evaluate_block) = block_steps(s2, function);
    let (s4, merge_block) = block_steps(s3, function);
    let s5 = branch_if(s4, builder, forced, forced_block, evaluate_block);
    let s6 = position(s5, builder, forced_block);
    let (s7, forced_value) = call_steps(s6, builder, value_of, seq![promise]);
    let s8 = branch(s7, builder, merge_block);
    let (s9, forced_exit) = emit_steps(s8, Op::InsertBlock { builder });
    let s10 = position(s9, builder, evaluate_block);
    let (s11, thunk_word) = call_steps(s10, builder, value_of, seq![promise]);
    let (s12, thunk_ptr) = value_steps(s11, Op::IntToPtr { builder, value: thunk_word });
    let signature = words_signature(0, false);
    let thunk = Val::Closure { ptr: thunk_ptr, signature };
    let (s13, result) = emit_callable_call_steps(s12, builder, thunk, signature, Seq::empty())->Ok_0;
    assert(s12.trace.len() <= s13.trace.len());
    let s14 = branch_on_pending_exception_steps(s13, builder, function);
    assert(s13.trace.len() <= s14.trace.len());
    let word = word_of(result, "promise force result"@)->Ok_0;
    let (s15, resolved) = call_steps(s14, builder, resolve, seq![promise, word]);
    let s16 = branch(s15, builder, merge_block);
    let (s17, evaluate_exit) = emit_steps(s16, Op::InsertBlock { builder });
    let s18 = position(s17, builder, merge_block);
    reveal(phi_steps);
    assert(is_run(run, s18.trace, from));
    assert(is_run(run, s17.trace, from));
    assert(is_run(run, s16.trace, from));
    assert(is_run(run, s15.trace, from));
    assert(is_run(run, s14.trace, from));
    assert(values_of(run, seq![promise, word]) =~= seq![(run.values)(promise), (run.values)(word)]);
    lemma_calm(run, s13, builder, function, from);
    lemma_call_computed(run, s12, builder, thunk, signature, Seq::empty(), from);
    assert(argument_values(run, Seq::empty()) =~= Seq::<int>::empty());
    assert(is_run(run, s11.trace, from));
    assert(is_run(run, s10.trace, from));
    assert(is_run(run, s9.trace, from));
    assert(is_run(run, s8.trace, from));
    assert(is_run(run, s7.trace, from));
    assert(is_run(run, s6.trace, from));
    assert(is_run(run, s5.trace, from));
    assert(is_run(run, s4.trace, from));
    assert(is_run(run, s3.trace, from));
    assert(is_run(run, s2.trace, from));
    assert(is_run(run, s1.trace, from));
}

} // verus!
