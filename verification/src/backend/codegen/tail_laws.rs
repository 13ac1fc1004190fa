//! What the code of procedure bodies returns: the word that the body means.
use crate::backend::codegen::expression_laws::{
    lemma_slots_compile_all, lemma_slots_compile_builtin_call, lemma_slots_compile_expr, lemma_slots_compile_tail_expr,
};
use crate::backend::codegen::laws::{counted, lemma_popped_slots_forgotten, lemma_slots_value_to_word};
use crate::backend::codegen::meaning_laws::{
    agrees, bindings_steps, bound_meanings, is_calm, leaves, lemma_bindings_grow, lemma_bindings_meant,
    lemma_builtin_meant, lemma_known_builtin, lemma_meaning, lemma_sequence_meant, meaning, meanings, Vars,
};
use crate::backend::codegen::plan::{
    compile_all_steps, compile_expr_steps, compile_tail_call_steps, compile_tail_expr_steps, compile_tail_form_steps,
    truth_steps,
};
use crate::backend::codegen::plan_builtins::compile_builtin_call_steps;
use crate::backend::codegen::procedure_laws::lemma_forgotten;
use crate::backend::codegen::run_laws::{
    bit, is_run, lemma_run_last, lemma_run_literals, lemma_run_start, lemma_standing, standing, Run,
};
use crate::backend::codegen::state::{block_steps, branch_if, position, Env, State, Val};
use crate::backend::codegen::values::{
    pop_root_slots_steps, tail_return_value_steps, value_to_word_steps,
};
use crate::backend::ir::{continues, group_continues, FunctionRef};
use crate::backend::kinds::{AbiValueKind, Signature};
use crate::middle::hir::{Binding, Expr, ExprKind};
use vstd::prelude::*;

verus! {

broadcast use vstd::seq_lib::group_seq_properties;

/// Whether code that ends a procedure returns what an expression means.
pub open spec fn gives_back(run: Run, before: State, builder: usize, meant: Option<int>) -> bool {
    meant matches Some(word) ==> ((run.reached)(standing(before.trace, builder)) ==> run.returned == word)
}

/// A word that a procedure ends with is returned.
proof fn lemma_returned(
    run: Run,
    state: State,
    builder: usize,
    cleanup_roots: nat,
    return_kind: AbiValueKind,
    value: Val,
    word: int,
    from: int,
)
    requires
        tail_return_value_steps(state, builder, cleanup_roots, return_kind, value) matches Ok((after, _)) && is_run(
            run,
            after.trace,
            from,
        ),
        0 <= from <= state.trace.len(),
        leaves(run, value, word),
        (run.reached)(standing(state.trace, builder)),
    ensures
        run.returned == word,
{
    broadcast use {lemma_run_last, lemma_standing, lemma_popped_slots_forgotten};

    reveal(tail_return_value_steps);
    reveal(value_to_word_steps);
    assert(counted(0));
    let popped = pop_root_slots_steps(state, builder, cleanup_roots);
    assert(state.trace.len() <= popped.trace.len());
    lemma_forgotten(run, state, builder, cleanup_roots, from);
}

proof fn lemma_return_grows(state: State, builder: usize, cleanup_roots: nat, return_kind: AbiValueKind, value: Val)
    ensures
        tail_return_value_steps(state, builder, cleanup_roots, return_kind, value) matches Ok((after, _))
            ==> state.trace.len() <= after.trace.len() && continues(state.trace, after.trace),
{
    broadcast use {group_continues, lemma_popped_slots_forgotten, lemma_slots_value_to_word};

    reveal(tail_return_value_steps);
    assert(counted(0));
}

/// The body of a procedure returns what it means.
pub proof fn lemma_body_returns(
    run: Run,
    state: State,
    builder: usize,
    function: FunctionRef,
    current: Signature,
    env: Env,
    vars: Vars,
    expr: Expr,
    cleanup_roots: nat,
    from: int,
)
    requires
        is_calm(run),
        agrees(env, vars, run),
        compile_tail_expr_steps(state, builder, function, current, env, expr, cleanup_roots) matches Ok((after, _))
            && is_run(run, after.trace, from),
        0 <= from <= state.trace.len(),
    ensures
        gives_back(run, state, builder, meaning(expr, vars, run)),
    decreases expr, 30nat, 0nat,
{
    broadcast use group_continues;

    if meaning(expr, vars, run) is Some && (run.reached)(standing(state.trace, builder)) {
        let (after, _) = compile_tail_expr_steps(
            state,
            builder,
            function,
            current,
            env,
            expr,
            cleanup_roots,
        )->Ok_0;
        match expr.kind {
            ExprKind::Call { callee, args } => {
                if let ExprKind::Variable(name) = callee.kind {
                    let words = meanings(args@, vars, run, args@.len())->0;
                    assert(!env.contains_key(name@));
                    lemma_known_builtin(name@, words, run);
                    assert(compile_tail_expr_steps(state, builder, function, current, env, expr, cleanup_roots)
                        == compile_tail_call_steps(state, builder, function, current, env, expr, cleanup_roots));
                    let (called, result) = compile_builtin_call_steps(
                        state,
                        builder,
                        function,
                        env,
                        name@,
                        args@,
                    )->Ok_0;
                    lemma_slots_compile_builtin_call(state, builder, function, env, name@, args@, 0);
                    lemma_return_grows(called, builder, cleanup_roots, current.return_kind, result);
                    lemma_run_start(run, called.trace, after.trace, from);
                    lemma_builtin_meant(run, state, builder, function, env, vars, name@, args@, from);
                    let word = meaning(expr, vars, run)->0;
                    lemma_returned(run, called, builder, cleanup_roots, current.return_kind, result, word, from);
                }
            },
            ExprKind::Begin(exprs) => {
                let less = (exprs@.len() - 1) as nat;
                let last = exprs@[exprs@.len() - 1];
                assert(meanings(exprs@, vars, run, exprs@.len()) is Some);
                assert(meanings(exprs@, vars, run, less) is Some);
                let (first, _) = compile_all_steps(state, builder, function, env, exprs@, less)->Ok_0;
                lemma_slots_compile_all(state, builder, function, env, exprs@, less, 0);
                lemma_slots_compile_tail_expr(first, builder, function, current, env, last, cleanup_roots, 0);
                lemma_run_start(run, first.trace, after.trace, from);
                lemma_sequence_meant(run, state, builder, function, env, vars, exprs@, less, from);
                lemma_body_returns(run, first, builder, function, current, env, vars, last, cleanup_roots, from);
            },
            ExprKind::Let { bindings, body } => {
                lemma_scoped_returns(
                    run,
                    state,
                    builder,
                    function,
                    current,
                    env,
                    vars,
                    bindings@,
                    *body,
                    false,
                    cleanup_roots,
                    after,
                    from,
                );
            },
            ExprKind::LetStar { bindings, body } => {
                lemma_scoped_returns(
                    run,
                    state,
                    builder,
                    function,
                    current,
                    env,
                    vars,
                    bindings@,
                    *body,
                    true,
                    cleanup_roots,
                    after,
                    from,
                );
            },
            ExprKind::If { condition, then_branch, else_branch } => {
                lemma_conditional_returns(run, state, builder, function, current, env, vars, expr, cleanup_roots, from);
            },
            _ => {
                let (first, value) = compile_expr_steps(state, builder, function, env, expr)->Ok_0;
                lemma_slots_compile_expr(state, builder, function, env, expr, 0);
                lemma_return_grows(first, builder, cleanup_roots, current.return_kind, value);
                lemma_run_start(run, first.trace, after.trace, from);
                lemma_meaning(run, state, builder, function, env, vars, expr, from);
                let word = meaning(expr, vars, run)->0;
                lemma_returned(run, first, builder, cleanup_roots, current.return_kind, value, word, from);
            },
        }
    }
}

/// Local bindings are seen in the body.
proof fn lemma_scoped_returns(
    run: Run,
    state: State,
    builder: usize,
    function: FunctionRef,
    current: Signature,
    env: Env,
    vars: Vars,
    bindings: Seq<Binding>,
    body: Expr,
    sequential: bool,
    cleanup_roots: nat,
    after: State,
    from: int,
)
    requires
        is_calm(run),
        agrees(env, vars, run),
        bindings_steps(state, builder, function, env, bindings, bindings.len(), body, sequential) matches Ok(
            (first, (scoped, rooted)),
        ) && (compile_tail_expr_steps(first, builder, function, current, scoped, body, cleanup_roots + rooted) matches Ok(
            (last, _),
        ) && last == after),
        is_run(run, after.trace, from),
        0 <= from <= state.trace.len(),
        (run.reached)(standing(state.trace, builder)),
    ensures
        bound_meanings(bindings, vars, vars, run, bindings.len(), body, sequential) matches Some(inner) ==> (meaning(
            body,
            inner,
            run,
        ) matches Some(word) ==> run.returned == word),
    decreases body, 31nat, 0nat,
{
    broadcast use group_continues;

    let (first, (scoped, rooted)) = bindings_steps(
        state,
        builder,
        function,
        env,
        bindings,
        bindings.len(),
        body,
        sequential,
    )->Ok_0;
    lemma_bindings_grow(state, builder, function, env, bindings, bindings.len(), body, sequential);
    lemma_slots_compile_tail_expr(first, builder, function, current, scoped, body, cleanup_roots + rooted, 0);
    lemma_run_start(run, first.trace, after.trace, from);
    lemma_bindings_meant(
        run,
        state,
        builder,
        function,
        env,
        vars,
        bindings,
        bindings.len(),
        body,
        sequential,
        from,
    );
    if let Some(inner) = bound_meanings(bindings, vars, vars, run, bindings.len(), body, sequential) {
        lemma_body_returns(
            run,
            first,
            builder,
            function,
            current,
            scoped,
            inner,
            body,
            cleanup_roots + rooted,
            from,
        );
    }
}

/// A conditional returns what the branch means that its condition chooses.
proof fn lemma_conditional_returns(
    run: Run,
    state: State,
    builder: usize,
    function: FunctionRef,
    current: Signature,
    env: Env,
    vars: Vars,
    expr: Expr,
    cleanup_roots: nat,
    from: int,
)
    requires
        is_calm(run),
        agrees(env, vars, run),
        expr.kind is If,
        compile_tail_form_steps(state, builder, function, current, env, expr, cleanup_roots) matches Ok((after, _))
            && is_run(run, after.trace, from),
        0 <= from <= state.trace.len(),
        (run.reached)(standing(state.trace, builder)),
        meaning(expr, vars, run) is Some,
    ensures
        run.returned == meaning(expr, vars, run)->0,
    decreases expr, 20nat, 0nat,
{
    broadcast use {group_continues, lemma_run_last, lemma_standing};

    let (after, _) = compile_tail_form_steps(state, builder, function, current, env, expr, cleanup_roots)->Ok_0;
    if let ExprKind::If { condition, then_branch, else_branch } = expr.kind {
        let (tested, value) = compile_expr_steps(state, builder, function, env, *condition)->Ok_0;
        lemma_slots_compile_expr(state, builder, function, env, *condition, 0);
        let (judged, predicate) = truth_steps(tested, builder, value)->Ok_0;
        assert(tested.trace.len() <= judged.trace.len() && continues(tested.trace, judged.trace)) by {
            reveal(truth_steps);
        }
        let (first, then_block) = block_steps(judged, function);
        let (second, else_block) = block_steps(first, function);
        let third = branch_if(second, builder, predicate, then_block, else_block);
        let chosen = position(third, builder, then_block);
        let (then_done, _) = compile_tail_expr_steps(
            chosen,
            builder,
            function,
            current,
            env,
            *then_branch,
            cleanup_roots,
        )->Ok_0;
        lemma_slots_compile_tail_expr(chosen, builder, function, current, env, *then_branch, cleanup_roots, 0);
        let other = position(then_done, builder, else_block);
        lemma_slots_compile_tail_expr(other, builder, function, current, env, *else_branch, cleanup_roots, 0);
        lemma_run_start(run, other.trace, after.trace, from);
        assert(is_run(run, then_done.trace, from));
        lemma_run_start(run, chosen.trace, then_done.trace, from);
        assert(is_run(run, third.trace, from));
        assert(is_run(run, second.trace, from));
        assert(is_run(run, first.trace, from));
        assert(is_run(run, judged.trace, from));
        lemma_run_start(run, tested.trace, judged.trace, from);
        lemma_meaning(run, state, builder, function, env, vars, *condition, from);
        lemma_run_literals(run, after.trace, from);
        assert(standing(judged.trace, builder) == standing(tested.trace, builder) && (run.values)(predicate) == bit(
            (run.values)(value->Word_0) != 2,
        )) by {
            reveal(truth_steps);
        }
        lemma_body_returns(run, chosen, builder, function, current, env, vars, *then_branch, cleanup_roots, from);
        lemma_body_returns(run, other, builder, function, current, env, vars, *else_branch, cleanup_roots, from);
    }
}

} // verus!
