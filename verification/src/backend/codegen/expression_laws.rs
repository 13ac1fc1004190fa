//! No expression leaves a slot of the frame with the collector.
use crate::backend::abi::RuntimeFunction;
use crate::backend::codegen::laws::{
    counted, lemma_call_leaves_no_slot, lemma_consumed_values_leave_no_slot, lemma_iteration_forgets_its_slots,
    lemma_one_more, lemma_pair_leaves_no_slot, lemma_popped_slots_forgotten, lemma_return_forgets_the_frame,
    lemma_root_callable_leaves_one, lemma_root_word_leaves_one, lemma_slots_allocate_placeholder_closure,
    lemma_slots_apply_list_args, lemma_slots_binary_builtin, lemma_slots_bind, lemma_slots_bind_captures,
    lemma_slots_bind_formals, lemma_slots_branch_on_pending_exception, lemma_slots_build_scheme_args_list,
    lemma_slots_chain, lemma_slots_char_operand, lemma_slots_closure_allocation,
    lemma_slots_closure_scheme_wrapper, lemma_slots_cons_word, lemma_slots_convert_argument_value,
    lemma_slots_copy_slots, lemma_slots_direct_scheme_wrapper, lemma_slots_emit_exception_return_block,
    lemma_slots_encode_fixnum_value, lemma_slots_fixnum_operand, lemma_slots_fold, lemma_slots_guard_handler,
    lemma_slots_letrec_allocate, lemma_slots_letrec_capture, lemma_slots_letrec_declare,
    lemma_slots_list_of_words, lemma_slots_list_tail_word, lemma_slots_merge_branch_values,
    lemma_slots_pair_store, lemma_slots_phi, lemma_slots_resolve_callable_value, lemma_slots_string_literal,
    lemma_slots_symbol_literal, lemma_slots_tagged_bool, lemma_slots_trap_if_false, lemma_slots_truth,
    lemma_slots_unary_builtin, lemma_slots_value_to_word, lemma_slots_variable, lemma_slots_vector_store,
    lemma_tail_request_forgets_the_frame, moves, quiet, slots_left, steady, tail_steady,
};
use crate::backend::codegen::plan::{
    accepts, assigned_in, call_args_steps, calls_builtin, changed_in, compile_all_steps, compile_call_steps,
    compile_delay_steps, compile_expr_steps, compile_force_steps, compile_form_steps, compile_guard_steps,
    compile_if_steps, compile_quote_steps, compile_scoped_steps, compile_set_steps, compile_tail_call_steps,
    compile_tail_expr_steps, compile_tail_form_steps, direct_args_steps, force_promise_steps,
    guard_handler_steps, list_value_steps, parallel_bindings_steps, quote_items_steps,
    sequential_bindings_steps, symbol_literal_steps, truth_steps,
};
use crate::backend::codegen::plan_builtins::{
    append_rest_steps, append_steps, apply_arguments_steps, apply_list_args_steps, apply_steps,
    binary_runtime_steps, call_with_values_steps, char_comparison_steps, chars_steps,
    compile_builtin_call_steps, compile_other_builtin_steps, cons_steps, error_steps, integers_steps,
    is_binary, is_unary, iteration_lists_steps, list_iteration_steps, list_steps, numeric_builtin_steps,
    numeric_comparison_steps, one_argument_steps, pair_set_steps, pair_target_steps, procedure_signature,
    rooted_args_steps, two_arguments_steps, values_steps, vector_elements_steps, vector_set_steps,
    vector_steps, words_steps,
};
use crate::backend::codegen::plan_procedures::{
    bind_captures_steps, bind_formals_steps, captures_of, closure_function_type_of, compile_lambda_steps,
    declare_steps, function_type_of, lambda_code_steps, letrec_allocate_steps, letrec_bodies_steps,
    letrec_capture_steps, letrec_declare_steps, procedure_body_steps, recursive_bindings_steps,
    scheme_wrapper_type_of, scoped_signature, scoped_signatures, wrapper_name, Captured, Declared,
};
use crate::backend::codegen::plan_program::{compile_items_steps, compile_main_steps};
use crate::backend::codegen::state::{
    block_steps, branch, branch_if, emit_steps, position, push_step, value_steps, Callable, Env, State, Val,
};
use crate::backend::codegen::values::{
    alloc_pair_rooted_steps, check_length_steps, cons_word_steps, emit_exception_return_block_steps,
    empty_list_word, fixnum_operand_steps, resolve_callable_value_steps, root_callable_value_steps,
    value_to_word_steps, word_of,
};
use crate::backend::ir::{group_continues, has_body, FunctionRef, IrType, Op, Operand, Predicate, Prototype};
use crate::backend::kinds::{AbiValueKind, HeapValueKind, NameKind, Signature};
use crate::backend::scope::{program_mutated, program_pair_mutated};
use crate::middle::hir::{formal_names, Binding, Datum, Expr, ExprKind, Params, TopLevel};
use crate::text::decimal_text;
use vstd::prelude::*;

verus! {

/// The start of the code of a procedure, with the builder of the code and the block that takes over
/// on exceptions.
spec fn frame_started(state: State, function: FunctionRef) -> (State, usize, usize) {
    let (made, builder) = emit_steps(state, Op::CreateBuilder);
    let (entered, entry) = block_steps(made, function);
    let (handled, exception_block) = block_steps(entered, function);
    let placed = position(handled, builder, entry);
    (State { targets: placed.targets.push(exception_block), ..placed }, builder, exception_block)
}

/// What the body of a procedure leaves is no matter to builders that were there before.
proof fn lemma_slots_frame(
    state: State,
    function: FunctionRef,
    skip: usize,
    signature: Signature,
    name: Seq<char>,
    formals: Params,
    captures: Seq<(Seq<char>, NameKind)>,
    assigned: Set<Seq<char>>,
    changed: Set<Seq<char>>,
    filled: State,
    probe: usize,
)
    ensures
        ({
            let (started, builder, exception_block) = frame_started(state, function);
            let closure = Operand::Param { function, skip: 0, index: 0 };
            let (loaded, captured) = bind_captures_steps(started, builder, closure, captures, captures.len());
            bind_formals_steps(
                loaded,
                builder,
                function,
                skip,
                signature,
                name,
                formals,
                captured,
                assigned,
                changed,
            ) matches Ok((bound, (env, rooted))) ==> tail_steady(
                bound,
                filled,
                builder,
                probe,
            ) ==> steady(
                state,
                emit_exception_return_block_steps(filled, exception_block, signature.return_kind, rooted),
                probe,
            )
        }),
{
    broadcast use {
        lemma_one_more,
        group_continues,
        lemma_slots_bind_captures,
        lemma_slots_bind_formals,
        lemma_slots_emit_exception_return_block,
    };

    assert(counted(probe));
}

pub(crate) proof fn lemma_slots_compile_quote(state: State, builder: usize, datum: Datum, probe: usize)
    ensures
        compile_quote_steps(state, builder, datum) matches Ok((after, value)) ==> steady(state, after, probe),
    decreases datum, 1nat,
{
    broadcast use {lemma_one_more, group_continues, lemma_slots_string_literal, lemma_slots_symbol_literal};

    assert(counted(probe));
    if let Datum::List { items, tail } = datum {
        if let Some(tail) = tail {
            lemma_slots_compile_quote(state, builder, *tail, probe);
        }
        let last = match tail {
            Some(tail) => compile_quote_steps(state, builder, *tail),
            None => Ok((state, Val::Word(empty_list_word()))),
        };
        if let Ok((state, last)) = last {
            lemma_slots_quote_items(state, builder, items@, items@.len(), last, probe);
        }
    }
}

pub(crate) proof fn lemma_slots_quote_items(
    state: State,
    builder: usize,
    items: Seq<Datum>,
    count: nat,
    tail: Val,
    probe: usize,
)
    ensures
        quote_items_steps(state, builder, items, count, tail) matches Ok((after, value))
            ==> steady(state, after, probe),
    decreases items, count,
{
    broadcast use {lemma_one_more, group_continues, lemma_slots_value_to_word, lemma_pair_leaves_no_slot};

    assert(counted(probe));
    if 0 < count <= items.len() {
        lemma_slots_compile_quote(state, builder, items[count - 1], probe);
        if let Ok((state, car)) = compile_quote_steps(state, builder, items[count - 1]) {
            let (state, car_word) = value_to_word_steps(state, builder, car);
            let (state, cdr_word) = value_to_word_steps(state, builder, tail);
            let (state, ptr) = alloc_pair_rooted_steps(state, builder, car_word, cdr_word);
            lemma_slots_quote_items(
                state,
                builder,
                items,
                (count - 1) as nat,
                Val::HeapObject { ptr, kind: HeapValueKind::Pair },
                probe,
            );
        }
    }
}

pub(crate) proof fn lemma_slots_compile_all(
    state: State,
    builder: usize,
    function: FunctionRef,
    env: Env,
    exprs: Seq<Expr>,
    count: nat,
    probe: usize,
)
    ensures
        compile_all_steps(state, builder, function, env, exprs, count) matches Ok((after, value))
            ==> steady(state, after, probe),
    decreases exprs, 10nat, count,
{
    broadcast use group_continues;

    if 0 < count <= exprs.len() {
        lemma_slots_compile_all(state, builder, function, env, exprs, (count - 1) as nat, probe);
        if let Ok((state, last)) = compile_all_steps(
            state,
            builder,
            function,
            env,
            exprs,
            (count - 1) as nat,
        ) {
            lemma_slots_compile_expr(state, builder, function, env, exprs[count - 1], probe);
        }
    }
}

pub(crate) proof fn lemma_slots_compile_expr(
    state: State,
    builder: usize,
    function: FunctionRef,
    env: Env,
    expr: Expr,
    probe: usize,
)
    ensures
        compile_expr_steps(state, builder, function, env, expr) matches Ok((after, value))
            ==> steady(state, after, probe),
    decreases expr, 20nat, 0nat,
{
    broadcast use {lemma_one_more, group_continues, lemma_slots_branch_on_pending_exception};

    assert(counted(probe));
    if expr.kind is Call {
        lemma_slots_compile_call(state, builder, function, env, expr, probe);
    } else {
        lemma_slots_compile_form(state, builder, function, env, expr, probe);
    }
}

proof fn lemma_slots_compile_form(
    state: State,
    builder: usize,
    function: FunctionRef,
    env: Env,
    expr: Expr,
    probe: usize,
)
    ensures
        compile_form_steps(state, builder, function, env, expr) matches Ok((after, value))
            ==> steady(state, after, probe),
    decreases expr, 19nat, 0nat,
{
    broadcast use {lemma_one_more, group_continues, lemma_slots_string_literal, lemma_slots_variable};

    assert(counted(probe));
    match expr.kind {
        ExprKind::Assign { name, value } => {
            lemma_slots_compile_set(state, builder, function, env, name@, *value, probe);
        },
        ExprKind::Begin(exprs) => {
            lemma_slots_compile_all(state, builder, function, env, exprs@, exprs@.len(), probe);
        },
        ExprKind::Let { bindings, body } => {
            lemma_slots_compile_scoped(state, builder, function, env, expr, probe);
        },
        ExprKind::LetStar { bindings, body } => {
            lemma_slots_compile_scoped(state, builder, function, env, expr, probe);
        },
        ExprKind::LetRec { bindings, body } => {
            lemma_slots_compile_scoped(state, builder, function, env, expr, probe);
        },
        ExprKind::Guard { name, handler, body } => {
            lemma_slots_compile_guard(state, builder, function, env, expr, probe);
        },
        ExprKind::Delay(inner) => {
            lemma_slots_compile_delay(state, builder, env, *inner, probe);
        },
        ExprKind::Force(inner) => {
            lemma_slots_compile_force(state, builder, function, env, *inner, probe);
        },
        ExprKind::If { condition, then_branch, else_branch } => {
            lemma_slots_compile_if(state, builder, function, env, expr, probe);
        },
        ExprKind::Lambda { formals, body } => {
            lemma_slots_compile_lambda(state, builder, env, formals@, *body, probe);
        },
        ExprKind::Quote(datum) => {
            lemma_slots_compile_quote(state, builder, datum, probe);
        },
        _ => {},
    }
}

#[verifier::rlimit(30)]
proof fn lemma_slots_compile_scoped(
    state: State,
    builder: usize,
    function: FunctionRef,
    env: Env,
    expr: Expr,
    probe: usize,
)
    ensures
        compile_scoped_steps(state, builder, function, env, expr) matches Ok((after, value))
            ==> steady(state, after, probe),
    decreases expr, 15nat, 0nat,
{
    broadcast use {lemma_one_more, group_continues, lemma_popped_slots_forgotten};

    assert(counted(probe));
    match expr.kind {
        ExprKind::Let { bindings, body } => {
            lemma_slots_parallel_bindings(
                state,
                builder,
                function,
                env,
                bindings@,
                bindings@.len(),
                *body,
                probe,
            );
            if let Ok((state, (scoped, rooted))) = parallel_bindings_steps(
                state,
                builder,
                function,
                env,
                bindings@,
                bindings@.len(),
                *body,
            ) {
                lemma_slots_compile_expr(state, builder, function, scoped, *body, probe);
            }
        },
        ExprKind::LetStar { bindings, body } => {
            lemma_slots_sequential_bindings(
                state,
                builder,
                function,
                env,
                bindings@,
                bindings@.len(),
                *body,
                probe,
            );
            if let Ok((state, (scoped, rooted))) = sequential_bindings_steps(
                state,
                builder,
                function,
                env,
                bindings@,
                bindings@.len(),
                *body,
            ) {
                lemma_slots_compile_expr(state, builder, function, scoped, *body, probe);
            }
        },
        ExprKind::LetRec { bindings, body } => {
            lemma_slots_recursive_bindings(state, builder, env, bindings@, probe);
            if let Ok((state, scoped)) = recursive_bindings_steps(state, builder, env, bindings@) {
                lemma_slots_compile_expr(
                    state,
                    builder,
                    function,
                    env.union_prefer_right(scoped),
                    *body,
                    probe,
                );
            }
        },
        _ => {},
    }
}

#[verifier::rlimit(30)]
proof fn lemma_slots_compile_if(
    state: State,
    builder: usize,
    function: FunctionRef,
    env: Env,
    expr: Expr,
    probe: usize,
)
    ensures
        compile_if_steps(state, builder, function, env, expr) matches Ok((after, value))
            ==> steady(state, after, probe),
    decreases expr, 15nat, 0nat,
{
    broadcast use {lemma_one_more, group_continues, lemma_slots_merge_branch_values, lemma_slots_truth};

    assert(counted(probe));
    if let ExprKind::If { condition, then_branch, else_branch } = expr.kind {
        lemma_slots_compile_expr(state, builder, function, env, *condition, probe);
        if let Ok((state, value)) = compile_expr_steps(state, builder, function, env, *condition) {
            if let Ok((state, predicate)) = truth_steps(state, builder, value) {
                let (state, then_block) = block_steps(state, function);
                let (state, else_block) = block_steps(state, function);
                let (state, merge_block) = block_steps(state, function);
                let state = branch_if(state, builder, predicate, then_block, else_block);
                let state = position(state, builder, then_block);
                lemma_slots_compile_expr(state, builder, function, env, *then_branch, probe);
                if let Ok((state, then_value)) = compile_expr_steps(
                    state,
                    builder,
                    function,
                    env,
                    *then_branch,
                ) {
                    let state = branch(state, builder, merge_block);
                    let (state, then_exit) = emit_steps(state, Op::InsertBlock { builder });
                    let state = position(state, builder, else_block);
                    lemma_slots_compile_expr(state, builder, function, env, *else_branch, probe);
                }
            }
        }
    }
}

proof fn lemma_slots_compile_set(
    state: State,
    builder: usize,
    function: FunctionRef,
    env: Env,
    name: Seq<char>,
    value: Expr,
    probe: usize,
)
    ensures
        compile_set_steps(state, builder, function, env, name, value) matches Ok((after, value))
            ==> steady(state, after, probe),
    decreases value, 21nat, 0nat,
{
    broadcast use {lemma_one_more, group_continues, lemma_slots_value_to_word};

    assert(counted(probe));
    if env.contains_key(name) {
        if let Val::MutableBox { ptr } = env[name] {
            lemma_slots_compile_expr(state, builder, function, env, value, probe);
        }
    }
}

pub(crate) proof fn lemma_slots_parallel_bindings(
    state: State,
    builder: usize,
    function: FunctionRef,
    env: Env,
    bindings: Seq<Binding>,
    count: nat,
    body: Expr,
    probe: usize,
)
    ensures
        parallel_bindings_steps(state, builder, function, env, bindings, count, body) matches Ok((after, value))
            ==> moves(state, after, builder, value.1 as int, probe),
    decreases bindings, 10nat, count,
{
    broadcast use {lemma_one_more, group_continues, lemma_slots_bind};

    assert(counted(probe));
    if 0 < count <= bindings.len() {
        lemma_slots_parallel_bindings(
            state,
            builder,
            function,
            env,
            bindings,
            (count - 1) as nat,
            body,
            probe,
        );
        if let Ok((state, (scoped, rooted))) = parallel_bindings_steps(
            state,
            builder,
            function,
            env,
            bindings,
            (count - 1) as nat,
            body,
        ) {
            lemma_slots_compile_expr(state, builder, function, env, bindings[count - 1].value, probe);
        }
    }
}

pub(crate) proof fn lemma_slots_sequential_bindings(
    state: State,
    builder: usize,
    function: FunctionRef,
    env: Env,
    bindings: Seq<Binding>,
    count: nat,
    body: Expr,
    probe: usize,
)
    ensures
        sequential_bindings_steps(
            state,
            builder,
            function,
            env,
            bindings,
            count,
            body,
        ) matches Ok((after, value)) ==> moves(state, after, builder, value.1 as int, probe),
    decreases bindings, 10nat, count,
{
    broadcast use {lemma_one_more, group_continues, lemma_slots_bind};

    assert(counted(probe));
    if 0 < count <= bindings.len() {
        lemma_slots_sequential_bindings(
            state,
            builder,
            function,
            env,
            bindings,
            (count - 1) as nat,
            body,
            probe,
        );
        if let Ok((state, (scoped, rooted))) = sequential_bindings_steps(
            state,
            builder,
            function,
            env,
            bindings,
            (count - 1) as nat,
            body,
        ) {
            lemma_slots_compile_expr(state, builder, function, scoped, bindings[count - 1].value, probe);
        }
    }
}

#[verifier::rlimit(30)]
proof fn lemma_slots_compile_guard(
    state: State,
    builder: usize,
    function: FunctionRef,
    env: Env,
    expr: Expr,
    probe: usize,
)
    ensures
        compile_guard_steps(state, builder, function, env, expr) matches Ok((after, value))
            ==> steady(state, after, probe),
    decreases expr, 15nat, 0nat,
{
    broadcast use {lemma_one_more, group_continues, lemma_slots_merge_branch_values, lemma_slots_guard_handler};

    assert(counted(probe));
    if let ExprKind::Guard { name, handler, body } = expr.kind {
        let (state, body_block) = block_steps(state, function);
        let (state, handler_block) = block_steps(state, function);
        let (state, merge_block) = block_steps(state, function);
        let state = branch(state, builder, body_block);
        let state = position(state, builder, body_block);
        let outer = state.targets;
        let state = State { targets: outer.push(handler_block), ..state };
        lemma_slots_compile_expr(state, builder, function, env, *body, probe);
        if let Ok((state, body_value)) = compile_expr_steps(state, builder, function, env, *body) {
            let state = State { targets: outer, ..state };
            let state = branch(state, builder, merge_block);
            let (state, body_exit) = emit_steps(state, Op::InsertBlock { builder });
            let (state, guarded) = guard_handler_steps(state, builder, env, handler_block, name@);
            lemma_slots_compile_expr(state, builder, function, guarded, *handler, probe);
        }
    }
}

proof fn lemma_slots_compile_delay(state: State, builder: usize, env: Env, inner: Expr, probe: usize)
    ensures
        compile_delay_steps(state, builder, env, inner) matches Ok((after, value))
            ==> steady(state, after, probe),
    decreases inner, 40nat, 0nat,
{
    broadcast use {lemma_one_more, group_continues, lemma_slots_allocate_placeholder_closure, lemma_slots_value_to_word};

    assert(counted(probe));
    lemma_slots_compile_lambda(
        state,
        builder,
        env,
        Params { required: Seq::empty(), rest: None },
        inner,
        probe,
    );
}

proof fn lemma_slots_compile_force(
    state: State,
    builder: usize,
    function: FunctionRef,
    env: Env,
    inner: Expr,
    probe: usize,
)
    ensures
        compile_force_steps(state, builder, function, env, inner) matches Ok((after, value))
            ==> steady(state, after, probe),
    decreases inner, 21nat, 0nat,
{
    broadcast use {
        lemma_one_more,
        group_continues,
        lemma_slots_branch_on_pending_exception,
        lemma_call_leaves_no_slot,
        lemma_slots_phi,
    };

    assert(counted(probe));
    reveal(force_promise_steps);
    lemma_slots_compile_expr(state, builder, function, env, inner, probe);
}

pub(crate) proof fn lemma_slots_direct_args(
    state: State,
    builder: usize,
    function: FunctionRef,
    env: Env,
    args: Seq<Expr>,
    skip: nat,
    kinds: Seq<AbiValueKind>,
    count: nat,
    context: Seq<char>,
    probe: usize,
)
    ensures
        direct_args_steps(
            state,
            builder,
            function,
            env,
            args,
            skip,
            kinds,
            count,
            context,
        ) matches Ok((after, value)) ==> steady(state, after, probe),
    decreases args, 10nat, count,
{
    broadcast use {lemma_one_more, group_continues, lemma_slots_convert_argument_value};

    assert(counted(probe));
    if 0 < count <= kinds.len() && skip + count <= args.len() {
        lemma_slots_direct_args(
            state,
            builder,
            function,
            env,
            args,
            skip,
            kinds,
            (count - 1) as nat,
            context,
            probe,
        );
        if let Ok((state, before)) = direct_args_steps(
            state,
            builder,
            function,
            env,
            args,
            skip,
            kinds,
            (count - 1) as nat,
            context,
        ) {
            lemma_slots_compile_expr(state, builder, function, env, args[skip + count - 1], probe);
        }
    }
}

pub(crate) proof fn lemma_slots_list_value(
    state: State,
    builder: usize,
    function: FunctionRef,
    env: Env,
    args: Seq<Expr>,
    start: nat,
    end: nat,
    tail: Operand,
    probe: usize,
)
    ensures
        list_value_steps(state, builder, function, env, args, start, end, tail) matches Ok((after, value))
            ==> steady(state, after, probe),
    decreases args, 10nat, end,
{
    broadcast use {lemma_one_more, group_continues, lemma_slots_value_to_word, lemma_slots_cons_word};

    assert(counted(probe));
    if start < end <= args.len() {
        lemma_slots_compile_expr(state, builder, function, env, args[end - 1], probe);
        if let Ok((state, value)) = compile_expr_steps(state, builder, function, env, args[end - 1]) {
            let (state, car) = value_to_word_steps(state, builder, value);
            let (state, list) = cons_word_steps(state, builder, car, tail);
            lemma_slots_list_value(state, builder, function, env, args, start, (end - 1) as nat, list, probe);
        }
    }
}

pub(crate) proof fn lemma_slots_call_args(
    state: State,
    builder: usize,
    function: FunctionRef,
    env: Env,
    signature: Signature,
    args: Seq<Expr>,
    probe: usize,
)
    ensures
        call_args_steps(state, builder, function, env, signature, args) matches Ok((after, value))
            ==> steady(state, after, probe),
    decreases args, 20nat, 0nat,
{
    broadcast use group_continues;

    if accepts(signature, args.len()) {
        lemma_slots_direct_args(
            state,
            builder,
            function,
            env,
            args,
            0,
            signature.params,
            signature.params.len(),
            "procedure.argument"@,
            probe,
        );
        if let Ok((state, direct)) = direct_args_steps(
            state,
            builder,
            function,
            env,
            args,
            0,
            signature.params,
            signature.params.len(),
            "procedure.argument"@,
        ) {
            if signature.rest {
                lemma_slots_list_value(
                    state,
                    builder,
                    function,
                    env,
                    args,
                    signature.params.len(),
                    args.len(),
                    empty_list_word(),
                    probe,
                );
            }
        }
    }
}

#[verifier::rlimit(30)]
pub(crate) proof fn lemma_slots_compile_call(
    state: State,
    builder: usize,
    function: FunctionRef,
    env: Env,
    expr: Expr,
    probe: usize,
)
    ensures
        compile_call_steps(state, builder, function, env, expr) matches Ok((after, value))
            ==> steady(state, after, probe),
    decreases expr, 15nat, 0nat,
{
    broadcast use {lemma_one_more, group_continues, lemma_call_leaves_no_slot, lemma_slots_resolve_callable_value};

    assert(counted(probe));
    if let ExprKind::Call { callee, args } = expr.kind {
        match calls_builtin(*callee, env) {
            Some(name) => {
                lemma_slots_compile_builtin_call(state, builder, function, env, name, args@, probe);
            },
            None => {
                lemma_slots_compile_expr(state, builder, function, env, *callee, probe);
                if let Ok((state, callee_value)) = compile_expr_steps(
                    state,
                    builder,
                    function,
                    env,
                    *callee,
                ) {
                    if let Ok((state, (resolved, signature))) = resolve_callable_value_steps(
                        state,
                        builder,
                        callee_value,
                        args@.len(),
                    ) {
                        lemma_slots_call_args(state, builder, function, env, signature, args@, probe);
                    }
                }
            },
        }
    }
}

#[verifier::rlimit(30)]
pub(crate) proof fn lemma_slots_compile_tail_call(
    state: State,
    builder: usize,
    function: FunctionRef,
    current: Signature,
    env: Env,
    expr: Expr,
    cleanup_roots: nat,
    probe: usize,
)
    ensures
        compile_tail_call_steps(
            state,
            builder,
            function,
            current,
            env,
            expr,
            cleanup_roots,
        ) matches Ok((after, value)) ==> tail_steady(state, after, builder, probe),
    decreases expr, 25nat, 0nat,
{
    broadcast use {
        lemma_one_more,
        group_continues,
        lemma_slots_build_scheme_args_list,
        lemma_tail_request_forgets_the_frame,
        lemma_return_forgets_the_frame,
        lemma_slots_resolve_callable_value,
    };

    assert(counted(probe));
    if let ExprKind::Call { callee, args } = expr.kind {
        match calls_builtin(*callee, env) {
            Some(name) => {
                lemma_slots_compile_builtin_call(state, builder, function, env, name, args@, probe);
            },
            None => {
                lemma_slots_compile_expr(state, builder, function, env, *callee, probe);
                if let Ok((state, callee_value)) = compile_expr_steps(
                    state,
                    builder,
                    function,
                    env,
                    *callee,
                ) {
                    if let Ok((state, (resolved, signature))) = resolve_callable_value_steps(
                        state,
                        builder,
                        callee_value,
                        args@.len(),
                    ) {
                        lemma_slots_call_args(state, builder, function, env, signature, args@, probe);
                    }
                }
            },
        }
    }
}

pub(crate) proof fn lemma_slots_compile_tail_expr(
    state: State,
    builder: usize,
    function: FunctionRef,
    current: Signature,
    env: Env,
    expr: Expr,
    cleanup_roots: nat,
    probe: usize,
)
    ensures
        compile_tail_expr_steps(
            state,
            builder,
            function,
            current,
            env,
            expr,
            cleanup_roots,
        ) matches Ok((after, value)) ==> tail_steady(state, after, builder, probe),
    decreases expr, 30nat, 0nat,
{
    if expr.kind is Call {
        lemma_slots_compile_tail_call(state, builder, function, current, env, expr, cleanup_roots, probe);
    } else {
        lemma_slots_compile_tail_form(state, builder, function, current, env, expr, cleanup_roots, probe);
    }
}

#[verifier::rlimit(30)]
pub(crate) proof fn lemma_slots_compile_tail_form(
    state: State,
    builder: usize,
    function: FunctionRef,
    current: Signature,
    env: Env,
    expr: Expr,
    cleanup_roots: nat,
    probe: usize,
)
    ensures
        compile_tail_form_steps(
            state,
            builder,
            function,
            current,
            env,
            expr,
            cleanup_roots,
        ) matches Ok((after, value)) ==> tail_steady(state, after, builder, probe),
    decreases expr, 29nat, 0nat,
{
    broadcast use {
        lemma_one_more,
        group_continues,
        lemma_return_forgets_the_frame,
        lemma_slots_truth,
        lemma_slots_guard_handler,
    };

    assert(counted(probe));
    match expr.kind {
        ExprKind::Begin(exprs) => {
            if exprs@.len() != 0 {
                lemma_slots_compile_all(
                    state,
                    builder,
                    function,
                    env,
                    exprs@,
                    (exprs@.len() - 1) as nat,
                    probe,
                );
                if let Ok((state, dropped)) = compile_all_steps(
                    state,
                    builder,
                    function,
                    env,
                    exprs@,
                    (exprs@.len() - 1) as nat,
                ) {
                    lemma_slots_compile_tail_expr(
                        state,
                        builder,
                        function,
                        current,
                        env,
                        exprs@[exprs@.len() - 1],
                        cleanup_roots,
                        probe,
                    );
                }
            }
        },
        ExprKind::Let { bindings, body } => {
            lemma_slots_parallel_bindings(
                state,
                builder,
                function,
                env,
                bindings@,
                bindings@.len(),
                *body,
                probe,
            );
            if let Ok((state, (scoped, rooted))) = parallel_bindings_steps(
                state,
                builder,
                function,
                env,
                bindings@,
                bindings@.len(),
                *body,
            ) {
                lemma_slots_compile_tail_expr(
                    state,
                    builder,
                    function,
                    current,
                    scoped,
                    *body,
                    cleanup_roots + rooted,
                    probe,
                );
            }
        },
        ExprKind::LetStar { bindings, body } => {
            lemma_slots_sequential_bindings(
                state,
                builder,
                function,
                env,
                bindings@,
                bindings@.len(),
                *body,
                probe,
            );
            if let Ok((state, (scoped, rooted))) = sequential_bindings_steps(
                state,
                builder,
                function,
                env,
                bindings@,
                bindings@.len(),
                *body,
            ) {
                lemma_slots_compile_tail_expr(
                    state,
                    builder,
                    function,
                    current,
                    scoped,
                    *body,
                    cleanup_roots + rooted,
                    probe,
                );
            }
        },
        ExprKind::If { condition, then_branch, else_branch } => {
            lemma_slots_compile_expr(state, builder, function, env, *condition, probe);
            if let Ok((state, value)) = compile_expr_steps(state, builder, function, env, *condition) {
                if let Ok((state, predicate)) = truth_steps(state, builder, value) {
                    let (state, then_block) = block_steps(state, function);
                    let (state, else_block) = block_steps(state, function);
                    let state = branch_if(state, builder, predicate, then_block, else_block);
                    let state = position(state, builder, then_block);
                    lemma_slots_compile_tail_expr(
                        state,
                        builder,
                        function,
                        current,
                        env,
                        *then_branch,
                        cleanup_roots,
                        probe,
                    );
                    if let Ok((state, done)) = compile_tail_expr_steps(
                        state,
                        builder,
                        function,
                        current,
                        env,
                        *then_branch,
                        cleanup_roots,
                    ) {
                        let state = position(state, builder, else_block);
                        lemma_slots_compile_tail_expr(
                            state,
                            builder,
                            function,
                            current,
                            env,
                            *else_branch,
                            cleanup_roots,
                            probe,
                        );
                    }
                }
            }
        },
        ExprKind::Guard { name, handler, body } => {
            let (state, body_block) = block_steps(state, function);
            let (state, handler_block) = block_steps(state, function);
            let state = branch(state, builder, body_block);
            let state = position(state, builder, body_block);
            let outer = state.targets;
            let state = State { targets: outer.push(handler_block), ..state };
            lemma_slots_compile_tail_expr(state, builder, function, current, env, *body, cleanup_roots, probe);
            if let Ok((state, done)) = compile_tail_expr_steps(
                state,
                builder,
                function,
                current,
                env,
                *body,
                cleanup_roots,
            ) {
                let state = State { targets: outer, ..state };
                let (state, guarded) = guard_handler_steps(state, builder, env, handler_block, name@);
                lemma_slots_compile_tail_expr(
                    state,
                    builder,
                    function,
                    current,
                    guarded,
                    *handler,
                    cleanup_roots,
                    probe,
                );
            }
        },
        _ => {
            lemma_slots_compile_expr(state, builder, function, env, expr, probe);
        },
    }
}

pub(crate) proof fn lemma_slots_integers(
    state: State,
    builder: usize,
    function: FunctionRef,
    env: Env,
    args: Seq<Expr>,
    count: nat,
    context: Seq<char>,
    probe: usize,
)
    ensures
        integers_steps(state, builder, function, env, args, count, context) matches Ok((after, value))
            ==> steady(state, after, probe),
    decreases args, 10nat, count,
{
    broadcast use {lemma_one_more, group_continues, lemma_slots_fixnum_operand};

    assert(counted(probe));
    if 0 < count <= args.len() {
        lemma_slots_integers(state, builder, function, env, args, (count - 1) as nat, context, probe);
        if let Ok((state, before)) = integers_steps(
            state,
            builder,
            function,
            env,
            args,
            (count - 1) as nat,
            context,
        ) {
            lemma_slots_compile_expr(state, builder, function, env, args[count - 1], probe);
        }
    }
}

pub(crate) proof fn lemma_slots_chars(
    state: State,
    builder: usize,
    function: FunctionRef,
    env: Env,
    args: Seq<Expr>,
    count: nat,
    probe: usize,
)
    ensures
        chars_steps(state, builder, function, env, args, count) matches Ok((after, value))
            ==> steady(state, after, probe),
    decreases args, 10nat, count,
{
    broadcast use {lemma_one_more, group_continues, lemma_slots_char_operand};

    assert(counted(probe));
    if 0 < count <= args.len() {
        lemma_slots_chars(state, builder, function, env, args, (count - 1) as nat, probe);
        if let Ok((state, before)) = chars_steps(state, builder, function, env, args, (count - 1) as nat) {
            lemma_slots_compile_expr(state, builder, function, env, args[count - 1], probe);
        }
    }
}

#[verifier::rlimit(30)]
proof fn lemma_slots_numeric_builtin(
    state: State,
    builder: usize,
    function: FunctionRef,
    env: Env,
    callee: Seq<char>,
    args: Seq<Expr>,
    probe: usize,
)
    ensures
        numeric_builtin_steps(state, builder, function, env, callee, args) matches Ok((after, value))
            ==> steady(state, after, probe),
    decreases args, 40nat, 0nat,
{
    broadcast use {lemma_one_more, group_continues, lemma_slots_encode_fixnum_value, lemma_slots_fold};

    assert(counted(probe));
    lemma_slots_integers(state, builder, function, env, args, args.len(), "builtin argument"@, probe);
}

proof fn lemma_slots_numeric_comparison(
    state: State,
    builder: usize,
    function: FunctionRef,
    env: Env,
    callee: Seq<char>,
    args: Seq<Expr>,
    probe: usize,
)
    ensures
        numeric_comparison_steps(state, builder, function, env, callee, args) matches Ok((after, value))
            ==> steady(state, after, probe),
    decreases args, 40nat, 0nat,
{
    broadcast use {lemma_one_more, group_continues, lemma_slots_tagged_bool, lemma_slots_chain};

    assert(counted(probe));
    if args.len() >= 2 {
        lemma_slots_integers(
            state,
            builder,
            function,
            env,
            args,
            args.len(),
            "numeric comparison argument"@,
            probe,
        );
    }
}

proof fn lemma_slots_char_comparison(
    state: State,
    builder: usize,
    function: FunctionRef,
    env: Env,
    callee: Seq<char>,
    args: Seq<Expr>,
    probe: usize,
)
    ensures
        char_comparison_steps(state, builder, function, env, callee, args) matches Ok((after, value))
            ==> steady(state, after, probe),
    decreases args, 40nat, 0nat,
{
    broadcast use {lemma_one_more, group_continues, lemma_slots_tagged_bool, lemma_slots_chain};

    assert(counted(probe));
    if args.len() >= 2 {
        lemma_slots_chars(state, builder, function, env, args, args.len(), probe);
    }
}

pub(crate) proof fn lemma_slots_one_argument(
    state: State,
    builder: usize,
    function: FunctionRef,
    env: Env,
    name: Seq<char>,
    args: Seq<Expr>,
    probe: usize,
)
    ensures
        one_argument_steps(state, builder, function, env, name, args) matches Ok((after, value))
            ==> steady(state, after, probe),
    decreases args, 30nat, 0nat,
{
    if args.len() == 1 {
        lemma_slots_compile_expr(state, builder, function, env, args[0], probe);
    }
}

pub(crate) proof fn lemma_slots_two_arguments(
    state: State,
    builder: usize,
    function: FunctionRef,
    env: Env,
    name: Seq<char>,
    args: Seq<Expr>,
    probe: usize,
)
    ensures
        two_arguments_steps(state, builder, function, env, name, args) matches Ok((after, value))
            ==> steady(state, after, probe),
    decreases args, 30nat, 0nat,
{
    broadcast use group_continues;

    if args.len() == 2 {
        lemma_slots_compile_expr(state, builder, function, env, args[0], probe);
        if let Ok((state, first)) = compile_expr_steps(state, builder, function, env, args[0]) {
            lemma_slots_compile_expr(state, builder, function, env, args[1], probe);
        }
    }
}

proof fn lemma_slots_cons(
    state: State,
    builder: usize,
    function: FunctionRef,
    env: Env,
    args: Seq<Expr>,
    probe: usize,
)
    ensures
        cons_steps(state, builder, function, env, args) matches Ok((after, value))
            ==> steady(state, after, probe),
    decreases args, 40nat, 0nat,
{
    broadcast use {lemma_one_more, group_continues, lemma_slots_value_to_word, lemma_pair_leaves_no_slot};

    assert(counted(probe));
    if args.len() == 2 {
        lemma_slots_compile_expr(state, builder, function, env, args[0], probe);
        if let Ok((state, car_value)) = compile_expr_steps(state, builder, function, env, args[0]) {
            let (state, car) = value_to_word_steps(state, builder, car_value);
            lemma_slots_compile_expr(state, builder, function, env, args[1], probe);
        }
    }
}

proof fn lemma_slots_pair_target(
    state: State,
    builder: usize,
    function: FunctionRef,
    env: Env,
    args: Seq<Expr>,
    probe: usize,
)
    ensures
        pair_target_steps(state, builder, function, env, args) matches Ok((after, value))
            ==> steady(state, after, probe),
    decreases args, 20nat, 0nat,
{
    broadcast use group_continues;

    if args.len() != 0 {
        match args[0].kind {
            ExprKind::Variable(name) => {
                if !env.contains_key(name@) {
                    lemma_slots_compile_expr(state, builder, function, env, args[0], probe);
                }
            },
            _ => {
                lemma_slots_compile_expr(state, builder, function, env, args[0], probe);
            },
        }
    }
}

#[verifier::rlimit(30)]
proof fn lemma_slots_pair_set(
    state: State,
    builder: usize,
    function: FunctionRef,
    env: Env,
    args: Seq<Expr>,
    set_car: bool,
    probe: usize,
)
    ensures
        pair_set_steps(state, builder, function, env, args, set_car) matches Ok((after, value))
            ==> steady(state, after, probe),
    decreases args, 40nat, 0nat,
{
    broadcast use {lemma_one_more, group_continues, lemma_slots_pair_store};

    assert(counted(probe));
    if args.len() == 2 {
        lemma_slots_pair_target(state, builder, function, env, args, probe);
        if let Ok((state, pair)) = pair_target_steps(state, builder, function, env, args) {
            lemma_slots_compile_expr(state, builder, function, env, args[1], probe);
        }
    }
}

pub(crate) proof fn lemma_slots_list(
    state: State,
    builder: usize,
    function: FunctionRef,
    env: Env,
    args: Seq<Expr>,
    end: nat,
    tail: Val,
    probe: usize,
)
    ensures
        list_steps(state, builder, function, env, args, end, tail) matches Ok((after, value))
            ==> steady(state, after, probe),
    decreases args, 10nat, end,
{
    broadcast use {lemma_one_more, group_continues, lemma_slots_value_to_word, lemma_pair_leaves_no_slot};

    assert(counted(probe));
    if 0 < end <= args.len() {
        lemma_slots_compile_expr(state, builder, function, env, args[end - 1], probe);
        if let Ok((state, car)) = compile_expr_steps(state, builder, function, env, args[end - 1]) {
            let (state, car_word) = value_to_word_steps(state, builder, car);
            let (state, cdr_word) = value_to_word_steps(state, builder, tail);
            let (state, ptr) = alloc_pair_rooted_steps(state, builder, car_word, cdr_word);
            lemma_slots_list(
                state,
                builder,
                function,
                env,
                args,
                (end - 1) as nat,
                Val::HeapObject { ptr, kind: HeapValueKind::Pair },
                probe,
            );
        }
    }
}

pub(crate) proof fn lemma_slots_append_rest(
    state: State,
    builder: usize,
    function: FunctionRef,
    env: Env,
    args: Seq<Expr>,
    end: nat,
    tail: Val,
    probe: usize,
)
    ensures
        append_rest_steps(state, builder, function, env, args, end, tail) matches Ok((after, value))
            ==> steady(state, after, probe),
    decreases args, 10nat, end,
{
    broadcast use {lemma_one_more, group_continues, lemma_slots_value_to_word};

    assert(counted(probe));
    reveal(binary_runtime_steps);
    if 0 < end <= args.len() {
        lemma_slots_compile_expr(state, builder, function, env, args[end - 1], probe);
        if let Ok((state, left)) = compile_expr_steps(state, builder, function, env, args[end - 1]) {
            let (state, result) = binary_runtime_steps(state, builder, left, tail, RuntimeFunction::Append);
            lemma_slots_append_rest(
                state,
                builder,
                function,
                env,
                args,
                (end - 1) as nat,
                Val::Word(result),
                probe,
            );
        }
    }
}

#[verifier::rlimit(30)]
proof fn lemma_slots_append(
    state: State,
    builder: usize,
    function: FunctionRef,
    env: Env,
    args: Seq<Expr>,
    probe: usize,
)
    ensures
        append_steps(state, builder, function, env, args) matches Ok((after, value))
            ==> steady(state, after, probe),
    decreases args, 40nat, 0nat,
{
    broadcast use group_continues;

    if args.len() != 0 {
        lemma_slots_compile_expr(state, builder, function, env, args[args.len() - 1], probe);
        if let Ok((state, last)) = compile_expr_steps(state, builder, function, env, args[args.len() - 1]) {
            lemma_slots_append_rest(state, builder, function, env, args, (args.len() - 1) as nat, last, probe);
        }
    }
}

pub(crate) proof fn lemma_slots_vector_elements(
    state: State,
    builder: usize,
    function: FunctionRef,
    env: Env,
    args: Seq<Expr>,
    elements: Operand,
    count: nat,
    probe: usize,
)
    ensures
        vector_elements_steps(state, builder, function, env, args, elements, count) matches Ok((after, value))
            ==> steady(state, after, probe),
    decreases args, 10nat, count,
{
    broadcast use {lemma_one_more, group_continues, lemma_slots_value_to_word};

    assert(counted(probe));
    if 0 < count <= args.len() {
        lemma_slots_vector_elements(state, builder, function, env, args, elements, (count - 1) as nat, probe);
        if let Ok((state, done)) = vector_elements_steps(
            state,
            builder,
            function,
            env,
            args,
            elements,
            (count - 1) as nat,
        ) {
            lemma_slots_compile_expr(state, builder, function, env, args[count - 1], probe);
        }
    }
}

proof fn lemma_slots_vector(
    state: State,
    builder: usize,
    function: FunctionRef,
    env: Env,
    args: Seq<Expr>,
    probe: usize,
)
    ensures
        vector_steps(state, builder, function, env, args) matches Ok((after, value))
            ==> steady(state, after, probe),
    decreases args, 40nat, 0nat,
{
    broadcast use {lemma_one_more, group_continues};

    assert(counted(probe));
    if args.len() != 0 {
        let (state, elements) = value_steps(state, Op::ArrayAlloca { builder, count: args.len() as usize });
        lemma_slots_vector_elements(state, builder, function, env, args, elements, args.len(), probe);
    }
}

#[verifier::rlimit(30)]
proof fn lemma_slots_vector_set(
    state: State,
    builder: usize,
    function: FunctionRef,
    env: Env,
    args: Seq<Expr>,
    probe: usize,
)
    ensures
        vector_set_steps(state, builder, function, env, args) matches Ok((after, value))
            ==> steady(state, after, probe),
    decreases args, 40nat, 0nat,
{
    broadcast use {lemma_one_more, group_continues, lemma_slots_fixnum_operand, lemma_slots_vector_store};

    assert(counted(probe));
    if args.len() == 3 {
        lemma_slots_compile_expr(state, builder, function, env, args[0], probe);
        if let Ok((state, vector)) = compile_expr_steps(state, builder, function, env, args[0]) {
            lemma_slots_compile_expr(state, builder, function, env, args[1], probe);
            if let Ok((state, index)) = compile_expr_steps(state, builder, function, env, args[1]) {
                if let Ok(index_word) = word_of(index, "vector-set! index argument"@) {
                    let (state, place) = fixnum_operand_steps(state, builder, function, index_word);
                    lemma_slots_compile_expr(state, builder, function, env, args[2], probe);
                }
            }
        }
    }
}

pub(crate) proof fn lemma_slots_rooted_args(
    state: State,
    builder: usize,
    function: FunctionRef,
    env: Env,
    args: Seq<Expr>,
    count: nat,
    probe: usize,
)
    ensures
        rooted_args_steps(state, builder, function, env, args, count) matches Ok((after, value))
            ==> moves(state, after, builder, value.len() as int, probe),
    decreases args, 10nat, count,
{
    broadcast use {lemma_one_more, group_continues, lemma_root_word_leaves_one, lemma_slots_value_to_word};

    assert(counted(probe));
    if 0 < count <= args.len() {
        lemma_slots_rooted_args(state, builder, function, env, args, (count - 1) as nat, probe);
        if let Ok((state, before)) = rooted_args_steps(
            state,
            builder,
            function,
            env,
            args,
            (count - 1) as nat,
        ) {
            lemma_slots_compile_expr(state, builder, function, env, args[count - 1], probe);
        }
    }
}

#[verifier::rlimit(30)]
proof fn lemma_slots_values(
    state: State,
    builder: usize,
    function: FunctionRef,
    env: Env,
    args: Seq<Expr>,
    probe: usize,
)
    ensures
        values_steps(state, builder, function, env, args) matches Ok((after, value))
            ==> steady(state, after, probe),
    decreases args, 40nat, 0nat,
{
    broadcast use {lemma_one_more, group_continues, lemma_popped_slots_forgotten, lemma_slots_copy_slots};

    assert(counted(probe));
    if args.len() == 1 {
        lemma_slots_compile_expr(state, builder, function, env, args[0], probe);
    } else {
        lemma_slots_rooted_args(state, builder, function, env, args, args.len(), probe);
    }
}

proof fn lemma_slots_call_with_values(
    state: State,
    builder: usize,
    function: FunctionRef,
    env: Env,
    args: Seq<Expr>,
    probe: usize,
)
    ensures
        call_with_values_steps(state, builder, function, env, args) matches Ok((after, value))
            ==> steady(state, after, probe),
    decreases args, 40nat, 0nat,
{
    broadcast use {lemma_one_more, group_continues, lemma_consumed_values_leave_no_slot};

    assert(counted(probe));
    if args.len() == 2 {
        lemma_slots_compile_expr(state, builder, function, env, args[0], probe);
        if let Ok((state, producer)) = compile_expr_steps(state, builder, function, env, args[0]) {
            if let Some(producer_signature) = procedure_signature(producer) {
                if producer_signature.params.len() == 0 {
                    lemma_slots_compile_expr(state, builder, function, env, args[1], probe);
                }
            }
        }
    }
}

pub(crate) proof fn lemma_slots_words(
    state: State,
    builder: usize,
    function: FunctionRef,
    env: Env,
    args: Seq<Expr>,
    count: nat,
    probe: usize,
)
    ensures
        words_steps(state, builder, function, env, args, count) matches Ok((after, value))
            ==> steady(state, after, probe),
    decreases args, 10nat, count,
{
    broadcast use {lemma_one_more, group_continues, lemma_slots_value_to_word};

    assert(counted(probe));
    if 0 < count <= args.len() {
        lemma_slots_words(state, builder, function, env, args, (count - 1) as nat, probe);
        if let Ok((state, before)) = words_steps(state, builder, function, env, args, (count - 1) as nat) {
            lemma_slots_compile_expr(state, builder, function, env, args[count - 1], probe);
        }
    }
}

proof fn lemma_slots_error(
    state: State,
    builder: usize,
    function: FunctionRef,
    env: Env,
    args: Seq<Expr>,
    probe: usize,
)
    ensures
        error_steps(state, builder, function, env, args) matches Ok((after, value))
            ==> steady(state, after, probe),
    decreases args, 40nat, 0nat,
{
    broadcast use {
        lemma_one_more,
        group_continues,
        lemma_slots_value_to_word,
        lemma_slots_list_of_words,
        lemma_slots_symbol_literal,
    };

    assert(counted(probe));
    if args.len() != 0 {
        let (state, symbol) = symbol_literal_steps(state, builder, "error"@);
        let (state, symbol_word) = value_to_word_steps(state, builder, symbol);
        lemma_slots_words(state, builder, function, env, args, args.len(), probe);
    }
}

#[verifier::rlimit(30)]
proof fn lemma_slots_apply_arguments(
    state: State,
    builder: usize,
    function: FunctionRef,
    env: Env,
    signature: Signature,
    args: Seq<Expr>,
    list: Operand,
    probe: usize,
)
    ensures
        apply_arguments_steps(state, builder, function, env, signature, args, list) matches Ok((after, value))
            ==> steady(state, after, probe),
    decreases args, 30nat, 0nat,
{
    broadcast use {
        lemma_one_more,
        group_continues,
        lemma_slots_trap_if_false,
        lemma_slots_fixnum_operand,
        lemma_slots_list_tail_word,
        lemma_slots_apply_list_args,
    };

    assert(counted(probe));
    reveal(check_length_steps);
    let required = signature.params.len();
    let leading = (args.len() - 2) as nat;
    if signature.rest || leading <= required {
        let direct = if leading <= required { leading } else { required };
        let needed = (required - direct) as usize;
        lemma_slots_direct_args(
            state,
            builder,
            function,
            env,
            args,
            1,
            signature.params,
            direct,
            "apply.prefix"@,
            probe,
        );
        if let Ok((state, from_prefix)) = direct_args_steps(
            state,
            builder,
            function,
            env,
            args,
            1,
            signature.params,
            direct,
            "apply.prefix"@,
        ) {
            let state = if !signature.rest {
                check_length_steps(
                    state,
                    builder,
                    function,
                    RuntimeFunction::ListLength,
                    list,
                    Predicate::Equal,
                    needed,
                )
            } else if leading <= required {
                check_length_steps(
                    state,
                    builder,
                    function,
                    RuntimeFunction::ListLength,
                    list,
                    Predicate::UnsignedGreaterEqual,
                    needed,
                )
            } else {
                state
            };
            if let Ok((state, from_list)) = apply_list_args_steps(
                state,
                builder,
                list,
                signature.params,
                direct,
                required,
            ) {
                let compiled = from_prefix + from_list;
                if signature.rest {
                    if leading > required {
                        lemma_slots_list_value(
                            state,
                            builder,
                            function,
                            env,
                            args,
                            required + 1,
                            (args.len() - 1) as nat,
                            list,
                            probe,
                        );
                    }
                }
            }
        }
    }
}

#[verifier::rlimit(30)]
proof fn lemma_slots_apply(
    state: State,
    builder: usize,
    function: FunctionRef,
    env: Env,
    args: Seq<Expr>,
    probe: usize,
)
    ensures
        apply_steps(state, builder, function, env, args) matches Ok((after, value))
            ==> steady(state, after, probe),
    decreases args, 40nat, 0nat,
{
    broadcast use {lemma_one_more, group_continues, lemma_slots_value_to_word, lemma_call_leaves_no_slot};

    assert(counted(probe));
    if args.len() >= 2 {
        lemma_slots_compile_expr(state, builder, function, env, args[0], probe);
        if let Ok((state, callee)) = compile_expr_steps(state, builder, function, env, args[0]) {
            if let Some(signature) = procedure_signature(callee) {
                lemma_slots_compile_expr(state, builder, function, env, args[args.len() - 1], probe);
                if let Ok((state, list_value)) = compile_expr_steps(
                    state,
                    builder,
                    function,
                    env,
                    args[args.len() - 1],
                ) {
                    let (state, list) = value_to_word_steps(state, builder, list_value);
                    lemma_slots_apply_arguments(state, builder, function, env, signature, args, list, probe);
                }
            }
        }
    }
}

pub(crate) proof fn lemma_slots_iteration_lists(
    state: State,
    builder: usize,
    function: FunctionRef,
    env: Env,
    args: Seq<Expr>,
    count: nat,
    probe: usize,
)
    ensures
        iteration_lists_steps(state, builder, function, env, args, count) matches Ok((after, value))
            ==> moves(state, after, builder, value.0.len() as int, probe),
    decreases args, 10nat, count,
{
    broadcast use {
        lemma_one_more,
        group_continues,
        lemma_root_word_leaves_one,
        lemma_slots_value_to_word,
        lemma_slots_fixnum_operand,
    };

    assert(counted(probe));
    if 0 < count < args.len() {
        lemma_slots_iteration_lists(state, builder, function, env, args, (count - 1) as nat, probe);
        if let Ok((state, (slots, lengths))) = iteration_lists_steps(
            state,
            builder,
            function,
            env,
            args,
            (count - 1) as nat,
        ) {
            lemma_slots_compile_expr(state, builder, function, env, args[count as int], probe);
        }
    }
}

#[verifier::rlimit(30)]
proof fn lemma_slots_list_iteration(
    state: State,
    builder: usize,
    function: FunctionRef,
    env: Env,
    args: Seq<Expr>,
    collect: bool,
    probe: usize,
)
    ensures
        list_iteration_steps(state, builder, function, env, args, collect) matches Ok((after, value))
            ==> steady(state, after, probe),
    decreases args, 40nat, 0nat,
{
    broadcast use {lemma_one_more, group_continues, lemma_root_callable_leaves_one, lemma_iteration_forgets_its_slots};

    assert(counted(probe));
    let name = if collect { "map"@ } else { "for-each"@ };
    if args.len() >= 2 {
        lemma_slots_compile_expr(state, builder, function, env, args[0], probe);
        if let Ok((state, callee)) = compile_expr_steps(state, builder, function, env, args[0]) {
            if let Some(signature) = procedure_signature(callee) {
                if accepts(signature, (args.len() - 1) as nat) {
                    if let Ok((state, callable)) = root_callable_value_steps(state, builder, callee) {
                        lemma_slots_iteration_lists(
                            state,
                            builder,
                            function,
                            env,
                            args,
                            (args.len() - 1) as nat,
                            probe,
                        );
                    }
                }
            }
        }
    }
}

#[verifier::rlimit(30)]
proof fn lemma_slots_compile_other_builtin(
    state: State,
    builder: usize,
    function: FunctionRef,
    env: Env,
    name: Seq<char>,
    args: Seq<Expr>,
    probe: usize,
)
    ensures
        compile_other_builtin_steps(state, builder, function, env, name, args) matches Ok((after, value))
            ==> steady(state, after, probe),
    decreases args, 45nat, 0nat,
{
    broadcast use {lemma_one_more, group_continues};

    assert(counted(probe));
    if name == "+"@ || name == "-"@ || name == "*"@ || name == "/"@ {
        lemma_slots_numeric_builtin(state, builder, function, env, name, args, probe);
    } else {
        if name == "="@ || name == "<"@ || name == ">"@ || name == "<="@ || name == ">="@ {
            lemma_slots_numeric_comparison(state, builder, function, env, name, args, probe);
        } else {
            if name == "char=?"@ || name == "char<?"@ || name == "char>?"@ || name == "char<=?"@ || name == "char>=?"@ {
                lemma_slots_char_comparison(state, builder, function, env, name, args, probe);
            } else {
                if name == "values"@ {
                    lemma_slots_values(state, builder, function, env, args, probe);
                } else {
                    if name == "call-with-values"@ {
                        lemma_slots_call_with_values(state, builder, function, env, args, probe);
                    } else {
                        if name == "error"@ {
                            lemma_slots_error(state, builder, function, env, args, probe);
                        } else {
                            if name == "apply"@ {
                                lemma_slots_apply(state, builder, function, env, args, probe);
                            } else {
                                if name == "list"@ {
                                    lemma_slots_list(
                                        state,
                                        builder,
                                        function,
                                        env,
                                        args,
                                        args.len(),
                                        Val::Word(empty_list_word()),
                                        probe,
                                    );
                                } else {
                                    if name == "map"@ {
                                        lemma_slots_list_iteration(
                                            state,
                                            builder,
                                            function,
                                            env,
                                            args,
                                            true,
                                            probe,
                                        );
                                    } else {
                                        if name == "for-each"@ {
                                            lemma_slots_list_iteration(
                                                state,
                                                builder,
                                                function,
                                                env,
                                                args,
                                                false,
                                                probe,
                                            );
                                        } else {
                                            if name == "append"@ {
                                                lemma_slots_append(state, builder, function, env, args, probe);
                                            } else {
                                                if name == "cons"@ {
                                                    lemma_slots_cons(
                                                        state,
                                                        builder,
                                                        function,
                                                        env,
                                                        args,
                                                        probe,
                                                    );
                                                } else {
                                                    if name == "set-car!"@ {
                                                        lemma_slots_pair_set(
                                                            state,
                                                            builder,
                                                            function,
                                                            env,
                                                            args,
                                                            true,
                                                            probe,
                                                        );
                                                    } else {
                                                        if name == "set-cdr!"@ {
                                                            lemma_slots_pair_set(
                                                                state,
                                                                builder,
                                                                function,
                                                                env,
                                                                args,
                                                                false,
                                                                probe,
                                                            );
                                                        } else {
                                                            if name != "newline"@ {
                                                                if name == "vector"@ {
                                                                    lemma_slots_vector(
                                                                        state,
                                                                        builder,
                                                                        function,
                                                                        env,
                                                                        args,
                                                                        probe,
                                                                    );
                                                                } else {
                                                                    lemma_slots_vector_set(
                                                                        state,
                                                                        builder,
                                                                        function,
                                                                        env,
                                                                        args,
                                                                        probe,
                                                                    );
                                                                }
                                                            }
                                                        }
                                                    }
                                                }
                                            }
                                        }
                                    }
                                }
                            }
                        }
                    }
                }
            }
        }
    }
}

#[verifier::rlimit(30)]
pub(crate) proof fn lemma_slots_compile_builtin_call(
    state: State,
    builder: usize,
    function: FunctionRef,
    env: Env,
    name: Seq<char>,
    args: Seq<Expr>,
    probe: usize,
)
    ensures
        compile_builtin_call_steps(state, builder, function, env, name, args) matches Ok((after, value))
            ==> steady(state, after, probe),
    decreases args, 50nat, 0nat,
{
    broadcast use {lemma_one_more, group_continues, lemma_slots_unary_builtin, lemma_slots_binary_builtin};

    assert(counted(probe));
    if is_unary(name) {
        lemma_slots_one_argument(state, builder, function, env, name, args, probe);
    } else {
        if is_binary(name) {
            lemma_slots_two_arguments(state, builder, function, env, name, args, probe);
        } else {
            lemma_slots_compile_other_builtin(state, builder, function, env, name, args, probe);
        }
    }
}

#[verifier::rlimit(30)]
proof fn lemma_slots_procedure_body(
    state: State,
    function: FunctionRef,
    skip: usize,
    name: Seq<char>,
    signature: Signature,
    formals: Params,
    captures: Seq<(Seq<char>, NameKind)>,
    body: Expr,
    probe: usize,
)
    ensures
        procedure_body_steps(
            state,
            function,
            skip,
            name,
            signature,
            formals,
            captures,
            body,
        ) matches Ok((after, value)) ==> steady(state, after, probe),
    decreases body, 31nat, 0nat,
{
    broadcast use {lemma_one_more, group_continues};

    assert(counted(probe));
    if !has_body(state.trace, function) {
        let (started, builder, exception_block) = frame_started(state, function);
        let closure = Operand::Param { function, skip: 0, index: 0 };
        let (loaded, captured) = bind_captures_steps(started, builder, closure, captures, captures.len());
        let assigned = assigned_in(body, formal_names(formals));
        let changed = changed_in(body, formal_names(formals));
        let scope = bind_formals_steps(
            loaded,
            builder,
            function,
            skip,
            signature,
            name,
            formals,
            captured,
            assigned,
            changed,
        );
        if let Ok((bound, (env, rooted))) = scope {
            lemma_slots_compile_tail_expr(bound, builder, function, signature, env, body, rooted, probe);
            let body_code = compile_tail_expr_steps(bound, builder, function, signature, env, body, rooted);
            if let Ok((filled, done)) = body_code {
                lemma_slots_frame(
                    state,
                    function,
                    skip,
                    signature,
                    name,
                    formals,
                    captures,
                    assigned,
                    changed,
                    filled,
                    probe,
                );
            }
        }
    }
}

proof fn lemma_slots_lambda_code(
    state: State,
    builder: usize,
    env: Env,
    name: Seq<char>,
    info: Callable,
    captures: Seq<(Seq<char>, NameKind)>,
    formals: Params,
    body: Expr,
    probe: usize,
)
    ensures
        lambda_code_steps(state, builder, env, name, info, captures, formals, body) matches Ok((after, value))
            ==> steady(state, after, probe),
    decreases body, 34nat, 0nat,
{
    broadcast use {
        lemma_one_more,
        group_continues,
        lemma_slots_direct_scheme_wrapper,
        lemma_slots_closure_scheme_wrapper,
        lemma_slots_closure_allocation,
    };

    assert(counted(probe));
    let function = FunctionRef::Defined(info.value);
    if captures.len() == 0 {
        lemma_slots_procedure_body(state, function, 0, name, info.signature, formals, captures, body, probe);
    } else {
        lemma_slots_procedure_body(state, function, 1, name, info.signature, formals, captures, body, probe);
    }
}

proof fn lemma_slots_compile_lambda(
    state: State,
    builder: usize,
    env: Env,
    formals: Params,
    body: Expr,
    probe: usize,
)
    ensures
        compile_lambda_steps(state, builder, env, formals, body) matches Ok((after, value))
            ==> steady(state, after, probe),
    decreases body, 35nat, 0nat,
{
    broadcast use {lemma_one_more, group_continues};

    assert(counted(probe));
    let name = "__lambda_"@ + decimal_text(state.counter);
    let signature = scoped_signature(formals, body, env);
    let captures = captures_of(env, formals, body);
    let ty = if captures.len() == 0 {
        function_type_of(signature)
    } else {
        closure_function_type_of(signature)
    };
    let (state, function) = declare_steps(state, name, ty);
    let (state, wrapper) = declare_steps(state, wrapper_name(name), scheme_wrapper_type_of());
    let state = State { counter: state.counter + 1, ..state };
    let info = Callable { value: function, wrapper, signature };
    lemma_slots_lambda_code(state, builder, env, name, info, captures, formals, body, probe);
}

#[verifier::rlimit(30)]
proof fn lemma_slots_letrec_bodies(
    state: State,
    captured: Captured,
    bindings: Seq<Binding>,
    declared: Seq<Declared>,
    count: nat,
    probe: usize,
)
    ensures
        letrec_bodies_steps(state, captured, bindings, declared, count) matches Ok((after, value))
            ==> steady(state, after, probe),
    decreases bindings, 10nat, count,
{
    broadcast use {lemma_one_more, group_continues, lemma_slots_closure_scheme_wrapper};

    assert(counted(probe));
    if 0 < count <= bindings.len() {
        lemma_slots_letrec_bodies(state, captured, bindings, declared, (count - 1) as nat, probe);
        if let Ok((state, left)) = letrec_bodies_steps(
            state,
            captured,
            bindings,
            declared,
            (count - 1) as nat,
        ) {
            let binding = bindings[count - 1];
            let plan = declared[count - 1];
            if let ExprKind::Lambda { formals, body } = binding.value.kind {
                if left.contains_key(binding.name@) {
                    lemma_slots_procedure_body(
                        state,
                        FunctionRef::Defined(plan.function),
                        1,
                        plan.name,
                        plan.signature,
                        formals@,
                        left[binding.name@],
                        *body,
                        probe,
                    );
                }
            }
        }
    }
}

#[verifier::rlimit(30)]
proof fn lemma_slots_recursive_bindings(
    state: State,
    builder: usize,
    env: Env,
    bindings: Seq<Binding>,
    probe: usize,
)
    ensures
        recursive_bindings_steps(state, builder, env, bindings) matches Ok((after, value))
            ==> steady(state, after, probe),
    decreases bindings, 20nat, 0nat,
{
    broadcast use {
        lemma_one_more,
        group_continues,
        lemma_slots_letrec_declare,
        lemma_slots_letrec_allocate,
        lemma_slots_letrec_capture,
    };

    assert(counted(probe));
    let signatures = scoped_signatures(bindings, env);
    if let Ok((state, (provisional, declared))) = letrec_declare_steps(
        state,
        signatures,
        env,
        bindings,
        bindings.len(),
    ) {
        let (state, (scope, bound, captured)) = letrec_allocate_steps(
            state,
            builder,
            provisional,
            bindings,
            declared,
            bindings.len(),
        );
        if let Ok((state, done)) = letrec_capture_steps(
            state,
            builder,
            scope,
            bound,
            captured,
            bindings,
            bindings.len(),
        ) {
            lemma_slots_letrec_bodies(state, captured, bindings, declared, bindings.len(), probe);
        }
    }
}

/// The code of an expression has the collector forget as many slots of the frame as it tells it about.
/// Procedures that the expression makes have builders and frames of their own.
pub proof fn lemma_expression_leaves_no_slot(
    state: State,
    builder: usize,
    function: FunctionRef,
    env: Env,
    expr: Expr,
)
    requires
        builder < state.trace.len(),
    ensures
        compile_expr_steps(state, builder, function, env, expr) matches Ok((after, _)) ==> (after.trace.len()
            <= usize::MAX ==> slots_left(after.trace, builder) == slots_left(state.trace, builder)),
{
    lemma_slots_compile_expr(state, builder, function, env, expr, builder);
}

proof fn lemma_slots_compile_items(
    state: State,
    builder: usize,
    function: FunctionRef,
    items: Seq<TopLevel>,
    assigned: Set<Seq<char>>,
    changed: Set<Seq<char>>,
    count: nat,
    probe: usize,
)
    ensures
        compile_items_steps(state, builder, function, items, assigned, changed, count) matches Ok((after, progress))
            ==> moves(state, after, builder, progress.rooted as int, probe),
    decreases count,
{
    broadcast use group_continues;

    broadcast use lemma_slots_bind;

    assert(counted(probe));
    reveal(compile_items_steps);
    if 0 < count <= items.len() {
        lemma_slots_compile_items(
            state,
            builder,
            function,
            items,
            assigned,
            changed,
            (count - 1) as nat,
            probe,
        );
        let before = compile_items_steps(
            state,
            builder,
            function,
            items,
            assigned,
            changed,
            (count - 1) as nat,
        );
        if let Ok((state, progress)) = before {
            match items[count - 1] {
                TopLevel::Definition { name, value } => {
                    lemma_slots_compile_expr(state, builder, function, progress.env, value, probe);
                },
                TopLevel::Expression(expr) => {
                    lemma_slots_compile_expr(state, builder, function, progress.env, expr, probe);
                },
                TopLevel::Procedure(_) => {},
            }
        }
    }
}

/// The function that runs the items of a program has the collector forget as many slots of its frame
/// as it tells it about. Its builder is made by the operation behind those that were there.
pub proof fn lemma_main_leaves_no_slot(state: State, items: Seq<TopLevel>)
    ensures
        compile_main_steps(state, items) matches Ok((after, _)) ==> (after.trace.len() <= usize::MAX ==> slots_left(
            after.trace,
            state.trace.len() as usize,
        ) == slots_left(state.trace, state.trace.len() as usize)),
{
    broadcast use {
        lemma_one_more,
        group_continues,
        lemma_popped_slots_forgotten,
        lemma_slots_value_to_word,
        lemma_slots_emit_exception_return_block,
    };

    reveal(compile_main_steps);
    assert(counted(state.trace.len() as usize));
    let (made, builder) = emit_steps(state, Op::CreateBuilder);
    let ty = Prototype { ret: Some(IrType::Word), params: Seq::empty() };
    let (added, main) = emit_steps(made, Op::AddFunction { name: "main"@, ty });
    let function = FunctionRef::Defined(main);
    let (entered, entry) = block_steps(push_step(added, Op::AttachGc { function }), function);
    let (handled, exception_block) = block_steps(entered, function);
    let placed = position(handled, builder, entry);
    let started = State { targets: placed.targets.push(exception_block), ..placed };
    assert(quiet(state, started, builder));
    lemma_slots_compile_items(
        started,
        builder,
        function,
        items,
        program_mutated(items, items.len()),
        program_pair_mutated(items, items.len()),
        items.len(),
        builder,
    );
}

} // verus!
