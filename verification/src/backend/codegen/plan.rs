//! What the code of every core form is: the states that compiling it leads through.
use crate::backend::abi::RuntimeFunction;
use crate::backend::builtins::is_builtin_name;
use crate::backend::codegen::plan_builtins::compile_builtin_call_steps;
use crate::backend::codegen::plan_procedures::{compile_lambda_steps, recursive_bindings_steps};
use crate::backend::codegen::state::{
    block_steps, branch, branch_if, call_steps, compare_steps, emit_steps, position, value_steps, Argument,
    Env, Outcome, State, Val,
};
use crate::backend::codegen::values::{
    alloc_pair_rooted_steps, allocate_placeholder_closure_steps, bool_word, box_value_steps,
    branch_on_pending_exception_steps, build_scheme_args_list_steps, cons_word_steps,
    convert_argument_value_steps, emit_callable_call_steps, emit_tail_request_steps, empty_list_word,
    fixnum_literal, fixnum_zero, load_box_word_steps, load_rooted_word_steps, merge_branch_values_steps,
    phi_steps, pop_root_slots_steps, resolve_callable_value_steps, root_word_steps,
    tail_return_value_steps, unspecified_word, value_to_word_steps, word_of,
};
use crate::backend::ir::{FunctionRef, IrType, Op, Operand, Predicate};
use crate::backend::kinds::{words_signature, AbiValueKind, HeapValueKind, Signature};
use crate::backend::scope::{mutated, pair_mutated};
use crate::middle::hir::{binding_names, Binding, Datum, Expr, ExprKind, Params};
use crate::runtime::value::char_bits;
use crate::text::decimal_text;
use vstd::prelude::*;
use vstd::utf8::encode_utf8;

verus! {

broadcast use vstd::seq_lib::group_seq_properties;

/// Makes a string or a symbol from a text that the module holds as a constant.
#[verifier::opaque]
pub open spec fn literal_steps(
    state: State,
    builder: usize,
    prefix: Seq<char>,
    text: Seq<char>,
    alloc: RuntimeFunction,
    kind: HeapValueKind,
) -> (State, Val) {
    let name = prefix + decimal_text(state.counter);
    let (state, global) = value_steps(state, Op::AddBytes { name, text });
    let state = State { counter: state.counter + 1, ..state };
    let (state, pointer) = value_steps(state, Op::PointerCast { builder, value: global });
    let (state, ptr) = call_steps(
        state,
        builder,
        alloc,
        seq![pointer, Operand::Word(encode_utf8(text).len() as usize as u64)],
    );
    (state, Val::HeapObject { ptr, kind })
}

/// Makes a string.
#[verifier::opaque]
pub open spec fn string_literal_steps(state: State, builder: usize, text: Seq<char>) -> (State, Val) {
    literal_steps(
        state,
        builder,
        "__string_literal_"@,
        text,
        RuntimeFunction::AllocStringGc,
        HeapValueKind::String,
    )
}

/// Makes a symbol.
#[verifier::opaque]
pub open spec fn symbol_literal_steps(state: State, builder: usize, text: Seq<char>) -> (State, Val) {
    literal_steps(
        state,
        builder,
        "__symbol_literal_"@,
        text,
        RuntimeFunction::AllocSymbolGc,
        HeapValueKind::Symbol,
    )
}

/// Makes a quoted datum.
pub open spec fn compile_quote_steps(state: State, builder: usize, datum: Datum) -> Outcome<Val>
    decreases datum, 1nat,
{
    match datum {
        Datum::Integer(value) => match fixnum_literal(value) {
            Ok(word) => Ok((state, Val::Word(word))),
            Err(message) => Err(message),
        },
        Datum::Boolean(value) => Ok((state, Val::Word(bool_word(value)))),
        Datum::Char(value) => Ok((state, Val::Word(Operand::Word(char_bits(value) as u64)))),
        Datum::String(value) => Ok(string_literal_steps(state, builder, value@)),
        Datum::Symbol(value) => Ok(symbol_literal_steps(state, builder, value@)),
        Datum::List { items, tail } => {
            let last = match tail {
                Some(tail) => compile_quote_steps(state, builder, *tail),
                None => Ok((state, Val::Word(empty_list_word()))),
            };
            match last {
                Err(message) => Err(message),
                Ok((state, last)) => quote_items_steps(state, builder, items@, items@.len(), last),
            }
        },
    }
}

/// Puts the first `count` of a row of quoted data in front of a list.
pub open spec fn quote_items_steps(state: State, builder: usize, items: Seq<Datum>, count: nat, tail: Val) -> Outcome<Val>
    decreases items, count,
{
    if count == 0 || count > items.len() {
        Ok((state, tail))
    } else {
        match compile_quote_steps(state, builder, items[count - 1]) {
            Err(message) => Err(message),
            Ok((state, car)) => {
                let (state, car_word) = value_to_word_steps(state, builder, car);
                let (state, cdr_word) = value_to_word_steps(state, builder, tail);
                let (state, ptr) = alloc_pair_rooted_steps(state, builder, car_word, cdr_word);
                quote_items_steps(
                    state,
                    builder,
                    items,
                    (count - 1) as nat,
                    Val::HeapObject { ptr, kind: HeapValueKind::Pair },
                )
            },
        }
    }
}

/// What a variable stands for: what the scope binds it to, a procedure of the program, or a
/// builtin procedure.
#[verifier::opaque]
pub open spec fn variable_steps(state: State, builder: usize, env: Env, name: Seq<char>) -> Outcome<Val> {
    if env.contains_key(name) {
        match env[name] {
            Val::MutableBox { ptr } => {
                let (state, word) = load_box_word_steps(state, builder, ptr);
                Ok((state, Val::Word(word)))
            },
            Val::RootedWord { slot } => {
                let (state, word) = load_rooted_word_steps(state, builder, slot);
                Ok((state, Val::Word(word)))
            },
            value => Ok((state, value)),
        }
    } else if state.functions.contains_key(name) {
        Ok((state, Val::Function(state.functions[name])))
    } else if state.builtins.contains_key(name) {
        Ok((state, Val::Function(state.builtins[name])))
    } else {
        Err("undefined variable '"@ + name + "'"@)
    }
}

/// Whether what an expression left counts as true: everything but `#f` does.
#[verifier::opaque]
pub open spec fn truth_steps(state: State, builder: usize, value: Val) -> Outcome<Operand> {
    match value {
        Val::HeapObject { ptr, kind } => Ok((state, Operand::Bit(true))),
        Val::Closure { ptr, signature } => Ok((state, Operand::Bit(true))),
        other => match word_of(other, "if condition"@) {
            Err(message) => Err(message),
            Ok(word) => Ok(compare_steps(state, builder, Predicate::NotEqual, word, bool_word(false))),
        },
    }
}

/// The value of a row of expressions: that of the last of the first `count`.
pub open spec fn compile_all_steps(
    state: State,
    builder: usize,
    function: FunctionRef,
    env: Env,
    exprs: Seq<Expr>,
    count: nat,
) -> Outcome<Val>
    decreases exprs, 10nat, count,
{
    if count == 0 || count > exprs.len() {
        Ok((state, Val::Word(fixnum_zero())))
    } else {
        match compile_all_steps(state, builder, function, env, exprs, (count - 1) as nat) {
            Err(message) => Err(message),
            Ok((state, last)) => compile_expr_steps(state, builder, function, env, exprs[count - 1]),
        }
    }
}

/// The code of an expression. After a call it is checked whether an exception is pending.
pub open spec fn compile_expr_steps(state: State, builder: usize, function: FunctionRef, env: Env, expr: Expr) -> Outcome<Val>
    decreases expr, 20nat, 0nat,
{
    if expr.kind is Call {
        match compile_call_steps(state, builder, function, env, expr) {
            Err(message) => Err(message),
            Ok((state, value)) => Ok((branch_on_pending_exception_steps(state, builder, function), value)),
        }
    } else {
        compile_form_steps(state, builder, function, env, expr)
    }
}

/// The code of an expression that is no call.
pub open spec fn compile_form_steps(state: State, builder: usize, function: FunctionRef, env: Env, expr: Expr) -> Outcome<Val>
    decreases expr, 19nat, 0nat,
{
    match expr.kind {
        ExprKind::Unspecified => Ok((state, Val::Word(unspecified_word()))),
        ExprKind::Integer(value) => match fixnum_literal(value) {
            Ok(word) => Ok((state, Val::Word(word))),
            Err(message) => Err(message),
        },
        ExprKind::Boolean(value) => Ok((state, Val::Word(bool_word(value)))),
        ExprKind::Char(value) => Ok((state, Val::Word(Operand::Word(char_bits(value) as u64)))),
        ExprKind::String(value) => Ok(string_literal_steps(state, builder, value@)),
        ExprKind::Variable(name) => variable_steps(state, builder, env, name@),
        ExprKind::Assign { name, value } => compile_set_steps(state, builder, function, env, name@, *value),
        ExprKind::Begin(exprs) => compile_all_steps(state, builder, function, env, exprs@, exprs@.len()),
        ExprKind::Let { bindings, body } => compile_scoped_steps(state, builder, function, env, expr),
        ExprKind::LetStar { bindings, body } => compile_scoped_steps(state, builder, function, env, expr),
        ExprKind::LetRec { bindings, body } => compile_scoped_steps(state, builder, function, env, expr),
        ExprKind::Guard { name, handler, body } => compile_guard_steps(state, builder, function, env, expr),
        ExprKind::Delay(inner) => compile_delay_steps(state, builder, env, *inner),
        ExprKind::Force(inner) => compile_force_steps(state, builder, function, env, *inner),
        ExprKind::If { condition, then_branch, else_branch } => compile_if_steps(
            state,
            builder,
            function,
            env,
            expr,
        ),
        ExprKind::Lambda { formals, body } => compile_lambda_steps(state, builder, env, formals@, *body),
        ExprKind::Quote(datum) => compile_quote_steps(state, builder, datum),
        ExprKind::Call { callee, args } => Err(Seq::empty()),
    }
}

/// The code of a form that binds names for its body.
pub open spec fn compile_scoped_steps(state: State, builder: usize, function: FunctionRef, env: Env, expr: Expr) -> Outcome<Val>
    recommends
        expr.kind is Let || expr.kind is LetStar || expr.kind is LetRec,
    decreases expr, 15nat, 0nat,
{
    match expr.kind {
        ExprKind::Let { bindings, body } => match parallel_bindings_steps(
            state,
            builder,
            function,
            env,
            bindings@,
            bindings@.len(),
            *body,
        ) {
            Err(message) => Err(message),
            Ok((state, (scoped, rooted))) => match compile_expr_steps(state, builder, function, scoped, *body) {
                Err(message) => Err(message),
                Ok((state, value)) => Ok((pop_root_slots_steps(state, builder, rooted), value)),
            },
        },
        ExprKind::LetStar { bindings, body } => match sequential_bindings_steps(
            state,
            builder,
            function,
            env,
            bindings@,
            bindings@.len(),
            *body,
        ) {
            Err(message) => Err(message),
            Ok((state, (scoped, rooted))) => match compile_expr_steps(state, builder, function, scoped, *body) {
                Err(message) => Err(message),
                Ok((state, value)) => Ok((pop_root_slots_steps(state, builder, rooted), value)),
            },
        },
        ExprKind::LetRec { bindings, body } => match recursive_bindings_steps(state, builder, env, bindings@) {
            Err(message) => Err(message),
            Ok((state, scoped)) => compile_expr_steps(
                state,
                builder,
                function,
                env.union_prefer_right(scoped),
                *body,
            ),
        },
        _ => Err(Seq::empty()),
    }
}

/// The code of a conditional.
pub open spec fn compile_if_steps(state: State, builder: usize, function: FunctionRef, env: Env, expr: Expr) -> Outcome<Val>
    recommends
        expr.kind is If,
    decreases expr, 15nat, 0nat,
{
    match expr.kind {
        ExprKind::If { condition, then_branch, else_branch } => match compile_expr_steps(
            state,
            builder,
            function,
            env,
            *condition,
        ) {
            Err(message) => Err(message),
            Ok((state, value)) => match truth_steps(state, builder, value) {
                Err(message) => Err(message),
                Ok((state, predicate)) => {
                    let (state, then_block) = block_steps(state, function);
                    let (state, else_block) = block_steps(state, function);
                    let (state, merge_block) = block_steps(state, function);
                    let state = branch_if(state, builder, predicate, then_block, else_block);
                    let state = position(state, builder, then_block);
                    match compile_expr_steps(state, builder, function, env, *then_branch) {
                        Err(message) => Err(message),
                        Ok((state, then_value)) => {
                            let state = branch(state, builder, merge_block);
                            let (state, then_exit) = emit_steps(state, Op::InsertBlock { builder });
                            let state = position(state, builder, else_block);
                            match compile_expr_steps(state, builder, function, env, *else_branch) {
                                Err(message) => Err(message),
                                Ok((state, else_value)) => {
                                    let state = branch(state, builder, merge_block);
                                    let (state, else_exit) = emit_steps(state, Op::InsertBlock { builder });
                                    let state = position(state, builder, merge_block);
                                    merge_branch_values_steps(
                                        state,
                                        builder,
                                        then_value,
                                        then_exit,
                                        else_value,
                                        else_exit,
                                    )
                                },
                            }
                        },
                    }
                },
            },
        },
        _ => Err(Seq::empty()),
    }
}

/// The code of an assignment.
pub open spec fn compile_set_steps(state: State, builder: usize, function: FunctionRef, env: Env, name: Seq<char>, value: Expr) -> Outcome<Val>
    decreases value, 21nat, 0nat,
{
    if !env.contains_key(name) {
        Err("set! target '"@ + name + "' is undefined"@)
    } else {
        match env[name] {
            Val::MutableBox { ptr } => match compile_expr_steps(state, builder, function, env, value) {
                Err(message) => Err(message),
                Ok((state, compiled)) => {
                    let (state, word) = value_to_word_steps(state, builder, compiled);
                    let (state, result) = call_steps(state, builder, RuntimeFunction::BoxSetGc, seq![ptr, word]);
                    Ok((state, Val::Word(result)))
                },
            },
            _ => Err("set! target '"@ + name + "' is immutable in the current implementation"@),
        }
    }
}

/// How a name is bound to a value: in a heap cell where it is assigned to, in a rooted slot
/// where its pair is changed, and as it is otherwise. The number of rooted slots comes along.
#[verifier::opaque]
pub open spec fn bind_steps(
    state: State,
    builder: usize,
    env: Env,
    rooted: nat,
    name: Seq<char>,
    value: Val,
    assigned: Set<Seq<char>>,
    changed: Set<Seq<char>>,
) -> (State, (Env, nat)) {
    if assigned.contains(name) {
        let (state, cell) = box_value_steps(state, builder, value);
        (state, (env.insert(name, cell), rooted))
    } else if changed.contains(name) {
        let (state, word) = value_to_word_steps(state, builder, value);
        let (state, slot) = root_word_steps(state, builder, word);
        (state, (env.insert(name, Val::RootedWord { slot }), rooted + 1))
    } else {
        (state, (env.insert(name, value), rooted))
    }
}

/// Which of the names of a row of bindings the body assigns to.
#[verifier::opaque]
pub open spec fn assigned_in(body: Expr, names: Seq<Seq<char>>) -> Set<Seq<char>> {
    mutated(body, names)
}

/// Which of the names of a row of bindings the body changes the pair of.
#[verifier::opaque]
pub open spec fn changed_in(body: Expr, names: Seq<Seq<char>>) -> Set<Seq<char>> {
    pair_mutated(body, names)
}

/// The scope of the body of a `let`.
pub open spec fn parallel_bindings_steps(
    state: State,
    builder: usize,
    function: FunctionRef,
    env: Env,
    bindings: Seq<Binding>,
    count: nat,
    body: Expr,
) -> Outcome<(Env, nat)>
    decreases bindings, 10nat, count,
{
    if count == 0 || count > bindings.len() {
        Ok((state, (env, 0)))
    } else {
        match parallel_bindings_steps(state, builder, function, env, bindings, (count - 1) as nat, body) {
            Err(message) => Err(message),
            Ok((state, (scoped, rooted))) => match compile_expr_steps(
                state,
                builder,
                function,
                env,
                bindings[count - 1].value,
            ) {
                Err(message) => Err(message),
                Ok((state, value)) => Ok(
                    bind_steps(
                        state,
                        builder,
                        scoped,
                        rooted,
                        bindings[count - 1].name@,
                        value,
                        assigned_in(body, binding_names(bindings)),
                        changed_in(body, binding_names(bindings)),
                    ),
                ),
            },
        }
    }
}

/// The scope of the body of a `let*`.
pub open spec fn sequential_bindings_steps(
    state: State,
    builder: usize,
    function: FunctionRef,
    env: Env,
    bindings: Seq<Binding>,
    count: nat,
    body: Expr,
) -> Outcome<(Env, nat)>
    decreases bindings, 10nat, count,
{
    if count == 0 || count > bindings.len() {
        Ok((state, (env, 0)))
    } else {
        match sequential_bindings_steps(state, builder, function, env, bindings, (count - 1) as nat, body) {
            Err(message) => Err(message),
            Ok((state, (scoped, rooted))) => match compile_expr_steps(
                state,
                builder,
                function,
                scoped,
                bindings[count - 1].value,
            ) {
                Err(message) => Err(message),
                Ok((state, value)) => Ok(
                    bind_steps(
                        state,
                        builder,
                        scoped,
                        rooted,
                        bindings[count - 1].name@,
                        value,
                        assigned_in(body, binding_names(bindings)),
                        changed_in(body, binding_names(bindings)),
                    ),
                ),
            },
        }
    }
}

/// Opens the handler of a `guard`: its scope binds the exception.
#[verifier::opaque]
pub open spec fn guard_handler_steps(state: State, builder: usize, env: Env, handler_block: usize, name: Seq<char>) -> (State, Env) {
    let state = position(state, builder, handler_block);
    let (state, exception) = call_steps(state, builder, RuntimeFunction::RtTakePendingException, Seq::empty());
    (state, env.insert(name, Val::Word(exception)))
}

/// The code of a `guard`.
pub open spec fn compile_guard_steps(state: State, builder: usize, function: FunctionRef, env: Env, expr: Expr) -> Outcome<Val>
    recommends
        expr.kind is Guard,
    decreases expr, 15nat, 0nat,
{
    match expr.kind {
        ExprKind::Guard { name, handler, body } => {
            let (state, body_block) = block_steps(state, function);
            let (state, handler_block) = block_steps(state, function);
            let (state, merge_block) = block_steps(state, function);
            let state = branch(state, builder, body_block);
            let state = position(state, builder, body_block);
            let outer = state.targets;
            let state = State { targets: outer.push(handler_block), ..state };
            match compile_expr_steps(state, builder, function, env, *body) {
                Err(message) => Err(message),
                Ok((state, body_value)) => {
                    let state = State { targets: outer, ..state };
                    let state = branch(state, builder, merge_block);
                    let (state, body_exit) = emit_steps(state, Op::InsertBlock { builder });
                    let (state, guarded) = guard_handler_steps(state, builder, env, handler_block, name@);
                    match compile_expr_steps(state, builder, function, guarded, *handler) {
                        Err(message) => Err(message),
                        Ok((state, handler_value)) => {
                            let state = branch(state, builder, merge_block);
                            let (state, handler_exit) = emit_steps(state, Op::InsertBlock { builder });
                            let state = position(state, builder, merge_block);
                            merge_branch_values_steps(
                                state,
                                builder,
                                body_value,
                                body_exit,
                                handler_value,
                                handler_exit,
                            )
                        },
                    }
                },
            }
        },
        _ => Err(Seq::empty()),
    }
}

/// The code of a `delay`: a promise that holds a procedure without parameters.
pub open spec fn compile_delay_steps(state: State, builder: usize, env: Env, inner: Expr) -> Outcome<Val>
    decreases inner, 40nat, 0nat,
{
    match compile_lambda_steps(state, builder, env, Params { required: Seq::empty(), rest: None }, inner) {
        Err(message) => Err(message),
        Ok((state, thunk)) => {
            let (state, thunk) = match thunk {
                Val::Function(info) => allocate_placeholder_closure_steps(
                    state,
                    builder,
                    info.wrapper,
                    info.signature,
                    0,
                ),
                other => (state, other),
            };
            let (state, thunk_word) = value_to_word_steps(state, builder, thunk);
            let (state, ptr) = call_steps(state, builder, RuntimeFunction::AllocPromiseGc, seq![thunk_word]);
            Ok((state, Val::HeapObject { ptr, kind: HeapValueKind::Promise }))
        },
    }
}

/// The reference to a promise, where an expression is known to have left one.
pub open spec fn promise_pointer(value: Val) -> Option<Operand> {
    match value {
        Val::HeapObject { ptr, kind } => if kind == HeapValueKind::Promise {
            Some(ptr)
        } else {
            None
        },
        _ => None,
    }
}

/// The code of a `force`.
pub open spec fn compile_force_steps(state: State, builder: usize, function: FunctionRef, env: Env, inner: Expr) -> Outcome<Val>
    decreases inner, 21nat, 0nat,
{
    match compile_expr_steps(state, builder, function, env, inner) {
        Err(message) => Err(message),
        Ok((state, promise)) => match promise_pointer(promise) {
            Some(ptr) => force_promise_steps(
                state,
                builder,
                function,
                ptr,
                RuntimeFunction::PromiseForcedGc,
                RuntimeFunction::PromiseValueGc,
                RuntimeFunction::PromiseResolveGc,
            ),
            None => match word_of(promise, "force argument"@) {
                Err(message) => Err(message),
                Ok(word) => force_promise_steps(
                    state,
                    builder,
                    function,
                    word,
                    RuntimeFunction::PromiseForced,
                    RuntimeFunction::PromiseValue,
                    RuntimeFunction::PromiseResolve,
                ),
            },
        },
    }
}

/// Forces a promise: takes its value where it has one, and runs its procedure otherwise.
#[verifier::opaque]
pub open spec fn force_promise_steps(
    state: State,
    builder: usize,
    function: FunctionRef,
    promise: Operand,
    is_forced: RuntimeFunction,
    value_of: RuntimeFunction,
    resolve: RuntimeFunction,
) -> Outcome<Val> {
    let (state, forced) = call_steps(state, builder, is_forced, seq![promise]);
    let (state, forced_block) = block_steps(state, function);
    let (state, evaluate_block) = block_steps(state, function);
    let (state, merge_block) = block_steps(state, function);
    let state = branch_if(state, builder, forced, forced_block, evaluate_block);
    let state = position(state, builder, forced_block);
    let (state, forced_value) = call_steps(state, builder, value_of, seq![promise]);
    let state = branch(state, builder, merge_block);
    let (state, forced_exit) = emit_steps(state, Op::InsertBlock { builder });
    let state = position(state, builder, evaluate_block);
    let (state, thunk_word) = call_steps(state, builder, value_of, seq![promise]);
    let (state, thunk_ptr) = value_steps(state, Op::IntToPtr { builder, value: thunk_word });
    let signature = words_signature(0, false);
    match emit_callable_call_steps(
        state,
        builder,
        Val::Closure { ptr: thunk_ptr, signature },
        signature,
        Seq::empty(),
    ) {
        Err(message) => Err(message),
        Ok((state, result)) => {
            let state = branch_on_pending_exception_steps(state, builder, function);
            match word_of(result, "promise force result"@) {
                Err(message) => Err(message),
                Ok(word) => {
                    let (state, resolved) = call_steps(state, builder, resolve, seq![promise, word]);
                    let state = branch(state, builder, merge_block);
                    let (state, evaluate_exit) = emit_steps(state, Op::InsertBlock { builder });
                    let state = position(state, builder, merge_block);
                    let (state, value) = phi_steps(
                        state,
                        builder,
                        IrType::Word,
                        forced_value,
                        forced_exit,
                        resolved,
                        evaluate_exit,
                    );
                    Ok((state, Val::Word(value)))
                },
            }
        },
    }
}

/// Whether a call is one of a builtin that the scope does not hide.
pub open spec fn calls_builtin(callee: Expr, env: Env) -> Option<Seq<char>> {
    match callee.kind {
        ExprKind::Variable(name) => if is_builtin_name(name@) && !env.contains_key(name@) {
            Some(name@)
        } else {
            None
        },
        _ => None,
    }
}

/// The text behind the number of required arguments.
pub open spec fn or_more(rest: bool) -> Seq<char> {
    if rest {
        " or more"@
    } else {
        ""@
    }
}

/// Whether a procedure can be called with a number of arguments.
pub open spec fn accepts(signature: Signature, count: nat) -> bool {
    signature.params.len() <= count && (signature.rest || count == signature.params.len())
}

/// The first `count` arguments of a call.
pub open spec fn direct_args_steps(
    state: State,
    builder: usize,
    function: FunctionRef,
    env: Env,
    args: Seq<Expr>,
    skip: nat,
    kinds: Seq<AbiValueKind>,
    count: nat,
    context: Seq<char>,
) -> Outcome<Seq<Argument>>
    decreases args, 10nat, count,
{
    if count == 0 || count > kinds.len() || skip + count > args.len() {
        Ok((state, Seq::empty()))
    } else {
        match direct_args_steps(state, builder, function, env, args, skip, kinds, (count - 1) as nat, context) {
            Err(message) => Err(message),
            Ok((state, before)) => match compile_expr_steps(state, builder, function, env, args[skip + count - 1]) {
                Err(message) => Err(message),
                Ok((state, value)) => match convert_argument_value_steps(
                    state,
                    builder,
                    value,
                    kinds[count - 1],
                    context,
                ) {
                    Err(message) => Err(message),
                    Ok((state, argument)) => Ok((state, before.push(argument))),
                },
            },
        }
    }
}

/// Puts the values of the arguments from `start` up to `end` in front of a list.
pub open spec fn list_value_steps(
    state: State,
    builder: usize,
    function: FunctionRef,
    env: Env,
    args: Seq<Expr>,
    start: nat,
    end: nat,
    tail: Operand,
) -> Outcome<Operand>
    decreases args, 10nat, end,
{
    if end <= start || end > args.len() {
        Ok((state, tail))
    } else {
        match compile_expr_steps(state, builder, function, env, args[end - 1]) {
            Err(message) => Err(message),
            Ok((state, value)) => {
                let (state, car) = value_to_word_steps(state, builder, value);
                let (state, list) = cons_word_steps(state, builder, car, tail);
                list_value_steps(state, builder, function, env, args, start, (end - 1) as nat, list)
            },
        }
    }
}

/// The arguments of a call of a procedure.
pub open spec fn call_args_steps(
    state: State,
    builder: usize,
    function: FunctionRef,
    env: Env,
    signature: Signature,
    args: Seq<Expr>,
) -> Outcome<Seq<Argument>>
    decreases args, 20nat, 0nat,
{
    if !accepts(signature, args.len()) {
        Err(
            "procedure expects "@ + decimal_text(signature.params.len()) + or_more(signature.rest)
                + " arguments but got "@ + decimal_text(args.len()),
        )
    } else {
        match direct_args_steps(
            state,
            builder,
            function,
            env,
            args,
            0,
            signature.params,
            signature.params.len(),
            "procedure.argument"@,
        ) {
            Err(message) => Err(message),
            Ok((state, direct)) => if signature.rest {
                match list_value_steps(
                    state,
                    builder,
                    function,
                    env,
                    args,
                    signature.params.len(),
                    args.len(),
                    empty_list_word(),
                ) {
                    Err(message) => Err(message),
                    Ok((state, rest)) => Ok((state, direct.push(Argument::Int(rest)))),
                }
            } else {
                Ok((state, direct))
            },
        }
    }
}

/// The code of a call.
pub open spec fn compile_call_steps(state: State, builder: usize, function: FunctionRef, env: Env, expr: Expr) -> Outcome<Val>
    recommends
        expr.kind is Call,
    decreases expr, 15nat, 0nat,
{
    match expr.kind {
        ExprKind::Call { callee, args } => match calls_builtin(*callee, env) {
            Some(name) => compile_builtin_call_steps(state, builder, function, env, name, args@),
            None => match compile_expr_steps(state, builder, function, env, *callee) {
                Err(message) => Err(message),
                Ok((state, callee_value)) => match resolve_callable_value_steps(
                    state,
                    builder,
                    callee_value,
                    args@.len(),
                ) {
                    Err(message) => Err(message),
                    Ok((state, (resolved, signature))) => match call_args_steps(
                        state,
                        builder,
                        function,
                        env,
                        signature,
                        args@,
                    ) {
                        Err(message) => Err(message),
                        Ok((state, compiled)) => emit_callable_call_steps(
                            state,
                            builder,
                            resolved,
                            signature,
                            compiled,
                        ),
                    },
                },
            },
        },
        _ => Err(Seq::empty()),
    }
}

/// The code of a call whose value is that of the procedure it stands in.
pub open spec fn compile_tail_call_steps(
    state: State,
    builder: usize,
    function: FunctionRef,
    current: Signature,
    env: Env,
    expr: Expr,
    cleanup_roots: nat,
) -> Outcome<()>
    recommends
        expr.kind is Call,
    decreases expr, 25nat, 0nat,
{
    match expr.kind {
        ExprKind::Call { callee, args } => match calls_builtin(*callee, env) {
            Some(name) => match compile_builtin_call_steps(state, builder, function, env, name, args@) {
                Err(message) => Err(message),
                Ok((state, value)) => tail_return_value_steps(
                    state,
                    builder,
                    cleanup_roots,
                    current.return_kind,
                    value,
                ),
            },
            None => match compile_expr_steps(state, builder, function, env, *callee) {
                Err(message) => Err(message),
                Ok((state, callee_value)) => match resolve_callable_value_steps(
                    state,
                    builder,
                    callee_value,
                    args@.len(),
                ) {
                    Err(message) => Err(message),
                    Ok((state, (resolved, signature))) => match call_args_steps(
                        state,
                        builder,
                        function,
                        env,
                        signature,
                        args@,
                    ) {
                        Err(message) => Err(message),
                        Ok((state, compiled)) => match build_scheme_args_list_steps(
                            state,
                            builder,
                            signature,
                            compiled,
                        ) {
                            Err(message) => Err(message),
                            Ok((state, args_list)) => emit_tail_request_steps(
                                state,
                                builder,
                                current.return_kind,
                                resolved,
                                signature,
                                args_list,
                                cleanup_roots,
                            ),
                        },
                    },
                },
            },
        },
        _ => Err(Seq::empty()),
    }
}

/// The code of an expression whose value is that of the procedure it stands in.
pub open spec fn compile_tail_expr_steps(
    state: State,
    builder: usize,
    function: FunctionRef,
    current: Signature,
    env: Env,
    expr: Expr,
    cleanup_roots: nat,
) -> Outcome<()>
    decreases expr, 30nat, 0nat,
{
    if expr.kind is Call {
        compile_tail_call_steps(state, builder, function, current, env, expr, cleanup_roots)
    } else {
        compile_tail_form_steps(state, builder, function, current, env, expr, cleanup_roots)
    }
}

/// The same for an expression that is no call.
pub open spec fn compile_tail_form_steps(
    state: State,
    builder: usize,
    function: FunctionRef,
    current: Signature,
    env: Env,
    expr: Expr,
    cleanup_roots: nat,
) -> Outcome<()>
    decreases expr, 29nat, 0nat,
{
    match expr.kind {
        ExprKind::Begin(exprs) => if exprs@.len() == 0 {
            tail_return_value_steps(
                state,
                builder,
                cleanup_roots,
                current.return_kind,
                Val::Word(unspecified_word()),
            )
        } else {
            match compile_all_steps(state, builder, function, env, exprs@, (exprs@.len() - 1) as nat) {
                Err(message) => Err(message),
                Ok((state, dropped)) => compile_tail_expr_steps(
                    state,
                    builder,
                    function,
                    current,
                    env,
                    exprs@[exprs@.len() - 1],
                    cleanup_roots,
                ),
            }
        },
        ExprKind::Let { bindings, body } => match parallel_bindings_steps(
            state,
            builder,
            function,
            env,
            bindings@,
            bindings@.len(),
            *body,
        ) {
            Err(message) => Err(message),
            Ok((state, (scoped, rooted))) => compile_tail_expr_steps(
                state,
                builder,
                function,
                current,
                scoped,
                *body,
                cleanup_roots + rooted,
            ),
        },
        ExprKind::LetStar { bindings, body } => match sequential_bindings_steps(
            state,
            builder,
            function,
            env,
            bindings@,
            bindings@.len(),
            *body,
        ) {
            Err(message) => Err(message),
            Ok((state, (scoped, rooted))) => compile_tail_expr_steps(
                state,
                builder,
                function,
                current,
                scoped,
                *body,
                cleanup_roots + rooted,
            ),
        },
        ExprKind::If { condition, then_branch, else_branch } => match compile_expr_steps(
            state,
            builder,
            function,
            env,
            *condition,
        ) {
            Err(message) => Err(message),
            Ok((state, value)) => match truth_steps(state, builder, value) {
                Err(message) => Err(message),
                Ok((state, predicate)) => {
                    let (state, then_block) = block_steps(state, function);
                    let (state, else_block) = block_steps(state, function);
                    let state = branch_if(state, builder, predicate, then_block, else_block);
                    let state = position(state, builder, then_block);
                    match compile_tail_expr_steps(
                        state,
                        builder,
                        function,
                        current,
                        env,
                        *then_branch,
                        cleanup_roots,
                    ) {
                        Err(message) => Err(message),
                        Ok((state, done)) => {
                            let state = position(state, builder, else_block);
                            compile_tail_expr_steps(
                                state,
                                builder,
                                function,
                                current,
                                env,
                                *else_branch,
                                cleanup_roots,
                            )
                        },
                    }
                },
            },
        },
        ExprKind::Guard { name, handler, body } => {
            let (state, body_block) = block_steps(state, function);
            let (state, handler_block) = block_steps(state, function);
            let state = branch(state, builder, body_block);
            let state = position(state, builder, body_block);
            let outer = state.targets;
            let state = State { targets: outer.push(handler_block), ..state };
            match compile_tail_expr_steps(state, builder, function, current, env, *body, cleanup_roots) {
                Err(message) => Err(message),
                Ok((state, done)) => {
                    let state = State { targets: outer, ..state };
                    let (state, guarded) = guard_handler_steps(state, builder, env, handler_block, name@);
                    compile_tail_expr_steps(
                        state,
                        builder,
                        function,
                        current,
                        guarded,
                        *handler,
                        cleanup_roots,
                    )
                },
            }
        },
        _ => match compile_expr_steps(state, builder, function, env, expr) {
            Err(message) => Err(message),
            Ok((state, value)) => tail_return_value_steps(
                state,
                builder,
                cleanup_roots,
                current.return_kind,
                value,
            ),
        },
    }
}

} // verus!
