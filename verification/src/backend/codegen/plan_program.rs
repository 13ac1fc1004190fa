//! What the code of a whole program is: the entries of the runtime, the builtin procedures,
//! the procedures of the program, and the function that runs its items.
use crate::backend::abi::{conversion_of, entry_type, plain_functions, wrapped_functions, Conversion, RuntimeFunction};
use crate::backend::builtins::{builtin_procedure_list, builtin_signature, procedure_id, sanitized};
use crate::backend::codegen::plan::{bind_steps, compile_expr_steps};
use crate::backend::codegen::plan_procedures::{
    direct_scheme_wrapper_steps, function_type_of, procedure_body_steps, scheme_wrapper_type_of, wrapper_name,
};
use crate::backend::codegen::state::{
    block_steps, call_steps, emit_steps, give_back, position, push_step, value_steps, Callable, Env, Outcome,
    State, Val,
};
use crate::backend::codegen::values::{
    emit_exception_return_block_steps, empty_list_word, fixnum_zero, pop_root_slots_steps,
    prefixed_list_steps, unspecified_word, value_to_word_steps,
};
use crate::backend::infer::top_level_signatures;
use crate::backend::ir::{has_body, FunctionRef, IrType, Op, Operand, Prototype};
use crate::backend::kinds::{default_signature_of, AbiValueKind, Signature};
use crate::backend::scope::{program_mutated, program_pair_mutated};
use crate::middle::hir::{TopLevel, Params};
use vstd::prelude::*;

verus! {

broadcast use vstd::seq_lib::group_seq_properties;

/// The state before anything was compiled.
pub open spec fn initial_state() -> State {
    State {
        trace: Seq::empty(),
        functions: Map::empty(),
        builtins: Map::empty(),
        counter: 0,
        targets: Seq::empty(),
    }
}

/// The first `count` parameters of a function.
pub open spec fn params_of(function: FunctionRef, count: nat) -> Seq<Operand> {
    Seq::new(count, |index: int| Operand::Param { function, skip: 0, index: index as usize })
}

/// Declares the entries of the runtime behind the first `count` of those that convert.
#[verifier::opaque]
pub open spec fn declare_raw_steps(state: State, functions: Seq<RuntimeFunction>, count: nat) -> State
    decreases count,
{
    if count == 0 || count > functions.len() {
        state
    } else {
        push_step(
            declare_raw_steps(state, functions, (count - 1) as nat),
            Op::DeclareRaw { function: functions[count - 1] },
        )
    }
}

/// Adds an entry that converts a heap pointer and hands on to the runtime.
#[verifier::opaque]
pub open spec fn gc_wrapper_steps(state: State, function: RuntimeFunction) -> State {
    let wrapper = FunctionRef::Runtime(function);
    let params = params_of(wrapper, entry_type(function).params.len());
    let (state, builder) = emit_steps(state, Op::CreateBuilder);
    let state = push_step(state, Op::DeclareRuntime { function });
    let (state, entry) = block_steps(state, wrapper);
    let state = position(state, builder, entry);
    match conversion_of(function) {
        Some(Conversion::OfResult) => {
            let (state, raw) = value_steps(
                state,
                Op::Call { builder, target: FunctionRef::Raw(function), args: params },
            );
            let (state, cast) = value_steps(state, Op::AddressSpaceCast { builder, value: raw, ty: IrType::Gc });
            give_back(state, builder, cast)
        },
        _ => {
            let (state, raw) = value_steps(
                state,
                Op::AddressSpaceCast {
                    builder,
                    value: Operand::Param { function: wrapper, skip: 0, index: 0 },
                    ty: IrType::Raw,
                },
            );
            let (state, result) = value_steps(
                state,
                Op::Call { builder, target: FunctionRef::Raw(function), args: params.update(0, raw) },
            );
            give_back(state, builder, result)
        },
    }
}

/// Adds the first `count` of the entries that convert.
#[verifier::opaque]
pub open spec fn gc_wrappers_steps(state: State, functions: Seq<RuntimeFunction>, count: nat) -> State
    decreases count,
{
    if count == 0 || count > functions.len() {
        state
    } else {
        gc_wrapper_steps(gc_wrappers_steps(state, functions, (count - 1) as nat), functions[count - 1])
    }
}

/// Adds the function that compiled code polls for collections.
#[verifier::opaque]
pub open spec fn poll_wrapper_steps(state: State) -> State {
    let wrapper = FunctionRef::Runtime(RuntimeFunction::SafepointPollWrapper);
    let (state, builder) = emit_steps(state, Op::CreateBuilder);
    let state = push_step(state, Op::DeclareRuntime { function: RuntimeFunction::SafepointPollWrapper });
    let state = push_step(state, Op::DeclareRuntime { function: RuntimeFunction::GcSafepointPoll });
    let (state, entry) = block_steps(state, wrapper);
    let state = position(state, builder, entry);
    let (state, polled) = call_steps(state, builder, RuntimeFunction::GcSafepointPoll, Seq::empty());
    push_step(state, Op::Return { builder, value: None })
}

/// Declares the first `count` of the entries that compiled code calls as they are.
#[verifier::opaque]
pub open spec fn declare_plain_steps(state: State, functions: Seq<RuntimeFunction>, count: nat) -> State
    decreases count,
{
    if count == 0 || count > functions.len() {
        state
    } else {
        push_step(
            declare_plain_steps(state, functions, (count - 1) as nat),
            Op::DeclareRuntime { function: functions[count - 1] },
        )
    }
}

/// Declares the runtime.
#[verifier::opaque]
pub open spec fn declare_runtime_steps(state: State) -> State {
    let wrapped = wrapped_functions();
    let plain = plain_functions();
    let state = declare_raw_steps(state, wrapped, wrapped.len());
    let state = gc_wrappers_steps(state, wrapped, wrapped.len());
    let state = poll_wrapper_steps(state);
    declare_plain_steps(state, plain, plain.len())
}

/// Adds the function of a procedure and its wrapper.
#[verifier::opaque]
pub open spec fn declare_procedure_steps(state: State, name: Seq<char>, scheme_name: Seq<char>, signature: Signature) -> (State, Callable) {
    let (state, value) = emit_steps(state, Op::AddFunction { name, ty: function_type_of(signature) });
    let (state, wrapper) = emit_steps(state, Op::AddFunction { name: scheme_name, ty: scheme_wrapper_type_of() });
    let state = push_step(state, Op::AttachGc { function: FunctionRef::Defined(value) });
    let state = push_step(state, Op::AttachGc { function: FunctionRef::Defined(wrapper) });
    (state, Callable { value, wrapper, signature })
}

/// Declares the first `count` of the builtin procedures.
#[verifier::opaque]
pub open spec fn declare_builtins_steps(state: State, names: Seq<Seq<char>>, count: nat) -> State
    decreases count,
{
    if count == 0 || count > names.len() {
        state
    } else {
        let state = declare_builtins_steps(state, names, (count - 1) as nat);
        let name = names[count - 1];
        let (state, info) = declare_procedure_steps(
            state,
            "__builtin_"@ + sanitized(name),
            "__scheme_wrap_builtin_"@ + sanitized(name),
            builtin_signature(name),
        );
        State { builtins: state.builtins.insert(name, info), ..state }
    }
}

/// The signature of a procedure of a program.
#[verifier::opaque]
pub open spec fn program_signature(items: Seq<TopLevel>, name: Seq<char>, formals: Params) -> Signature {
    let signatures = top_level_signatures(items, items.len());
    if signatures.contains_key(name) {
        signatures[name]
    } else {
        default_signature_of(formals)
    }
}

/// Declares the procedures among the first `count` items of a program.
#[verifier::opaque]
pub open spec fn declare_top_level_steps(state: State, items: Seq<TopLevel>, count: nat) -> Outcome<()>
    decreases count,
{
    if count == 0 || count > items.len() {
        Ok((state, ()))
    } else {
        match declare_top_level_steps(state, items, (count - 1) as nat) {
            Err(message) => Err(message),
            Ok((state, done)) => match items[count - 1] {
                TopLevel::Procedure(procedure) => if state.functions.contains_key(procedure.name@) {
                    Err("duplicate procedure definition '"@ + procedure.name@ + "'"@)
                } else {
                    let (state, info) = declare_procedure_steps(
                        state,
                        procedure.name@,
                        wrapper_name(sanitized(procedure.name@)),
                        program_signature(items, procedure.name@, procedure.formals@),
                    );
                    Ok((State { functions: state.functions.insert(procedure.name@, info), ..state }, ()))
                },
                _ => Ok((state, ())),
            },
        }
    }
}

/// The code of a builtin procedure: it hands its number and the list of its arguments to the
/// runtime.
#[verifier::opaque]
pub open spec fn builtin_wrapper_steps(state: State, info: Callable, name: Seq<char>) -> State {
    let function = FunctionRef::Defined(info.value);
    if has_body(state.trace, function) {
        state
    } else {
        let required = info.signature.params.len();
        let (state, builder) = emit_steps(state, Op::CreateBuilder);
        let (state, entry) = block_steps(state, function);
        let (state, exception_block) = block_steps(state, function);
        let state = position(state, builder, entry);
        let tail = if info.signature.rest {
            Operand::Param { function, skip: 0, index: required as usize }
        } else {
            empty_list_word()
        };
        let (state, list) = prefixed_list_steps(state, builder, params_of(function, required), required, tail);
        let (state, result) = call_steps(
            state,
            builder,
            RuntimeFunction::ApplyBuiltin,
            seq![Operand::Word(procedure_id(name) as u64), list],
        );
        let state = give_back(state, builder, result);
        let state = emit_exception_return_block_steps(state, exception_block, AbiValueKind::Word, 0);
        let message = "llvm verification failed for builtin wrapper '"@ + name + "'"@;
        push_step(state, Op::Verify { function, message })
    }
}

/// The wrapper of a builtin procedure.
#[verifier::opaque]
pub open spec fn builtin_scheme_wrapper_steps(state: State, info: Callable, name: Seq<char>) -> State {
    let function = FunctionRef::Defined(info.wrapper);
    if has_body(state.trace, function) {
        state
    } else {
        let (state, builder) = emit_steps(state, Op::CreateBuilder);
        let (state, entry) = block_steps(state, function);
        let state = position(state, builder, entry);
        let (state, result) = call_steps(
            state,
            builder,
            RuntimeFunction::ApplyBuiltin,
            seq![
                Operand::Word(procedure_id(name) as u64),
                Operand::Param { function, skip: 0, index: 1 },
            ],
        );
        let state = give_back(state, builder, result);
        let message = "llvm verification failed for builtin Scheme wrapper '"@ + name + "'"@;
        push_step(state, Op::Verify { function, message })
    }
}

/// The code of the first `count` builtin procedures.
#[verifier::opaque]
pub open spec fn compile_builtins_steps(state: State, names: Seq<Seq<char>>, count: nat) -> Outcome<()>
    decreases count,
{
    if count == 0 || count > names.len() {
        Ok((state, ()))
    } else {
        match compile_builtins_steps(state, names, (count - 1) as nat) {
            Err(message) => Err(message),
            Ok((state, done)) => {
                let name = names[count - 1];
                if !state.builtins.contains_key(name) {
                    Err("missing builtin wrapper for '"@ + name + "'"@)
                } else {
                    let info = state.builtins[name];
                    let state = builtin_wrapper_steps(state, info, name);
                    Ok((builtin_scheme_wrapper_steps(state, info, name), ()))
                }
            },
        }
    }
}

/// The code of the procedures among the first `count` items of a program.
#[verifier::opaque]
pub open spec fn compile_top_level_steps(state: State, items: Seq<TopLevel>, count: nat) -> Outcome<()>
    decreases count,
{
    if count == 0 || count > items.len() {
        Ok((state, ()))
    } else {
        match compile_top_level_steps(state, items, (count - 1) as nat) {
            Err(message) => Err(message),
            Ok((state, done)) => match items[count - 1] {
                TopLevel::Procedure(procedure) => if !state.functions.contains_key(procedure.name@) {
                    Err("missing function '"@ + procedure.name@ + "'"@)
                } else {
                    let info = state.functions[procedure.name@];
                    match procedure_body_steps(
                        state,
                        FunctionRef::Defined(info.value),
                        0,
                        procedure.name@,
                        info.signature,
                        procedure.formals@,
                        Seq::empty(),
                        procedure.body,
                    ) {
                        Err(message) => Err(message),
                        Ok((state, done)) => direct_scheme_wrapper_steps(
                            state,
                            info,
                            procedure.formals@,
                            wrapper_name(sanitized(procedure.name@)),
                        ),
                    }
                },
                _ => Ok((state, ())),
            },
        }
    }
}

/// What running the items of a program has led to: the scope, the number of rooted slots, and
/// the value of the last item.
pub struct Progress {
    pub env: Env,
    pub rooted: nat,
    pub last: Val,
}

/// The code of the first `count` items of a program.
#[verifier::opaque]
pub open spec fn compile_items_steps(
    state: State,
    builder: usize,
    function: FunctionRef,
    items: Seq<TopLevel>,
    assigned: Set<Seq<char>>,
    changed: Set<Seq<char>>,
    count: nat,
) -> Outcome<Progress>
    decreases count,
{
    if count == 0 || count > items.len() {
        Ok((state, Progress { env: Map::empty(), rooted: 0, last: Val::Word(fixnum_zero()) }))
    } else {
        match compile_items_steps(state, builder, function, items, assigned, changed, (count - 1) as nat) {
            Err(message) => Err(message),
            Ok((state, progress)) => match items[count - 1] {
                TopLevel::Definition { name, value } => match compile_expr_steps(
                    state,
                    builder,
                    function,
                    progress.env,
                    value,
                ) {
                    Err(message) => Err(message),
                    Ok((state, compiled)) => {
                        let (state, (env, rooted)) = bind_steps(
                            state,
                            builder,
                            progress.env,
                            progress.rooted,
                            name@,
                            compiled,
                            assigned,
                            changed,
                        );
                        Ok((state, Progress { env, rooted, last: Val::Word(unspecified_word()) }))
                    },
                },
                TopLevel::Expression(expr) => match compile_expr_steps(
                    state,
                    builder,
                    function,
                    progress.env,
                    expr,
                ) {
                    Err(message) => Err(message),
                    Ok((state, value)) => Ok((state, Progress { last: value, ..progress })),
                },
                TopLevel::Procedure(procedure) => Ok((state, progress)),
            },
        }
    }
}

/// The function that runs the items of a program. Where an exception is pending after the
/// last of them, the function has been left by a block of its own.
#[verifier::opaque]
pub open spec fn compile_main_steps(state: State, items: Seq<TopLevel>) -> Outcome<()> {
    let (state, builder) = emit_steps(state, Op::CreateBuilder);
    let (state, main) = emit_steps(
        state,
        Op::AddFunction { name: "main"@, ty: Prototype { ret: Some(IrType::Word), params: Seq::empty() } },
    );
    let function = FunctionRef::Defined(main);
    let state = push_step(state, Op::AttachGc { function });
    let (state, entry) = block_steps(state, function);
    let (state, exception_block) = block_steps(state, function);
    let state = position(state, builder, entry);
    let outer = state.targets;
    let state = State { targets: outer.push(exception_block), ..state };
    match compile_items_steps(
        state,
        builder,
        function,
        items,
        program_mutated(items, items.len()),
        program_pair_mutated(items, items.len()),
        items.len(),
    ) {
        Err(message) => Err(message),
        Ok((state, progress)) => {
            let (state, word) = value_to_word_steps(state, builder, progress.last);
            let state = pop_root_slots_steps(state, builder, progress.rooted);
            let state = State { targets: outer, ..state };
            let state = give_back(state, builder, word);
            let state = emit_exception_return_block_steps(
                state,
                exception_block,
                AbiValueKind::Word,
                progress.rooted,
            );
            Ok((push_step(state, Op::Verify { function, message: "llvm verification failed for module"@ }), ()))
        },
    }
}

/// The code of a program.
#[verifier::opaque]
pub open spec fn compile_program_steps(items: Seq<TopLevel>) -> Outcome<()> {
    let names = builtin_procedure_list();
    let state = declare_runtime_steps(initial_state());
    let state = declare_builtins_steps(state, names, names.len());
    match declare_top_level_steps(state, items, items.len()) {
        Err(message) => Err(message),
        Ok((state, done)) => match compile_builtins_steps(state, names, names.len()) {
            Err(message) => Err(message),
            Ok((state, done)) => match compile_top_level_steps(state, items, items.len()) {
                Err(message) => Err(message),
                Ok((state, done)) => compile_main_steps(state, items),
            },
        },
    }
}

} // verus!
