//! What the code of procedures is: their bodies, their wrappers and the objects that carry
//! what they capture.
use crate::backend::abi::RuntimeFunction;
use crate::backend::builtins::sanitized;
use crate::backend::codegen::plan::{assigned_in, bind_steps, changed_in, compile_tail_expr_steps};
use crate::backend::codegen::state::{
    block_steps, branch_if, call_steps, emit_steps, env_kinds, give_back, position, push_step, value_steps,
    Argument, Callable, Env, Outcome, State, Val,
};
use crate::backend::codegen::values::{
    allocate_placeholder_closure_steps, check_length_steps, convert_argument_value_steps,
    emit_exception_return_block_steps, list_tail_word_steps, load_closure_env_word_steps,
    load_list_element_steps, value_to_word_steps,
};
use crate::backend::infer::{lambda_signature, letrec_signatures};
use crate::backend::ir::{has_body, FunctionRef, IrType, Op, Operand, Predicate, Prototype};
use crate::backend::kinds::{default_signature_of, AbiValueKind, HeapValueKind, NameKind, Signature};
use crate::names::ascending;
use crate::backend::scope::{free_names};
use crate::middle::hir::{formal_names, Binding, Expr, ExprKind, Params};
use crate::text::decimal_text;
use vstd::prelude::*;

verus! {

broadcast use vstd::seq_lib::group_seq_properties;

/// The type of a parameter or result of a given kind.
pub open spec fn kind_type(kind: AbiValueKind) -> IrType {
    match kind {
        AbiValueKind::Word => IrType::Word,
        AbiValueKind::Heap(_) => IrType::Gc,
    }
}

/// The types of the parameters of a procedure; the list of further arguments comes last.
pub open spec fn param_types(signature: Signature) -> Seq<IrType> {
    let required = signature.params.map_values(|kind: AbiValueKind| kind_type(kind));
    if signature.rest {
        required.push(IrType::Word)
    } else {
        required
    }
}

/// The type of a procedure that captures nothing.
pub open spec fn function_type_of(signature: Signature) -> Prototype {
    Prototype { ret: Some(kind_type(signature.return_kind)), params: param_types(signature) }
}

/// The type of a procedure that takes its procedure object first.
pub open spec fn closure_function_type_of(signature: Signature) -> Prototype {
    Prototype {
        ret: Some(kind_type(signature.return_kind)),
        params: seq![IrType::Gc] + param_types(signature),
    }
}

/// The type under which every procedure can be called: with its procedure object and the
/// list of its arguments.
pub open spec fn scheme_wrapper_type_of() -> Prototype {
    Prototype { ret: Some(IrType::Word), params: seq![IrType::Gc, IrType::Word] }
}

/// Adds a function whose frames the collector reads.
pub open spec fn declare_steps(state: State, name: Seq<char>, ty: Prototype) -> (State, usize) {
    let (state, function) = emit_steps(state, Op::AddFunction { name, ty });
    (push_step(state, Op::AttachGc { function: FunctionRef::Defined(function) }), function)
}

/// The name of the wrapper of a function.
pub open spec fn wrapper_name(name: Seq<char>) -> Seq<char> {
    "__scheme_wrap_"@ + name
}

/// How a captured value travels in a procedure object.
pub open spec fn capture_kind(value: Val) -> NameKind {
    match value {
        Val::Word(_) => NameKind::Value(AbiValueKind::Word),
        Val::RootedWord { slot } => NameKind::Value(AbiValueKind::Word),
        Val::MutableBox { ptr } => NameKind::Value(AbiValueKind::Heap(HeapValueKind::Box)),
        Val::HeapObject { ptr, kind } => NameKind::Value(AbiValueKind::Heap(kind)),
        Val::Function(info) => NameKind::Function(info.signature),
        Val::Closure { ptr, signature } => NameKind::Function(signature),
    }
}

/// What a procedure captures: the names of its scope that it refers to, in ascending order.
#[verifier::opaque]
pub open spec fn captures_of(env: Env, formals: Params, body: Expr) -> Seq<(Seq<char>, NameKind)> {
    ascending(free_names(env.dom(), body, formal_names(formals))).map_values(
        |name: Seq<char>| (name, capture_kind(env[name])),
    )
}

/// The signature of a lambda expression of a scope.
#[verifier::opaque]
pub open spec fn scoped_signature(formals: Params, body: Expr, env: Env) -> Signature {
    lambda_signature(formals, body, env_kinds(env), Map::empty())
}

/// The signatures of the procedures of a `letrec` of a scope.
#[verifier::opaque]
pub open spec fn scoped_signatures(bindings: Seq<Binding>, env: Env) -> Map<Seq<char>, Signature> {
    letrec_signatures(bindings, env_kinds(env))
}

/// How many parameters the function of a procedure has, `extra` of them in front.
pub open spec fn param_count(signature: Signature, extra: nat) -> nat {
    extra + signature.params.len() + if signature.rest { 1nat } else { 0nat }
}

/// A parameter as a value of the given kind.
pub open spec fn param_value(function: FunctionRef, skip: usize, index: usize, kind: AbiValueKind) -> Val {
    match kind {
        AbiValueKind::Word => Val::Word(Operand::Param { function, skip, index }),
        AbiValueKind::Heap(heap_kind) => Val::HeapObject {
            ptr: Operand::Param { function, skip, index },
            kind: heap_kind,
        },
    }
}

/// The kind of a required parameter.
pub open spec fn param_kind_at(signature: Signature, index: int) -> AbiValueKind {
    if index < signature.params.len() {
        signature.params[index]
    } else {
        AbiValueKind::Word
    }
}

/// Binds the first `count` required parameters.
#[verifier::opaque]
pub open spec fn bind_params_steps(
    state: State,
    builder: usize,
    function: FunctionRef,
    skip: usize,
    signature: Signature,
    name: Seq<char>,
    required: Seq<Seq<char>>,
    count: nat,
    env: Env,
    assigned: Set<Seq<char>>,
    changed: Set<Seq<char>>,
) -> Outcome<(Env, nat)>
    decreases count,
{
    if count == 0 || count > required.len() {
        Ok((state, (env, 0)))
    } else {
        match bind_params_steps(
            state,
            builder,
            function,
            skip,
            signature,
            name,
            required,
            (count - 1) as nat,
            env,
            assigned,
            changed,
        ) {
            Err(message) => Err(message),
            Ok((state, (scoped, rooted))) => if skip + count - 1 >= param_count(signature, skip as nat) {
                Err(
                    "missing parameter "@ + decimal_text((count - 1) as nat) + " for function '"@ + name
                        + "'"@,
                )
            } else {
                Ok(
                    bind_steps(
                        state,
                        builder,
                        scoped,
                        rooted,
                        required[count - 1],
                        param_value(
                            function,
                            skip,
                            (count - 1) as usize,
                            param_kind_at(signature, count - 1),
                        ),
                        assigned,
                        changed,
                    ),
                )
            },
        }
    }
}

/// Binds the parameters of a procedure.
#[verifier::opaque]
pub open spec fn bind_formals_steps(
    state: State,
    builder: usize,
    function: FunctionRef,
    skip: usize,
    signature: Signature,
    name: Seq<char>,
    formals: Params,
    env: Env,
    assigned: Set<Seq<char>>,
    changed: Set<Seq<char>>,
) -> Outcome<(Env, nat)> {
    match bind_params_steps(
        state,
        builder,
        function,
        skip,
        signature,
        name,
        formals.required,
        formals.required.len(),
        env,
        assigned,
        changed,
    ) {
        Err(message) => Err(message),
        Ok((state, (scoped, rooted))) => match formals.rest {
            None => Ok((state, (scoped, rooted))),
            Some(rest) => if skip + formals.required.len() >= param_count(signature, skip as nat) {
                Err("missing rest parameter for function '"@ + name + "'"@)
            } else {
                Ok(
                    bind_steps(
                        state,
                        builder,
                        scoped,
                        rooted,
                        rest,
                        Val::Word(
                            Operand::Param { function, skip, index: formals.required.len() as usize },
                        ),
                        assigned,
                        changed,
                    ),
                )
            },
        },
    }
}

/// Binds the first `count` captured names to the words of the procedure object.
#[verifier::opaque]
pub open spec fn bind_captures_steps(
    state: State,
    builder: usize,
    closure: Operand,
    captures: Seq<(Seq<char>, NameKind)>,
    count: nat,
) -> (State, Env)
    decreases count,
{
    if count == 0 || count > captures.len() {
        (state, Map::empty())
    } else {
        let (state, env) = bind_captures_steps(state, builder, closure, captures, (count - 1) as nat);
        let (name, kind) = captures[count - 1];
        let (state, captured) = load_closure_env_word_steps(state, builder, closure, (count - 1) as usize);
        match kind {
            NameKind::Value(AbiValueKind::Word) => (state, env.insert(name, Val::Word(captured))),
            NameKind::Value(AbiValueKind::Heap(heap_kind)) => {
                let (state, ptr) = value_steps(state, Op::IntToPtr { builder, value: captured });
                if heap_kind == HeapValueKind::Box {
                    (state, env.insert(name, Val::MutableBox { ptr }))
                } else {
                    (state, env.insert(name, Val::HeapObject { ptr, kind: heap_kind }))
                }
            },
            NameKind::Function(signature) => {
                let (state, ptr) = value_steps(state, Op::IntToPtr { builder, value: captured });
                (state, env.insert(name, Val::Closure { ptr, signature }))
            },
        }
    }
}

/// The code of a procedure: its parameters are bound on top of what it captures, and its body
/// is evaluated for its value. `skip` parameters come before those of the procedure.
pub open spec fn procedure_body_steps(
    state: State,
    function: FunctionRef,
    skip: usize,
    name: Seq<char>,
    signature: Signature,
    formals: Params,
    captures: Seq<(Seq<char>, NameKind)>,
    body: Expr,
) -> Outcome<()>
    decreases body, 31nat, 0nat,
{
    if has_body(state.trace, function) {
        Ok((state, ()))
    } else {
        let (state, builder) = emit_steps(state, Op::CreateBuilder);
        let (state, entry) = block_steps(state, function);
        let (state, exception_block) = block_steps(state, function);
        let state = position(state, builder, entry);
        let outer = state.targets;
        let state = State { targets: outer.push(exception_block), ..state };
        let (state, captured) = bind_captures_steps(
            state,
            builder,
            Operand::Param { function, skip: 0, index: 0 },
            captures,
            captures.len(),
        );
        match bind_formals_steps(
            state,
            builder,
            function,
            skip,
            signature,
            name,
            formals,
            captured,
            assigned_in(body, formal_names(formals)),
            changed_in(body, formal_names(formals)),
        ) {
            Err(message) => Err(message),
            Ok((state, (env, rooted))) => match compile_tail_expr_steps(
                state,
                builder,
                function,
                signature,
                env,
                body,
                rooted,
            ) {
                Err(message) => Err(message),
                Ok((state, done)) => {
                    let state = emit_exception_return_block_steps(
                        state,
                        exception_block,
                        signature.return_kind,
                        rooted,
                    );
                    let state = State { targets: outer, ..state };
                    let message = "llvm verification failed for function '"@ + name + "'"@;
                    Ok((push_step(state, Op::Verify { function, message }), ()))
                },
            },
        }
    }
}

/// The first `count` arguments that a wrapper takes out of the list of arguments.
#[verifier::opaque]
pub open spec fn wrapper_args_steps(
    state: State,
    builder: usize,
    args_list: Operand,
    kinds: Seq<AbiValueKind>,
    count: nat,
    context: Seq<char>,
) -> Outcome<Seq<Operand>>
    decreases count,
{
    if count == 0 || count > kinds.len() {
        Ok((state, Seq::empty()))
    } else {
        match wrapper_args_steps(state, builder, args_list, kinds, (count - 1) as nat, context) {
            Err(message) => Err(message),
            Ok((state, before)) => {
                let (state, loaded) = load_list_element_steps(
                    state,
                    builder,
                    args_list,
                    (count - 1) as usize,
                    kinds[count - 1],
                );
                match convert_argument_value_steps(state, builder, loaded, kinds[count - 1], context) {
                    Err(message) => Err(message),
                    Ok((state, argument)) => Ok((state, before.push(argument_operand(argument)))),
                }
            },
        }
    }
}

/// The operand of an argument.
pub open spec fn argument_operand(argument: Argument) -> Operand {
    match argument {
        Argument::Int(word) => word,
        Argument::Pointer(ptr) => ptr,
    }
}

/// Hands on what a procedure left to its wrapper: its request for a tail call where it made
/// one, and its value as a word otherwise.
#[verifier::opaque]
pub open spec fn wrapper_return_steps(
    state: State,
    builder: usize,
    function: FunctionRef,
    return_kind: AbiValueKind,
    result: Operand,
) -> State {
    let (state, pending) = call_steps(state, builder, RuntimeFunction::RtTailPending, Seq::empty());
    let (state, tail_block) = block_steps(state, function);
    let (state, value_block) = block_steps(state, function);
    let state = branch_if(state, builder, pending, tail_block, value_block);
    let state = position(state, builder, tail_block);
    let (state, marker) = call_steps(state, builder, RuntimeFunction::RtTailCallMarker, Seq::empty());
    let state = give_back(state, builder, marker);
    let state = position(state, builder, value_block);
    let (state, wrapped) = match return_kind {
        AbiValueKind::Word => (state, result),
        AbiValueKind::Heap(_) => value_steps(state, Op::PtrToInt { builder, value: result }),
    };
    give_back(state, builder, wrapped)
}

/// The arguments that a wrapper calls its procedure with.
pub open spec fn wrapper_call_args(function: FunctionRef, takes_closure: bool, direct: Seq<Operand>) -> Seq<Operand> {
    if takes_closure {
        seq![Operand::Param { function, skip: 0, index: 0 }] + direct
    } else {
        direct
    }
}

/// The code of a wrapper: it takes the arguments out of their list, calls the procedure, and
/// hands on the request for a tail call that it may have left.
#[verifier::opaque]
pub open spec fn scheme_wrapper_steps(
    state: State,
    wrapper: usize,
    target: usize,
    signature: Signature,
    takes_rest: bool,
    takes_closure: bool,
    context: Seq<char>,
    message: Seq<char>,
) -> Outcome<()> {
    let function = FunctionRef::Defined(wrapper);
    if has_body(state.trace, function) {
        Ok((state, ()))
    } else {
        let (state, builder) = emit_steps(state, Op::CreateBuilder);
        let (state, entry) = block_steps(state, function);
        let state = position(state, builder, entry);
        let args_list = Operand::Param { function, skip: 0, index: 1 };
        let state = check_length_steps(
            state,
            builder,
            function,
            RuntimeFunction::ListLength,
            args_list,
            if signature.rest { Predicate::UnsignedGreaterEqual } else { Predicate::Equal },
            signature.params.len() as usize,
        );
        match wrapper_args_steps(state, builder, args_list, signature.params, signature.params.len(), context) {
            Err(message) => Err(message),
            Ok((state, direct)) => {
                let given = wrapper_call_args(function, takes_closure, direct);
                let (state, args) = if takes_rest {
                    let (state, rest) = list_tail_word_steps(
                        state,
                        builder,
                        args_list,
                        signature.params.len() as usize,
                    );
                    (state, given.push(rest))
                } else {
                    (state, given)
                };
                let (state, result) = value_steps(
                    state,
                    Op::Call { builder, target: FunctionRef::Defined(target), args },
                );
                let state = wrapper_return_steps(state, builder, function, signature.return_kind, result);
                Ok((push_step(state, Op::Verify { function, message }), ()))
            },
        }
    }
}

/// The wrapper of a procedure that captures nothing.
#[verifier::opaque]
pub open spec fn direct_scheme_wrapper_steps(state: State, info: Callable, formals: Params, name: Seq<char>) -> Outcome<()> {
    scheme_wrapper_steps(
        state,
        info.wrapper,
        info.value,
        info.signature,
        formals.rest.is_some(),
        false,
        "scheme.wrapper.arg"@,
        "llvm verification failed for Scheme wrapper '"@ + name + "'"@,
    )
}

/// The wrapper of a procedure that captures something.
#[verifier::opaque]
pub open spec fn closure_scheme_wrapper_steps(
    state: State,
    wrapper: usize,
    function: usize,
    signature: Signature,
    formals: Params,
    name: Seq<char>,
) -> Outcome<()> {
    scheme_wrapper_steps(
        state,
        wrapper,
        function,
        signature,
        formals.rest.is_some(),
        true,
        "closure.scheme.arg"@,
        "llvm verification failed for closure Scheme wrapper '"@ + name + "'"@,
    )
}

/// Writes the first `count` captured values into a row of words.
#[verifier::opaque]
pub open spec fn fill_captures_steps(
    state: State,
    builder: usize,
    env: Env,
    values: Operand,
    captures: Seq<(Seq<char>, NameKind)>,
    count: nat,
) -> Outcome<()>
    decreases count,
{
    if count == 0 || count > captures.len() {
        Ok((state, ()))
    } else {
        match fill_captures_steps(state, builder, env, values, captures, (count - 1) as nat) {
            Err(message) => Err(message),
            Ok((state, done)) => if !env.contains_key(captures[count - 1].0) {
                Err("captured variable '"@ + captures[count - 1].0 + "' is missing from the environment"@)
            } else {
                let (state, word) = value_to_word_steps(state, builder, env[captures[count - 1].0]);
                let (state, slot) = value_steps(
                    state,
                    Op::ElementPointer { builder, base: values, skip: 0, index: (count - 1) as usize },
                );
                Ok((push_step(state, Op::Store { builder, slot, value: word }), ()))
            },
        }
    }
}

/// Makes the object of a procedure that captures something.
#[verifier::opaque]
pub open spec fn closure_allocation_steps(
    state: State,
    builder: usize,
    env: Env,
    wrapper: usize,
    signature: Signature,
    captures: Seq<(Seq<char>, NameKind)>,
) -> Outcome<Val> {
    let filled = if captures.len() == 0 {
        Ok((state, Operand::NullRaw))
    } else {
        let (state, values) = value_steps(state, Op::ArrayAlloca { builder, count: captures.len() as usize });
        match fill_captures_steps(state, builder, env, values, captures, captures.len()) {
            Err(message) => Err(message),
            Ok((state, done)) => Ok(value_steps(state, Op::PointerCast { builder, value: values })),
        }
    };
    match filled {
        Err(message) => Err(message),
        Ok((state, env_ptr)) => {
            let (state, code_ptr) = value_steps(
                state,
                Op::PtrToInt { builder, value: Operand::Address(FunctionRef::Defined(wrapper)) },
            );
            let (state, ptr) = call_steps(
                state,
                builder,
                RuntimeFunction::AllocClosureGc,
                seq![code_ptr, env_ptr, Operand::Word(captures.len() as usize as u64)],
            );
            Ok((state, Val::Closure { ptr, signature }))
        },
    }
}

/// The code and the object of a lambda expression whose functions have been declared.
pub open spec fn lambda_code_steps(
    state: State,
    builder: usize,
    env: Env,
    name: Seq<char>,
    info: Callable,
    captures: Seq<(Seq<char>, NameKind)>,
    formals: Params,
    body: Expr,
) -> Outcome<Val>
    decreases body, 34nat, 0nat,
{
    let function = FunctionRef::Defined(info.value);
    if captures.len() == 0 {
        match procedure_body_steps(state, function, 0, name, info.signature, formals, captures, body) {
            Err(message) => Err(message),
            Ok((state, done)) => match direct_scheme_wrapper_steps(state, info, formals, wrapper_name(name)) {
                Err(message) => Err(message),
                Ok((state, done)) => Ok((state, Val::Function(info))),
            },
        }
    } else {
        match procedure_body_steps(state, function, 1, name, info.signature, formals, captures, body) {
            Err(message) => Err(message),
            Ok((state, done)) => match closure_scheme_wrapper_steps(
                state,
                info.wrapper,
                info.value,
                info.signature,
                formals,
                wrapper_name(name),
            ) {
                Err(message) => Err(message),
                Ok((state, done)) => closure_allocation_steps(
                    state,
                    builder,
                    env,
                    info.wrapper,
                    info.signature,
                    captures,
                ),
            },
        }
    }
}

/// The code of a lambda expression.
pub open spec fn compile_lambda_steps(state: State, builder: usize, env: Env, formals: Params, body: Expr) -> Outcome<Val>
    decreases body, 35nat, 0nat,
{
    let name = "__lambda_"@ + decimal_text(state.counter);
    let signature = scoped_signature(formals, body, env);
    let captures = captures_of(env, formals, body);
    let ty = if captures.len() == 0 {
        function_type_of(signature)
    } else {
        closure_function_type_of(signature)
    };
    let (state, function) = declare_steps(state, name, ty);
    let (state, wrapper) = declare_steps(state, wrapper_name(name), scheme_wrapper_type_of());
    let state = State { counter: state.counter + 1, ..state };
    let info = Callable { value: function, wrapper, signature };
    lambda_code_steps(state, builder, env, name, info, captures, formals, body)
}

/// A procedure of a `letrec` whose code is yet to come.
pub struct Declared {
    pub function: usize,
    pub wrapper: usize,
    pub signature: Signature,
    pub name: Seq<char>,
}

/// The parameters of a lambda expression.
pub open spec fn lambda_params(value: Expr) -> Params {
    match value.kind {
        ExprKind::Lambda { formals, body } => formals@,
        _ => Params { required: Seq::empty(), rest: None },
    }
}

/// The body of a lambda expression.
pub open spec fn lambda_body(value: Expr) -> Expr {
    match value.kind {
        ExprKind::Lambda { formals, body } => *body,
        _ => value,
    }
}

/// Declares the procedures of the first `count` bindings of a `letrec`.
#[verifier::opaque]
pub open spec fn letrec_declare_steps(
    state: State,
    signatures: Map<Seq<char>, Signature>,
    env: Env,
    bindings: Seq<Binding>,
    count: nat,
) -> Outcome<(Env, Seq<Declared>)>
    decreases count,
{
    if count == 0 || count > bindings.len() {
        Ok((state, (env, Seq::empty())))
    } else {
        match letrec_declare_steps(state, signatures, env, bindings, (count - 1) as nat) {
            Err(message) => Err(message),
            Ok((state, (provisional, declared))) => {
                let binding = bindings[count - 1];
                match binding.value.kind {
                    ExprKind::Lambda { formals, body } => {
                        let name = "__letrec_"@ + sanitized(binding.name@) + "_"@ + decimal_text(state.counter);
                        let signature = if signatures.contains_key(binding.name@) {
                            signatures[binding.name@]
                        } else {
                            default_signature_of(formals@)
                        };
                        let (state, function) = declare_steps(state, name, closure_function_type_of(signature));
                        let (state, wrapper) = declare_steps(
                            state,
                            wrapper_name(name),
                            scheme_wrapper_type_of(),
                        );
                        let state = State { counter: state.counter + 1, ..state };
                        Ok(
                            (
                                state,
                                (
                                    provisional.insert(
                                        binding.name@,
                                        Val::Closure { ptr: Operand::NullGc, signature },
                                    ),
                                    declared.push(Declared { function, wrapper, signature, name }),
                                ),
                            ),
                        )
                    },
                    _ => Err("letrec currently supports only lambda bindings"@),
                }
            },
        }
    }
}

/// What the procedures of a `letrec` capture.
pub type Captured = Map<Seq<char>, Seq<(Seq<char>, NameKind)>>;

/// Makes the objects of the procedures of the first `count` bindings of a `letrec`: the
/// scope in which they see each other, the names that they bind, and what each captures.
#[verifier::opaque]
pub open spec fn letrec_allocate_steps(
    state: State,
    builder: usize,
    provisional: Env,
    bindings: Seq<Binding>,
    declared: Seq<Declared>,
    count: nat,
) -> (State, (Env, Env, Captured))
    decreases count,
{
    if count == 0 || count > bindings.len() {
        (state, (provisional, Map::empty(), Map::empty()))
    } else {
        let (state, (scope, bound, captured)) = letrec_allocate_steps(
            state,
            builder,
            provisional,
            bindings,
            declared,
            (count - 1) as nat,
        );
        let binding = bindings[count - 1];
        let captures = captures_of(scope, lambda_params(binding.value), lambda_body(binding.value));
        let (state, closure) = allocate_placeholder_closure_steps(
            state,
            builder,
            declared[count - 1].wrapper,
            declared[count - 1].signature,
            captures.len() as usize,
        );
        (
            state,
            (
                scope.insert(binding.name@, closure),
                bound.insert(binding.name@, closure),
                captured.insert(binding.name@, captures),
            ),
        )
    }
}

/// Writes the first `count` captured values into a procedure object.
#[verifier::opaque]
pub open spec fn set_captures_steps(
    state: State,
    builder: usize,
    closure: Operand,
    scope: Env,
    binding: Seq<char>,
    captures: Seq<(Seq<char>, NameKind)>,
    count: nat,
) -> Outcome<()>
    decreases count,
{
    if count == 0 || count > captures.len() {
        Ok((state, ()))
    } else {
        match set_captures_steps(state, builder, closure, scope, binding, captures, (count - 1) as nat) {
            Err(message) => Err(message),
            Ok((state, done)) => if !scope.contains_key(captures[count - 1].0) {
                Err(
                    "missing captured value '"@ + captures[count - 1].0 + "' for letrec binding '"@
                        + binding + "'"@,
                )
            } else {
                let (state, word) = value_to_word_steps(state, builder, scope[captures[count - 1].0]);
                let (state, result) = call_steps(
                    state,
                    builder,
                    RuntimeFunction::ClosureEnvSetGc,
                    seq![closure, Operand::Word((count - 1) as usize as u64), word],
                );
                Ok((state, ()))
            },
        }
    }
}

/// Writes what they capture into the objects of the procedures of the first `count` bindings.
#[verifier::opaque]
pub open spec fn letrec_capture_steps(
    state: State,
    builder: usize,
    scope: Env,
    bound: Env,
    captured: Captured,
    bindings: Seq<Binding>,
    count: nat,
) -> Outcome<()>
    decreases count,
{
    if count == 0 || count > bindings.len() {
        Ok((state, ()))
    } else {
        match letrec_capture_steps(state, builder, scope, bound, captured, bindings, (count - 1) as nat) {
            Err(message) => Err(message),
            Ok((state, done)) => {
                let name = bindings[count - 1].name@;
                if !bound.contains_key(name) || !(bound[name] is Closure) {
                    Err("missing letrec closure binding '"@ + name + "'"@)
                } else if !captured.contains_key(name) {
                    Err("missing letrec capture plan for '"@ + name + "'"@)
                } else {
                    set_captures_steps(
                        state,
                        builder,
                        bound[name]->Closure_ptr,
                        scope,
                        name,
                        captured[name],
                        captured[name].len(),
                    )
                }
            },
        }
    }
}

/// The code of the procedures of the first `count` bindings of a `letrec`. What a procedure
/// captures is used up by its code.
pub open spec fn letrec_bodies_steps(
    state: State,
    captured: Captured,
    bindings: Seq<Binding>,
    declared: Seq<Declared>,
    count: nat,
) -> Outcome<Captured>
    decreases bindings, 10nat, count,
{
    if count == 0 || count > bindings.len() {
        Ok((state, captured))
    } else {
        match letrec_bodies_steps(state, captured, bindings, declared, (count - 1) as nat) {
            Err(message) => Err(message),
            Ok((state, left)) => {
                let binding = bindings[count - 1];
                let plan = declared[count - 1];
                match binding.value.kind {
                    ExprKind::Lambda { formals, body } => if !left.contains_key(binding.name@) {
                        Err("missing letrec captures for '"@ + binding.name@ + "'"@)
                    } else {
                        match procedure_body_steps(
                            state,
                            FunctionRef::Defined(plan.function),
                            1,
                            plan.name,
                            plan.signature,
                            formals@,
                            left[binding.name@],
                            *body,
                        ) {
                            Err(message) => Err(message),
                            Ok((state, done)) => match closure_scheme_wrapper_steps(
                                state,
                                plan.wrapper,
                                plan.function,
                                plan.signature,
                                formals@,
                                wrapper_name(plan.name),
                            ) {
                                Err(message) => Err(message),
                                Ok((state, done)) => Ok((state, left.remove(binding.name@))),
                            },
                        }
                    },
                    _ => Err("letrec currently supports only lambda bindings"@),
                }
            },
        }
    }
}

/// The names that a `letrec` binds.
pub open spec fn recursive_bindings_steps(state: State, builder: usize, env: Env, bindings: Seq<Binding>) -> Outcome<Env>
    decreases bindings, 20nat, 0nat,
{
    let signatures = scoped_signatures(bindings, env);
    match letrec_declare_steps(state, signatures, env, bindings, bindings.len()) {
        Err(message) => Err(message),
        Ok((state, (provisional, declared))) => {
            let (state, (scope, bound, captured)) = letrec_allocate_steps(
                state,
                builder,
                provisional,
                bindings,
                declared,
                bindings.len(),
            );
            match letrec_capture_steps(state, builder, scope, bound, captured, bindings, bindings.len()) {
                Err(message) => Err(message),
                Ok((state, done)) => match letrec_bodies_steps(
                    state,
                    captured,
                    bindings,
                    declared,
                    bindings.len(),
                ) {
                    Err(message) => Err(message),
                    Ok((state, left)) => Ok((state, bound)),
                },
            }
        },
    }
}

} // verus!
