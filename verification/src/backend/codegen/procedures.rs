//! Code of procedures: their bodies, their wrappers and the objects that carry what they
//! capture.
use crate::backend::abi::RuntimeFunction;
use crate::backend::builtins::sanitize_name;
use crate::backend::codegen::exprs::{names_assigned_in, names_changed_in};
use crate::backend::codegen::plan_procedures::{
    scoped_signature, scoped_signatures, argument_operand, bind_captures_steps, bind_formals_steps,
    bind_params_steps, capture_kind, captures_of, closure_allocation_steps, closure_function_type_of,
    closure_scheme_wrapper_steps, compile_lambda_steps, declare_steps, direct_scheme_wrapper_steps,
    fill_captures_steps, function_type_of, kind_type, letrec_allocate_steps, letrec_bodies_steps,
    letrec_capture_steps, letrec_declare_steps, param_kind_at, param_types, param_value,
    procedure_body_steps, recursive_bindings_steps, scheme_wrapper_steps, scheme_wrapper_type_of,
    set_captures_steps, wrapper_args_steps, wrapper_call_args, wrapper_name, wrapper_return_steps,
    lambda_code_steps, Declared,
};
use crate::backend::codegen::state::{
    agrees_on, agrees_on_row, agrees_on_scope, agrees_plainly, binding_kinds, grows, Argument,
    CodegenValue, Compiler, Env, FunctionInfo, Scope, State,
};
use crate::backend::codegen::values::{fail, fail_with};
use crate::backend::infer::{infer_lambda_signature_with_env, infer_letrec_function_signatures_with_env};
use crate::backend::ir::{function_has_body, FunctionRef, FunctionType, IrType, Op, Operand};
use crate::backend::kinds::{
    default_signature, AbiValueKind, CaptureKind, FunctionSignature, HeapValueKind, NameKind,
};
use crate::names::ascending;
use crate::backend::scope::{free_names, free_variables};
use crate::error::CompileError;
use crate::middle::hir::{formal_names, Binding, Expr, ExprKind, Formals};
use crate::names::{name_texts, Duplicate, NameMap, NameSet};
use crate::text::{decimal, join, join3, join5};
use vstd::prelude::*;

verus! {

broadcast use {vstd::seq_lib::group_seq_properties, crate::backend::ir::group_continues};

/// What a procedure captures: names, and how their values travel.
pub struct Captures {
    pub entries: Vec<(String, CaptureKind)>,
}

/// The meaning of a row of captured names.
pub open spec fn capture_views(entries: Seq<(String, CaptureKind)>) -> Seq<(Seq<char>, NameKind)> {
    entries.map_values(|entry: (String, CaptureKind)| (entry.0@, entry.1@))
}

impl View for Captures {
    type V = Seq<(Seq<char>, NameKind)>;

    open spec fn view(&self) -> Seq<(Seq<char>, NameKind)> {
        capture_views(self.entries@)
    }
}

impl Duplicate for Captures {
    fn duplicate(&self) -> (copy: Self) {
        let mut entries: Vec<(String, CaptureKind)> = Vec::new();
        let mut index: usize = 0;
        while index < self.entries.len()
            invariant
                index <= self.entries@.len(),
                capture_views(entries@) == self@.subrange(0, index as int),
            decreases self.entries@.len() - index,
        {
            let ghost before_views = capture_views(entries@);
            entries.push((self.entries[index].0.clone(), self.entries[index].1.duplicate()));
            assert(capture_views(entries@) =~= before_views.push(self@[index as int]));
            assert(self@.subrange(0, index + 1) =~= self@.subrange(0, index as int).push(self@[index as int]));
            index = index + 1;
        }
        assert(self@.subrange(0, self@.len() as int) =~= self@);
        Captures { entries }
    }
}

/// A procedure of a `letrec` whose code is yet to come.
pub struct DeclaredProcedure {
    pub function: usize,
    pub wrapper: usize,
    pub signature: FunctionSignature,
    pub name: String,
}

impl View for DeclaredProcedure {
    type V = Declared;

    open spec fn view(&self) -> Declared {
        Declared {
            function: self.function,
            wrapper: self.wrapper,
            signature: self.signature@,
            name: self.name@,
        }
    }
}

/// The meaning of a row of declared procedures.
pub open spec fn declared_views(declared: Seq<DeclaredProcedure>) -> Seq<Declared> {
    declared.map_values(|plan: DeclaredProcedure| plan@)
}

/// The type of a parameter or result of a given kind.
pub fn value_type(kind: AbiValueKind) -> (ty: IrType)
    ensures
        ty == kind_type(kind),
{
    match kind {
        AbiValueKind::Word => IrType::Word,
        AbiValueKind::Heap(_) => IrType::Gc,
    }
}

/// Adds the types of the parameters of a procedure to a row of types.
fn push_param_types(types: &mut Vec<IrType>, signature: &FunctionSignature)
    ensures
        final(types)@ == old(types)@ + param_types(signature@),
{
    let ghost required = signature@.params.map_values(|kind: AbiValueKind| kind_type(kind));
    let mut index: usize = 0;
    assert(types@ =~= old(types)@ + required.subrange(0, 0));
    while index < signature.required_param_kinds.len()
        invariant
            index <= signature.required_param_kinds@.len(),
            required == signature@.params.map_values(|kind: AbiValueKind| kind_type(kind)),
            types@ == old(types)@ + required.subrange(0, index as int),
        decreases signature.required_param_kinds@.len() - index,
    {
        types.push(value_type(signature.required_param_kinds[index]));
        assert(required[index as int] == kind_type(signature.required_param_kinds@[index as int]));
        assert(types@ =~= old(types)@ + required.subrange(0, index + 1));
        index = index + 1;
    }
    assert(required.subrange(0, required.len() as int) =~= required);
    if signature.rest {
        types.push(IrType::Word);
        assert(types@ =~= old(types)@ + required.push(IrType::Word));
    }
}

/// The type of a procedure that captures nothing.
pub fn function_type(signature: &FunctionSignature) -> (ty: FunctionType)
    ensures
        ty@ == function_type_of(signature@),
{
    let mut params: Vec<IrType> = Vec::new();
    push_param_types(&mut params, signature);
    assert(params@ =~= param_types(signature@));
    FunctionType { ret: Some(value_type(signature.return_kind)), params }
}

/// The type of a procedure that takes its procedure object first.
pub fn closure_function_type(signature: &FunctionSignature) -> (ty: FunctionType)
    ensures
        ty@ == closure_function_type_of(signature@),
{
    let mut params: Vec<IrType> = vec![IrType::Gc];
    assert(params@ =~= seq![IrType::Gc]);
    push_param_types(&mut params, signature);
    FunctionType { ret: Some(value_type(signature.return_kind)), params }
}

/// The type under which every procedure can be called.
pub fn scheme_wrapper_type() -> (ty: FunctionType)
    ensures
        ty@ == scheme_wrapper_type_of(),
{
    let params: Vec<IrType> = vec![IrType::Gc, IrType::Word];
    assert(params@ =~= seq![IrType::Gc, IrType::Word]);
    FunctionType { ret: Some(IrType::Word), params }
}

/// How a captured value travels in a procedure object.
fn kind_of_capture(value: &CodegenValue) -> (kind: CaptureKind)
    ensures
        kind@ == capture_kind(value@),
{
    match value {
        CodegenValue::Word(_) => CaptureKind::Value(AbiValueKind::Word),
        CodegenValue::RootedWord { slot: _ } => CaptureKind::Value(AbiValueKind::Word),
        CodegenValue::MutableBox { ptr: _ } => CaptureKind::Value(AbiValueKind::Heap(HeapValueKind::Box)),
        CodegenValue::HeapObject { ptr: _, kind } => CaptureKind::Value(AbiValueKind::Heap(*kind)),
        CodegenValue::Function(info) => CaptureKind::Function(info.signature.duplicate()),
        CodegenValue::Closure { ptr: _, signature } => CaptureKind::Function(signature.duplicate()),
    }
}

/// The signature of a lambda expression of a scope.
pub fn infer_lambda_signature_from_values(formals: &Formals, body: &Expr, env: &Scope) -> (signature: FunctionSignature)
    ensures
        signature@ == scoped_signature(formals@, *body, env@),
{
    reveal(scoped_signature);
    infer_lambda_signature_with_env(formals, body, &binding_kinds(env), &NameMap::new())
}

/// The signatures of the procedures of a `letrec` of a scope.
fn infer_letrec_signatures_from_values(bindings: &Vec<Binding>, env: &Scope) -> (signatures: NameMap<FunctionSignature>)
    ensures
        signatures@ == scoped_signatures(bindings@, env@),
{
    reveal(scoped_signatures);
    infer_letrec_function_signatures_with_env(&binding_kinds(env), bindings)
}

/// What a procedure captures of a scope, in ascending order of the names.
pub fn collect_captures(formals: &Formals, body: &Expr, env: &Scope) -> (captures: Captures)
    ensures
        captures@ == captures_of(env@, formals@, *body),
{
    reveal(captures_of);
    let outer = env.key_set();
    let names = free_variables(&outer, formals, body);
    let mut entries: Vec<(String, CaptureKind)> = Vec::new();
    let mut index: usize = 0;
    let ghost expected = captures_of(env@, formals@, *body);
    while index < names.len()
        invariant
            index <= names@.len(),
            outer@ == env@.dom(),
            forall|i: int| 0 <= i < names@.len() ==> outer@.contains((#[trigger] names@[i])@),
            name_texts(names@) == ascending(free_names(env@.dom(), *body, formal_names(formals@))),
            expected == captures_of(env@, formals@, *body),
            expected.len() == names@.len(),
            capture_views(entries@) == expected.subrange(0, index as int),
        decreases names@.len() - index,
    {
        reveal(captures_of);
        assert(outer@.contains(names@[index as int]@));
        if let Some(value) = env.get(names[index].as_str()) {
            let ghost before_views = capture_views(entries@);
            entries.push((names[index].clone(), kind_of_capture(value)));
            assert(name_texts(names@)[index as int] == names@[index as int]@);
            assert(capture_views(entries@) =~= before_views.push(expected[index as int]));
            assert(expected.subrange(0, index + 1) =~= expected.subrange(0, index as int).push(expected[index as int]));
        }
        index = index + 1;
    }
    assert(expected.subrange(0, expected.len() as int) =~= expected);
    Captures { entries }
}

/// The operand of an argument.
pub fn operand_of(argument: Argument) -> (operand: Operand)
    ensures
        operand == argument_operand(argument),
{
    match argument {
        Argument::Int(word) => word,
        Argument::Pointer(ptr) => ptr,
    }
}

/// The arguments that a wrapper calls its procedure with.
fn wrapper_args(function: FunctionRef, takes_closure: bool, direct: Vec<Operand>) -> (args: Vec<Operand>)
    ensures
        args@ == wrapper_call_args(function, takes_closure, direct@),
{
    if !takes_closure {
        return direct;
    }
    let mut args: Vec<Operand> = vec![Operand::Param { function, skip: 0, index: 0 }];
    let mut index: usize = 0;
    let ghost first = seq![Operand::Param { function, skip: 0, index: 0 }];
    assert(args@ =~= first + direct@.subrange(0, 0));
    while index < direct.len()
        invariant
            index <= direct@.len(),
            args@ == first + direct@.subrange(0, index as int),
        decreases direct@.len() - index,
    {
        args.push(direct[index]);
        assert(args@ =~= first + direct@.subrange(0, index + 1));
        index = index + 1;
    }
    assert(direct@.subrange(0, direct@.len() as int) =~= direct@);
    args
}

impl Compiler {
    /// Adds a function whose frames the collector reads.
    pub fn declare_function(&mut self, name: String, ty: FunctionType) -> (function: usize)
        ensures
            (final(self)@, function) == declare_steps(old(self)@, name@, ty@),
            grows(old(self)@, final(self)@),
            final(self)@.trace.len() > old(self)@.trace.len(),
    {
        let function = self.emit(Op::AddFunction { name, ty });
        let _ = self.emit(Op::AttachGc { function: FunctionRef::Defined(function) });
        function
    }

    fn bind_params(
        &mut self,
        builder: usize,
        function: FunctionRef,
        skip: usize,
        signature: &FunctionSignature,
        name: &str,
        required: &Vec<String>,
        count: usize,
        env: Scope,
        assigned: &NameSet,
        changed: &NameSet,
    ) -> (result: Result<(Scope, usize), CompileError>)
        requires
            count <= required@.len(),
        ensures
            agrees_on_scope(
                result,
                old(self)@,
                final(self)@,
                bind_params_steps(
                    old(self)@,
                    builder,
                    function,
                    skip,
                    signature@,
                    name@,
                    name_texts(required@),
                    count as nat,
                    env@,
                    assigned@,
                    changed@,
                ),
            ),
        decreases count,
    {
        reveal(bind_params_steps);
        if count == 0 {
            return Ok((env, 0));
        }
        let (mut scoped, rooted) = self.bind_params(
            builder,
            function,
            skip,
            signature,
            name,
            required,
            count - 1,
            env,
            assigned,
            changed,
        )?;
        let index: usize = count - 1;
        let known: usize = signature.required_param_kinds.len();
        if index > known || (index == known && !signature.rest) {
            let start = join3("missing parameter ", decimal(index).as_str(), " for function '");
            return fail_with(join3(start.as_str(), name, "'"));
        }
        let kind = if index < known {
            signature.required_param_kinds[index]
        } else {
            AbiValueKind::Word
        };
        let param = Operand::Param { function, skip, index };
        let value = match kind {
            AbiValueKind::Word => CodegenValue::Word(param),
            AbiValueKind::Heap(heap_kind) => CodegenValue::HeapObject { ptr: param, kind: heap_kind },
        };
        assert(value@ == param_value(function, skip, index, param_kind_at(signature@, index as int)));
        assert(name_texts(required@)[index as int] == required@[index as int]@);
        let total: usize = self.bind_name(
            builder,
            &mut scoped,
            rooted,
            &required[index],
            value,
            assigned,
            changed,
        );
        Ok((scoped, total))
    }

    /// Binds the parameters of a procedure.
    fn bind_formals(
        &mut self,
        builder: usize,
        function: FunctionRef,
        skip: usize,
        signature: &FunctionSignature,
        name: &str,
        formals: &Formals,
        env: Scope,
        assigned: &NameSet,
        changed: &NameSet,
    ) -> (result: Result<(Scope, usize), CompileError>)
        ensures
            agrees_on_scope(
                result,
                old(self)@,
                final(self)@,
                bind_formals_steps(
                    old(self)@,
                    builder,
                    function,
                    skip,
                    signature@,
                    name@,
                    formals@,
                    env@,
                    assigned@,
                    changed@,
                ),
            ),
    {
        reveal(bind_formals_steps);
        let (mut scoped, rooted) = self.bind_params(
            builder,
            function,
            skip,
            signature,
            name,
            &formals.required,
            formals.required.len(),
            env,
            assigned,
            changed,
        )?;
        match &formals.rest {
            None => Ok((scoped, rooted)),
            Some(rest) => {
                let index: usize = formals.required.len();
                let known: usize = signature.required_param_kinds.len();
                if index > known || (index == known && !signature.rest) {
                    return fail_with(join3("missing rest parameter for function '", name, "'"));
                }
                let value = CodegenValue::Word(Operand::Param { function, skip, index });
                let total: usize = self.bind_name(
                    builder,
                    &mut scoped,
                    rooted,
                    rest,
                    value,
                    assigned,
                    changed,
                );
                Ok((scoped, total))
            },
        }
    }

    /// Binds captured names to the words of the procedure object.
    fn bind_captures(&mut self, builder: usize, closure: Operand, captures: &Captures) -> (env: Scope)
        ensures
            (final(self)@, env@) == bind_captures_steps(
                old(self)@,
                builder,
                closure,
                captures@,
                captures@.len(),
            ),
            grows(old(self)@, final(self)@),
    {
        reveal(bind_captures_steps);
        let mut env: Scope = NameMap::new();
        let mut index: usize = 0;
        while index < captures.entries.len()
            invariant
                index <= captures.entries@.len(),
                (self@, env@) == bind_captures_steps(old(self)@, builder, closure, captures@, index as nat),
                grows(old(self)@, self@),
            decreases captures.entries@.len() - index,
        {
            reveal(bind_captures_steps);
            assert(captures@[index as int] == (
                captures.entries@[index as int].0@,
                captures.entries@[index as int].1@,
            ));
            let captured = self.load_closure_env_word(builder, closure, index);
            let name = captures.entries[index].0.clone();
            match &captures.entries[index].1 {
                CaptureKind::Value(AbiValueKind::Word) => {
                    env.insert(name, CodegenValue::Word(captured));
                },
                CaptureKind::Value(AbiValueKind::Heap(kind)) => {
                    let ptr = self.emit_value(Op::IntToPtr { builder, value: captured });
                    if *kind == HeapValueKind::Box {
                        env.insert(name, CodegenValue::MutableBox { ptr });
                    } else {
                        env.insert(name, CodegenValue::HeapObject { ptr, kind: *kind });
                    }
                },
                CaptureKind::Function(signature) => {
                    let ptr = self.emit_value(Op::IntToPtr { builder, value: captured });
                    env.insert(name, CodegenValue::Closure { ptr, signature: signature.duplicate() });
                },
            }
            index = index + 1;
        }
        env
    }

    /// The code of a procedure. `skip` parameters come before those of the procedure.
    #[verifier::rlimit(60)]
    pub fn compile_procedure_body(
        &mut self,
        function: FunctionRef,
        skip: usize,
        name: &str,
        signature: &FunctionSignature,
        formals: &Formals,
        captures: &Captures,
        body: &Expr,
    ) -> (result: Result<(), CompileError>)
        requires
            old(self)@.ready(),
        ensures
            agrees_plainly(
                result,
                old(self)@,
                final(self)@,
                procedure_body_steps(
                    old(self)@,
                    function,
                    skip,
                    name@,
                    signature@,
                    formals@,
                    captures@,
                    *body,
                ),
            ),
        decreases *body, 31nat, 0nat,
    {
        if function_has_body(&self.trace, function) {
            return Ok(());
        }
        let builder = self.emit(Op::CreateBuilder);
        let entry = self.append_block(function);
        let exception_block = self.append_block(function);
        self.position_at_end(builder, entry);
        let ghost outer = self@.targets;
        self.exception_targets.push(exception_block);
        let captured = self.bind_captures(
            builder,
            Operand::Param { function, skip: 0, index: 0 },
            captures,
        );
        let names = formals.all_names();
        let assigned = names_assigned_in(body, &names);
        let changed = names_changed_in(body, &names);
        let (env, rooted) = self.bind_formals(
            builder,
            function,
            skip,
            signature,
            name,
            formals,
            captured,
            &assigned,
            &changed,
        )?;
        self.compile_tail_expr(builder, function, signature, &env, body, rooted)?;
        self.emit_exception_return_block(exception_block, signature.return_kind, rooted);
        let _ = self.exception_targets.pop();
        assert(self.exception_targets@ =~= outer);
        let message = join3("llvm verification failed for function '", name, "'");
        let _ = self.emit(Op::Verify { function, message });
        Ok(())
    }

    fn load_wrapper_args(
        &mut self,
        builder: usize,
        args_list: Operand,
        kinds: &Vec<AbiValueKind>,
        count: usize,
        context: &str,
    ) -> (result: Result<Vec<Operand>, CompileError>)
        requires
            count <= kinds@.len(),
        ensures
            agrees_on_row(
                result,
                old(self)@,
                final(self)@,
                wrapper_args_steps(old(self)@, builder, args_list, kinds@, count as nat, context@),
            ),
        decreases count,
    {
        reveal(wrapper_args_steps);
        if count == 0 {
            let none: Vec<Operand> = Vec::new();
            assert(none@ =~= Seq::<Operand>::empty());
            return Ok(none);
        }
        let mut args = self.load_wrapper_args(builder, args_list, kinds, count - 1, context)?;
        let loaded = self.load_list_element(builder, args_list, count - 1, kinds[count - 1]);
        let argument = self.convert_argument_value(builder, &loaded, kinds[count - 1], context)?;
        args.push(operand_of(argument));
        Ok(args)
    }

    /// Hands on what a procedure left to its wrapper.
    pub fn return_from_wrapper(&mut self, builder: usize, function: FunctionRef, return_kind: AbiValueKind, result: Operand)
        ensures
            final(self)@ == wrapper_return_steps(old(self)@, builder, function, return_kind, result),
            grows(old(self)@, final(self)@),
    {
        reveal(wrapper_return_steps);
        let pending = self.call0(builder, RuntimeFunction::RtTailPending);
        let tail_block = self.append_block(function);
        let value_block = self.append_block(function);
        self.build_conditional_branch(builder, pending, tail_block, value_block);
        self.position_at_end(builder, tail_block);
        let marker = self.call0(builder, RuntimeFunction::RtTailCallMarker);
        self.build_return(builder, marker);
        self.position_at_end(builder, value_block);
        let wrapped = match return_kind {
            AbiValueKind::Word => result,
            AbiValueKind::Heap(_) => self.emit_value(Op::PtrToInt { builder, value: result }),
        };
        self.build_return(builder, wrapped);
    }

    /// The code of a wrapper.
    fn compile_scheme_wrapper(
        &mut self,
        wrapper: usize,
        target: usize,
        signature: &FunctionSignature,
        takes_rest: bool,
        takes_closure: bool,
        context: &str,
        message: String,
    ) -> (result: Result<(), CompileError>)
        ensures
            agrees_plainly(
                result,
                old(self)@,
                final(self)@,
                scheme_wrapper_steps(
                    old(self)@,
                    wrapper,
                    target,
                    signature@,
                    takes_rest,
                    takes_closure,
                    context@,
                    message@,
                ),
            ),
    {
        reveal(scheme_wrapper_steps);
        let function = FunctionRef::Defined(wrapper);
        if function_has_body(&self.trace, function) {
            return Ok(());
        }
        let builder = self.emit(Op::CreateBuilder);
        let entry = self.append_block(function);
        self.position_at_end(builder, entry);
        let args_list = Operand::Param { function, skip: 0, index: 1 };
        let required: usize = signature.required_param_kinds.len();
        if signature.rest {
            self.assert_list_length_at_least(builder, function, args_list, required);
        } else {
            self.assert_list_length(builder, function, args_list, required);
        }
        let direct = self.load_wrapper_args(
            builder,
            args_list,
            &signature.required_param_kinds,
            required,
            context,
        )?;
        let mut args = wrapper_args(function, takes_closure, direct);
        if takes_rest {
            let rest = self.list_tail_word(builder, args_list, required);
            args.push(rest);
        }
        let result = self.emit_value(Op::Call { builder, target: FunctionRef::Defined(target), args });
        self.return_from_wrapper(builder, function, signature.return_kind, result);
        let _ = self.emit(Op::Verify { function, message });
        Ok(())
    }

    /// The wrapper of a procedure that captures nothing.
    pub fn compile_direct_scheme_wrapper(&mut self, info: &FunctionInfo, formals: &Formals, name: &str) -> (result: Result<
        (),
        CompileError,
    >)
        ensures
            agrees_plainly(
                result,
                old(self)@,
                final(self)@,
                direct_scheme_wrapper_steps(old(self)@, info@, formals@, name@),
            ),
    {
        reveal(direct_scheme_wrapper_steps);
        let message = join3("llvm verification failed for Scheme wrapper '", name, "'");
        self.compile_scheme_wrapper(
            info.wrapper,
            info.value,
            &info.signature,
            formals.rest.is_some(),
            false,
            "scheme.wrapper.arg",
            message,
        )
    }

    /// The wrapper of a procedure that captures something.
    pub fn compile_closure_scheme_wrapper(
        &mut self,
        wrapper: usize,
        function: usize,
        signature: &FunctionSignature,
        formals: &Formals,
        name: &str,
    ) -> (result: Result<(), CompileError>)
        ensures
            agrees_plainly(
                result,
                old(self)@,
                final(self)@,
                closure_scheme_wrapper_steps(
                    old(self)@,
                    wrapper,
                    function,
                    signature@,
                    formals@,
                    name@,
                ),
            ),
    {
        reveal(closure_scheme_wrapper_steps);
        let message = join3("llvm verification failed for closure Scheme wrapper '", name, "'");
        self.compile_scheme_wrapper(
            wrapper,
            function,
            signature,
            formals.rest.is_some(),
            true,
            "closure.scheme.arg",
            message,
        )
    }

    fn fill_captures(&mut self, builder: usize, env: &Scope, values: Operand, captures: &Captures, count: usize) -> (result: Result<
        (),
        CompileError,
    >)
        requires
            count <= captures@.len(),
        ensures
            agrees_plainly(
                result,
                old(self)@,
                final(self)@,
                fill_captures_steps(old(self)@, builder, env@, values, captures@, count as nat),
            ),
        decreases count,
    {
        reveal(fill_captures_steps);
        if count == 0 {
            return Ok(());
        }
        self.fill_captures(builder, env, values, captures, count - 1)?;
        let name = captures.entries[count - 1].0.as_str();
        match env.get(name) {
            None => fail_with(
                join3("captured variable '", name, "' is missing from the environment"),
            ),
            Some(value) => {
                let word = self.value_to_word(builder, value);
                let slot = self.emit_value(
                    Op::ElementPointer { builder, base: values, skip: 0, index: count - 1 },
                );
                let _ = self.emit(Op::Store { builder, slot, value: word });
                Ok(())
            },
        }
    }

    /// Makes the object of a procedure that captures something.
    pub fn compile_closure_allocation(
        &mut self,
        builder: usize,
        env: &Scope,
        wrapper: usize,
        signature: &FunctionSignature,
        captures: &Captures,
    ) -> (result: Result<CodegenValue, CompileError>)
        ensures
            agrees_on(
                result,
                old(self)@,
                final(self)@,
                closure_allocation_steps(old(self)@, builder, env@, wrapper, signature@, captures@),
            ),
    {
        reveal(closure_allocation_steps);
        let count: usize = captures.entries.len();
        let env_ptr = if count == 0 {
            Operand::NullRaw
        } else {
            let values = self.emit_value(Op::ArrayAlloca { builder, count });
            self.fill_captures(builder, env, values, captures, count)?;
            self.emit_value(Op::PointerCast { builder, value: values })
        };
        let code_ptr = self.emit_value(
            Op::PtrToInt { builder, value: Operand::Address(FunctionRef::Defined(wrapper)) },
        );
        let ptr = self.call3(
            builder,
            RuntimeFunction::AllocClosureGc,
            code_ptr,
            env_ptr,
            Operand::Word(count as u64),
        );
        Ok(CodegenValue::Closure { ptr, signature: signature.duplicate() })
    }

    /// The code of a lambda expression.
    #[verifier::rlimit(60)]
    pub fn compile_lambda(&mut self, builder: usize, env: &Scope, formals: &Formals, body: &Expr) -> (result: Result<
        CodegenValue,
        CompileError,
    >)
        requires
            old(self)@.ready(),
        ensures
            agrees_on(
                result,
                old(self)@,
                final(self)@,
                compile_lambda_steps(old(self)@, builder, env@, formals@, *body),
            ),
        decreases *body, 35nat, 0nat,
    {
        let name = join("__lambda_", decimal(self.lambda_counter).as_str());
        let scheme_name = join("__scheme_wrap_", name.as_str());
        let signature = infer_lambda_signature_from_values(formals, body, env);
        let captures = collect_captures(formals, body, env);
        let ty = if captures.entries.len() == 0 {
            function_type(&signature)
        } else {
            closure_function_type(&signature)
        };
        let function = self.declare_function(name.clone(), ty);
        let wrapper = self.declare_function(scheme_name.clone(), scheme_wrapper_type());
        assert(self.lambda_counter < self.trace.len());
        self.lambda_counter = self.lambda_counter + 1;
        let info = FunctionInfo { value: function, wrapper, signature };
        self.compile_lambda_code(builder, env, name.as_str(), scheme_name.as_str(), info, &captures, formals, body)
    }

    fn compile_lambda_code(
        &mut self,
        builder: usize,
        env: &Scope,
        name: &str,
        scheme_name: &str,
        info: FunctionInfo,
        captures: &Captures,
        formals: &Formals,
        body: &Expr,
    ) -> (result: Result<CodegenValue, CompileError>)
        requires
            old(self)@.ready(),
            scheme_name@ == wrapper_name(name@),
        ensures
            agrees_on(
                result,
                old(self)@,
                final(self)@,
                lambda_code_steps(
                    old(self)@,
                    builder,
                    env@,
                    name@,
                    info@,
                    captures@,
                    formals@,
                    *body,
                ),
            ),
        decreases *body, 34nat, 0nat,
    {
        let function = FunctionRef::Defined(info.value);
        if captures.entries.len() == 0 {
            self.compile_procedure_body(function, 0, name, &info.signature, formals, captures, body)?;
            self.compile_direct_scheme_wrapper(&info, formals, scheme_name)?;
            Ok(CodegenValue::Function(info))
        } else {
            self.compile_procedure_body(function, 1, name, &info.signature, formals, captures, body)?;
            self.compile_closure_scheme_wrapper(info.wrapper, info.value, &info.signature, formals, scheme_name)?;
            self.compile_closure_allocation(builder, env, info.wrapper, &info.signature, captures)
        }
    }

    fn declare_letrec(
        &mut self,
        signatures: &NameMap<FunctionSignature>,
        env: &Scope,
        bindings: &Vec<Binding>,
        count: usize,
    ) -> (result: Result<(Scope, Vec<DeclaredProcedure>), CompileError>)
        requires
            old(self)@.ready(),
            count <= bindings@.len(),
        ensures
            match result {
                Ok((scope, declared)) => letrec_declare_steps(
                    old(self)@,
                    signatures@,
                    env@,
                    bindings@,
                    count as nat,
                ) == Ok::<(State, (Env, Seq<Declared>)), Seq<char>>(
                    (final(self)@, (scope@, declared_views(declared@))),
                ) && grows(old(self)@, final(self)@) && declared@.len() == count && forall|i: int|
                    0 <= i < count ==> (#[trigger] bindings@[i]).value.kind is Lambda,
                Err(CompileError::Codegen(message)) => letrec_declare_steps(
                    old(self)@,
                    signatures@,
                    env@,
                    bindings@,
                    count as nat,
                ) == Err::<(State, (Env, Seq<Declared>)), Seq<char>>(message@),
                Err(_) => false,
            },
        decreases count,
    {
        reveal(letrec_declare_steps);
        if count == 0 {
            let none: Vec<DeclaredProcedure> = Vec::new();
            assert(declared_views(none@) =~= Seq::<Declared>::empty());
            return Ok((env.duplicate_map(), none));
        }
        let (mut provisional, mut declared) = self.declare_letrec(signatures, env, bindings, count - 1)?;
        let binding = &bindings[count - 1];
        match &binding.value.kind {
            ExprKind::Lambda { formals, body: _ } => {
                let sanitized_name = sanitize_name(binding.name.as_str());
                let number = decimal(self.lambda_counter);
                let start = join3("__letrec_", sanitized_name.as_str(), "_");
                let name = join(start.as_str(), number.as_str());
                let signature = match signatures.get(binding.name.as_str()) {
                    Some(signature) => signature.duplicate(),
                    None => default_signature(formals),
                };
                let function = self.declare_function(name.clone(), closure_function_type(&signature));
                let wrapper = self.declare_function(join("__scheme_wrap_", name.as_str()), scheme_wrapper_type());
                assert(self.lambda_counter < self.trace.len());
                self.lambda_counter = self.lambda_counter + 1;
                provisional.insert(
                    binding.name.clone(),
                    CodegenValue::Closure { ptr: Operand::NullGc, signature: signature.duplicate() },
                );
                let ghost before_views = declared_views(declared@);
                declared.push(DeclaredProcedure { function, wrapper, signature, name });
                assert(declared_views(declared@) =~= before_views.push(declared@.last()@));
                Ok((provisional, declared))
            },
            _ => fail("letrec currently supports only lambda bindings"),
        }
    }

    fn allocate_letrec(
        &mut self,
        builder: usize,
        provisional: &Scope,
        bindings: &Vec<Binding>,
        declared: &Vec<DeclaredProcedure>,
    ) -> (result: (Scope, Scope, NameMap<Captures>))
        requires
            declared@.len() == bindings@.len(),
            forall|i: int| 0 <= i < bindings@.len() ==> (#[trigger] bindings@[i]).value.kind is Lambda,
        ensures
            (final(self)@, (result.0@, result.1@, result.2@)) == letrec_allocate_steps(
                old(self)@,
                builder,
                provisional@,
                bindings@,
                declared_views(declared@),
                bindings@.len(),
            ),
            grows(old(self)@, final(self)@),
    {
        reveal(letrec_allocate_steps);
        let mut scope = provisional.duplicate_map();
        let mut bound: Scope = NameMap::new();
        let mut captured: NameMap<Captures> = NameMap::new();
        let mut index: usize = 0;
        while index < bindings.len()
            invariant
                index <= bindings@.len(),
                declared@.len() == bindings@.len(),
                forall|i: int| 0 <= i < bindings@.len() ==> (#[trigger] bindings@[i]).value.kind is Lambda,
                (self@, (scope@, bound@, captured@)) == letrec_allocate_steps(
                    old(self)@,
                    builder,
                    provisional@,
                    bindings@,
                    declared_views(declared@),
                    index as nat,
                ),
                grows(old(self)@, self@),
            decreases bindings@.len() - index,
        {
            reveal(letrec_allocate_steps);
            assert(bindings@[index as int].value.kind is Lambda);
            assert(declared_views(declared@)[index as int] == declared@[index as int]@);
            if let ExprKind::Lambda { formals, body } = &bindings[index].value.kind {
                let captures = collect_captures(formals, body, &scope);
                let closure = self.allocate_placeholder_closure(
                    builder,
                    declared[index].wrapper,
                    &declared[index].signature,
                    captures.entries.len(),
                );
                scope.insert(bindings[index].name.clone(), closure.duplicate());
                bound.insert(bindings[index].name.clone(), closure);
                captured.insert(bindings[index].name.clone(), captures);
            }
            index = index + 1;
        }
        (scope, bound, captured)
    }

    fn set_captures(
        &mut self,
        builder: usize,
        closure: Operand,
        scope: &Scope,
        binding: &str,
        captures: &Captures,
        count: usize,
    ) -> (result: Result<(), CompileError>)
        requires
            count <= captures@.len(),
        ensures
            agrees_plainly(
                result,
                old(self)@,
                final(self)@,
                set_captures_steps(
                    old(self)@,
                    builder,
                    closure,
                    scope@,
                    binding@,
                    captures@,
                    count as nat,
                ),
            ),
        decreases count,
    {
        reveal(set_captures_steps);
        if count == 0 {
            return Ok(());
        }
        self.set_captures(builder, closure, scope, binding, captures, count - 1)?;
        let name = captures.entries[count - 1].0.as_str();
        match scope.get(name) {
            None => fail_with(
                join5("missing captured value '", name, "' for letrec binding '", binding, "'"),
            ),
            Some(value) => {
                let word = self.value_to_word(builder, value);
                let _ = self.call3(
                    builder,
                    RuntimeFunction::ClosureEnvSetGc,
                    closure,
                    Operand::Word((count - 1) as u64),
                    word,
                );
                Ok(())
            },
        }
    }

    fn capture_letrec(
        &mut self,
        builder: usize,
        scope: &Scope,
        bound: &Scope,
        captured: &NameMap<Captures>,
        bindings: &Vec<Binding>,
        count: usize,
    ) -> (result: Result<(), CompileError>)
        requires
            count <= bindings@.len(),
        ensures
            agrees_plainly(
                result,
                old(self)@,
                final(self)@,
                letrec_capture_steps(
                    old(self)@,
                    builder,
                    scope@,
                    bound@,
                    captured@,
                    bindings@,
                    count as nat,
                ),
            ),
        decreases count,
    {
        reveal(letrec_capture_steps);
        if count == 0 {
            return Ok(());
        }
        self.capture_letrec(builder, scope, bound, captured, bindings, count - 1)?;
        let name = bindings[count - 1].name.as_str();
        let closure = match bound.get(name) {
            Some(CodegenValue::Closure { ptr, signature: _ }) => *ptr,
            _ => {
                return fail_with(join3("missing letrec closure binding '", name, "'"));
            },
        };
        match captured.get(name) {
            None => fail_with(join3("missing letrec capture plan for '", name, "'")),
            Some(captures) => self.set_captures(
                builder,
                closure,
                scope,
                name,
                captures,
                captures.entries.len(),
            ),
        }
    }

    #[verifier::rlimit(60)]
    fn compile_letrec_bodies(
        &mut self,
        captured: &NameMap<Captures>,
        bindings: &Vec<Binding>,
        declared: &Vec<DeclaredProcedure>,
        count: usize,
    ) -> (result: Result<NameMap<Captures>, CompileError>)
        requires
            old(self)@.ready(),
            count <= bindings@.len(),
            declared@.len() == bindings@.len(),
        ensures
            agrees_on(
                result,
                old(self)@,
                final(self)@,
                letrec_bodies_steps(
                    old(self)@,
                    captured@,
                    bindings@,
                    declared_views(declared@),
                    count as nat,
                ),
            ),
        decreases bindings@, 10nat, count,
    {
        if count == 0 {
            return Ok(captured.duplicate_map());
        }
        let mut left = self.compile_letrec_bodies(captured, bindings, declared, count - 1)?;
        let binding = &bindings[count - 1];
        let plan = &declared[count - 1];
        assert(declared_views(declared@)[count - 1] == plan@);
        match &binding.value.kind {
            ExprKind::Lambda { formals, body } => {
                let captures = match left.get(binding.name.as_str()) {
                    Some(captures) => captures.duplicate(),
                    None => {
                        return fail_with(
                            join3("missing letrec captures for '", binding.name.as_str(), "'"),
                        );
                    },
                };
                self.compile_procedure_body(
                    FunctionRef::Defined(plan.function),
                    1,
                    plan.name.as_str(),
                    &plan.signature,
                    formals,
                    &captures,
                    body,
                )?;
                let scheme_name = join("__scheme_wrap_", plan.name.as_str());
                self.compile_closure_scheme_wrapper(
                    plan.wrapper,
                    plan.function,
                    &plan.signature,
                    formals,
                    scheme_name.as_str(),
                )?;
                left.remove(binding.name.as_str());
                Ok(left)
            },
            _ => fail("letrec currently supports only lambda bindings"),
        }
    }

    /// The names that a `letrec` binds.
    pub fn compile_recursive_bindings(&mut self, builder: usize, env: &Scope, bindings: &Vec<Binding>) -> (result: Result<
        Scope,
        CompileError,
    >)
        requires
            old(self)@.ready(),
        ensures
            agrees_on(
                result,
                old(self)@,
                final(self)@,
                recursive_bindings_steps(old(self)@, builder, env@, bindings@),
            ),
        decreases bindings@, 20nat, 0nat,
    {
        let signatures = infer_letrec_signatures_from_values(bindings, env);
        let (provisional, declared) = self.declare_letrec(&signatures, env, bindings, bindings.len())?;
        let (scope, bound, captured) = self.allocate_letrec(builder, &provisional, bindings, &declared);
        self.capture_letrec(builder, &scope, &bound, &captured, bindings, bindings.len())?;
        let _ = self.compile_letrec_bodies(&captured, bindings, &declared, bindings.len())?;
        Ok(bound)
    }
}

} // verus!
