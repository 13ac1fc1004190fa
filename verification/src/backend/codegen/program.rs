//! Code of a whole program.
use crate::backend::abi::{
    entry_type, plain_entries, type_of0, type_of1, type_of2, type_of3, wrapped_entries, wrapped_functions,
    Conversion, RuntimeFunction,
};
use crate::backend::builtins::{
    builtin_procedure_id, builtin_procedure_list, builtin_procedure_names, builtin_wrapper_signature,
    literal_texts, sanitize_name,
};
use crate::backend::codegen::plan_program::{
    builtin_scheme_wrapper_steps, builtin_wrapper_steps, compile_builtins_steps, compile_items_steps,
    compile_main_steps, compile_program_steps, compile_top_level_steps, declare_builtins_steps,
    declare_plain_steps, declare_procedure_steps, declare_raw_steps, declare_runtime_steps,
    declare_top_level_steps, gc_wrapper_steps, gc_wrappers_steps, initial_state, params_of, poll_wrapper_steps,
    program_signature, Progress,
};
use crate::backend::codegen::procedures::{function_type, scheme_wrapper_type, Captures};
use crate::backend::codegen::state::{
    agrees_plainly, grows, CodegenValue, Compiler, FunctionInfo, Scope, State,
};
use crate::backend::codegen::values::fail_with;
use crate::backend::infer::{infer_top_level_function_signatures, top_level_signatures};
use crate::backend::ir::{
    continues, function_has_body, op_steps, FunctionRef, FunctionType, IrType, ModuleOp, Op, Operand,
};
use crate::backend::kinds::{default_signature, AbiValueKind, FunctionSignature};
use crate::backend::scope::{collect_program_mutations, collect_program_pair_mutations};
use crate::error::CompileError;
use crate::middle::hir::{Program, TopLevel};
use crate::names::{Duplicate, NameMap, NameSet};
use crate::runtime::layout::{EMPTY_LIST, FIXNUM_TAG, UNSPECIFIED};
use crate::text::{join, join3};
use vstd::prelude::*;

verus! {

broadcast use {vstd::seq_lib::group_seq_properties, crate::backend::ir::group_continues};

/// The code of a module: its name and the operations that build it.
pub struct ModuleCode {
    pub module_name: String,
    pub ops: Vec<ModuleOp>,
}

/// The compiler of whole programs.
pub struct LlvmBackend;

/// `after` comes from `before` by adding operations behind those that were there; procedures may
/// have been declared.
pub open spec fn extends(before: State, after: State) -> bool {
    &&& before.trace.len() <= after.trace.len()
    &&& continues(before.trace, after.trace)
    &&& before.targets == after.targets
    &&& before.counter <= after.counter
    &&& after.counter - before.counter <= after.trace.len() - before.trace.len()
}

/// The parameters of a function that has `count` of them.
fn function_params(function: FunctionRef, count: usize) -> (params: Vec<Operand>)
    ensures
        params@ == params_of(function, count as nat),
{
    let mut params: Vec<Operand> = Vec::new();
    let mut index: usize = 0;
    while index < count
        invariant
            index <= count,
            params@ == params_of(function, index as nat),
        decreases count - index,
    {
        params.push(Operand::Param { function, skip: 0, index });
        assert(params@ =~= params_of(function, (index + 1) as nat));
        index = index + 1;
    }
    params
}

/// Every entry that converts takes an argument.
proof fn lemma_wrapped_takes_arguments(index: int)
    requires
        0 <= index < wrapped_functions().len(),
    ensures
        entry_type(wrapped_functions()[index]).params.len() >= 1,
{
    reveal(type_of0);
    reveal(type_of1);
    reveal(type_of2);
    reveal(type_of3);
}

impl Compiler {
    /// A compiler that has compiled nothing yet.
    pub fn new() -> (compiler: Compiler)
        ensures
            compiler@ == initial_state(),
    {
        let compiler = Compiler {
            trace: Vec::new(),
            functions: NameMap::new(),
            builtin_functions: NameMap::new(),
            lambda_counter: 0,
            exception_targets: Vec::new(),
        };
        assert(compiler@.trace =~= initial_state().trace);
        assert(compiler@.targets =~= initial_state().targets);
        compiler
    }

    /// Adds an entry that converts a heap pointer and hands on to the runtime.
    fn add_gc_wrapper(&mut self, function: RuntimeFunction)
        requires
            entry_type(function).params.len() >= 1,
        ensures
            final(self)@ == gc_wrapper_steps(old(self)@, function),
            grows(old(self)@, final(self)@),
    {
        reveal(gc_wrapper_steps);
        let wrapper = FunctionRef::Runtime(function);
        let mut params = function_params(wrapper, function.ty().params.len());
        let builder = self.emit(Op::CreateBuilder);
        let _ = self.emit(Op::DeclareRuntime { function });
        let entry = self.append_block(wrapper);
        self.position_at_end(builder, entry);
        match function.conversion() {
            Some(Conversion::OfResult) => {
                let raw = self.emit_value(
                    Op::Call { builder, target: FunctionRef::Raw(function), args: params },
                );
                let cast = self.emit_value(Op::AddressSpaceCast { builder, value: raw, ty: IrType::Gc });
                self.build_return(builder, cast);
            },
            _ => {
                let raw = self.emit_value(
                    Op::AddressSpaceCast {
                        builder,
                        value: Operand::Param { function: wrapper, skip: 0, index: 0 },
                        ty: IrType::Raw,
                    },
                );
                params.set(0, raw);
                let result = self.emit_value(
                    Op::Call { builder, target: FunctionRef::Raw(function), args: params },
                );
                self.build_return(builder, result);
            },
        }
    }

    /// Adds the function that compiled code polls for collections.
    fn add_poll_wrapper(&mut self)
        ensures
            final(self)@ == poll_wrapper_steps(old(self)@),
            grows(old(self)@, final(self)@),
    {
        reveal(poll_wrapper_steps);
        let wrapper = FunctionRef::Runtime(RuntimeFunction::SafepointPollWrapper);
        let builder = self.emit(Op::CreateBuilder);
        let _ = self.emit(Op::DeclareRuntime { function: RuntimeFunction::SafepointPollWrapper });
        let _ = self.emit(Op::DeclareRuntime { function: RuntimeFunction::GcSafepointPoll });
        let entry = self.append_block(wrapper);
        self.position_at_end(builder, entry);
        let _ = self.call0(builder, RuntimeFunction::GcSafepointPoll);
        let _ = self.emit(Op::Return { builder, value: None });
    }

    /// Declares the runtime.
    pub fn declare_runtime(&mut self)
        ensures
            final(self)@ == declare_runtime_steps(old(self)@),
            grows(old(self)@, final(self)@),
    {
        reveal(declare_runtime_steps);
        let wrapped = wrapped_entries();
        let plain = plain_entries();
        let mut index: usize = 0;
        reveal(declare_raw_steps);
        while index < wrapped.len()
            invariant
                index <= wrapped@.len(),
                self@ == declare_raw_steps(old(self)@, wrapped@, index as nat),
                grows(old(self)@, self@),
            decreases wrapped@.len() - index,
        {
            reveal(declare_raw_steps);
            let _ = self.emit(Op::DeclareRaw { function: wrapped[index] });
            index = index + 1;
        }
        let ghost declared = self@;
        let mut index: usize = 0;
        reveal(gc_wrappers_steps);
        while index < wrapped.len()
            invariant
                index <= wrapped@.len(),
                wrapped@ == wrapped_functions(),
                self@ == gc_wrappers_steps(declared, wrapped@, index as nat),
                grows(declared, self@),
            decreases wrapped@.len() - index,
        {
            reveal(gc_wrappers_steps);
            proof {
                lemma_wrapped_takes_arguments(index as int);
            }
            self.add_gc_wrapper(wrapped[index]);
            index = index + 1;
        }
        self.add_poll_wrapper();
        let ghost polled = self@;
        let mut index: usize = 0;
        reveal(declare_plain_steps);
        while index < plain.len()
            invariant
                index <= plain@.len(),
                self@ == declare_plain_steps(polled, plain@, index as nat),
                grows(polled, self@),
            decreases plain@.len() - index,
        {
            reveal(declare_plain_steps);
            let _ = self.emit(Op::DeclareRuntime { function: plain[index] });
            index = index + 1;
        }
    }

    /// Adds the function of a procedure and its wrapper.
    fn declare_procedure(&mut self, name: String, scheme_name: String, signature: FunctionSignature) -> (info: FunctionInfo)
        ensures
            (final(self)@, info@) == declare_procedure_steps(old(self)@, name@, scheme_name@, signature@),
            grows(old(self)@, final(self)@),
    {
        reveal(declare_procedure_steps);
        let value = self.emit(Op::AddFunction { name, ty: function_type(&signature) });
        let wrapper = self.emit(Op::AddFunction { name: scheme_name, ty: scheme_wrapper_type() });
        let _ = self.emit(Op::AttachGc { function: FunctionRef::Defined(value) });
        let _ = self.emit(Op::AttachGc { function: FunctionRef::Defined(wrapper) });
        FunctionInfo { value, wrapper, signature }
    }

    /// Declares the builtin procedures.
    pub fn declare_builtin_procedures(&mut self)
        ensures
            final(self)@ == declare_builtins_steps(
                old(self)@,
                builtin_procedure_list(),
                builtin_procedure_list().len(),
            ),
            extends(old(self)@, final(self)@),
            final(self)@.functions == old(self)@.functions,
    {
        reveal(declare_builtins_steps);
        let names = builtin_procedure_names();
        let ghost texts = builtin_procedure_list();
        assert(texts.len() == names@.len());
        let mut index: usize = 0;
        while index < names.len()
            invariant
                index <= names@.len(),
                texts == builtin_procedure_list(),
                texts == literal_texts(names@),
                texts.len() == names@.len(),
                self@ == declare_builtins_steps(old(self)@, texts, index as nat),
                extends(old(self)@, self@),
                self@.functions == old(self)@.functions,
            decreases names@.len() - index,
        {
            reveal(declare_builtins_steps);
            let name = names[index];
            assert(texts[index as int] == name@);
            proof {
                crate::backend::builtins::lemma_builtin_arity(index as int);
            }
            let text = sanitize_name(name);
            let info = self.declare_procedure(
                join("__builtin_", text.as_str()),
                join("__scheme_wrap_builtin_", text.as_str()),
                builtin_wrapper_signature(name),
            );
            self.builtin_functions.insert(name.to_owned(), info);
            index = index + 1;
        }
    }

    /// The signature of a procedure of a program.
    fn signature_in_program(
        signatures: &NameMap<FunctionSignature>,
        program: &Program,
        index: usize,
    ) -> (signature: FunctionSignature)
        requires
            index < program.items@.len(),
            program.items@[index as int] is Procedure,
            signatures@ == top_level_signatures(program.items@, program.items@.len()),
        ensures
            signature@ == program_signature(
                program.items@,
                program.items@[index as int]->Procedure_0.name@,
                program.items@[index as int]->Procedure_0.formals@,
            ),
    {
        reveal(program_signature);
        if let TopLevel::Procedure(procedure) = &program.items[index] {
            match signatures.get(procedure.name.as_str()) {
                Some(signature) => signature.duplicate(),
                None => default_signature(&procedure.formals),
            }
        } else {
            FunctionSignature { return_kind: AbiValueKind::Word, required_param_kinds: Vec::new(), rest: false }
        }
    }

    /// Declares the procedures of a program.
    pub fn declare_top_level_procedures(&mut self, program: &Program) -> (result: Result<(), CompileError>)
        ensures
            match result {
                Ok(()) => declare_top_level_steps(old(self)@, program.items@, program.items@.len()) == Ok::<
                    (State, ()),
                    Seq<char>,
                >((final(self)@, ())) && extends(old(self)@, final(self)@) && final(self)@.builtins == old(
                    self,
                )@.builtins,
                Err(CompileError::Codegen(message)) => declare_top_level_steps(
                    old(self)@,
                    program.items@,
                    program.items@.len(),
                ) == Err::<(State, ()), Seq<char>>(message@),
                Err(_) => false,
            },
    {
        let signatures = infer_top_level_function_signatures(program);
        self.declare_items(&signatures, program, program.items.len())
    }

    fn declare_items(&mut self, signatures: &NameMap<FunctionSignature>, program: &Program, count: usize) -> (result: Result<
        (),
        CompileError,
    >)
        requires
            count <= program.items@.len(),
            signatures@ == top_level_signatures(program.items@, program.items@.len()),
        ensures
            match result {
                Ok(()) => declare_top_level_steps(old(self)@, program.items@, count as nat) == Ok::<
                    (State, ()),
                    Seq<char>,
                >((final(self)@, ())) && extends(old(self)@, final(self)@) && final(self)@.builtins == old(
                    self,
                )@.builtins,
                Err(CompileError::Codegen(message)) => declare_top_level_steps(
                    old(self)@,
                    program.items@,
                    count as nat,
                ) == Err::<(State, ()), Seq<char>>(message@),
                Err(_) => false,
            },
        decreases count,
    {
        reveal(declare_top_level_steps);
        if count == 0 {
            return Ok(());
        }
        self.declare_items(signatures, program, count - 1)?;
        if let TopLevel::Procedure(procedure) = &program.items[count - 1] {
            if self.functions.contains_key(procedure.name.as_str()) {
                return fail_with(
                    join3("duplicate procedure definition '", procedure.name.as_str(), "'"),
                );
            }
            let signature = Self::signature_in_program(signatures, program, count - 1);
            let text = sanitize_name(procedure.name.as_str());
            let info = self.declare_procedure(
                procedure.name.clone(),
                join("__scheme_wrap_", text.as_str()),
                signature,
            );
            self.functions.insert(procedure.name.clone(), info);
        }
        Ok(())
    }

    /// The code of a builtin procedure.
    pub fn compile_builtin_wrapper(&mut self, info: &FunctionInfo, builtin_name: &str)
        requires
            builtin_procedure_list().contains(builtin_name@),
        ensures
            final(self)@ == builtin_wrapper_steps(old(self)@, info@, builtin_name@),
            grows(old(self)@, final(self)@),
    {
        reveal(builtin_wrapper_steps);
        let function = FunctionRef::Defined(info.value);
        if function_has_body(&self.trace, function) {
            return;
        }
        let required: usize = info.signature.required_param_kinds.len();
        let builder = self.emit(Op::CreateBuilder);
        let entry = self.append_block(function);
        let exception_block = self.append_block(function);
        self.position_at_end(builder, entry);
        let tail = if info.signature.rest {
            Operand::Param { function, skip: 0, index: required }
        } else {
            Operand::Word(EMPTY_LIST as u64)
        };
        let params = function_params(function, required);
        let list = self.build_prefixed_list_word(builder, &params, required, tail);
        let id: u16 = builtin_procedure_id(builtin_name);
        let result = self.call2(builder, RuntimeFunction::ApplyBuiltin, Operand::Word(id as u64), list);
        self.build_return(builder, result);
        self.emit_exception_return_block(exception_block, AbiValueKind::Word, 0);
        let message = join3("llvm verification failed for builtin wrapper '", builtin_name, "'");
        let _ = self.emit(Op::Verify { function, message });
    }

    /// The wrapper of a builtin procedure.
    pub fn compile_builtin_scheme_wrapper(&mut self, info: &FunctionInfo, builtin_name: &str)
        requires
            builtin_procedure_list().contains(builtin_name@),
        ensures
            final(self)@ == builtin_scheme_wrapper_steps(old(self)@, info@, builtin_name@),
            grows(old(self)@, final(self)@),
    {
        reveal(builtin_scheme_wrapper_steps);
        let function = FunctionRef::Defined(info.wrapper);
        if function_has_body(&self.trace, function) {
            return;
        }
        let builder = self.emit(Op::CreateBuilder);
        let entry = self.append_block(function);
        self.position_at_end(builder, entry);
        let id: u16 = builtin_procedure_id(builtin_name);
        let result = self.call2(
            builder,
            RuntimeFunction::ApplyBuiltin,
            Operand::Word(id as u64),
            Operand::Param { function, skip: 0, index: 1 },
        );
        self.build_return(builder, result);
        let message = join3("llvm verification failed for builtin Scheme wrapper '", builtin_name, "'");
        let _ = self.emit(Op::Verify { function, message });
    }

    /// The code of the builtin procedures.
    pub fn compile_builtin_procedures(&mut self) -> (result: Result<(), CompileError>)
        ensures
            agrees_plainly(
                result,
                old(self)@,
                final(self)@,
                compile_builtins_steps(
                    old(self)@,
                    builtin_procedure_list(),
                    builtin_procedure_list().len(),
                ),
            ),
    {
        let names = builtin_procedure_names();
        assert(literal_texts(names@).len() == names@.len());
        self.compile_builtins(&names, names.len())
    }

    fn compile_builtins(&mut self, names: &Vec<&'static str>, count: usize) -> (result: Result<(), CompileError>)
        requires
            count <= names@.len(),
            literal_texts(names@) == builtin_procedure_list(),
        ensures
            agrees_plainly(
                result,
                old(self)@,
                final(self)@,
                compile_builtins_steps(old(self)@, builtin_procedure_list(), count as nat),
            ),
        decreases count,
    {
        reveal(compile_builtins_steps);
        assert(literal_texts(names@).len() == names@.len());
        if count == 0 {
            return Ok(());
        }
        self.compile_builtins(names, count - 1)?;
        let name = names[count - 1];
        assert(literal_texts(names@)[count - 1] == name@);
        let info = match self.builtin_functions.get(name) {
            Some(info) => info.duplicate(),
            None => {
                return fail_with(join3("missing builtin wrapper for '", name, "'"));
            },
        };
        self.compile_builtin_wrapper(&info, name);
        self.compile_builtin_scheme_wrapper(&info, name);
        Ok(())
    }

    /// The code of the procedures of a program.
    pub fn compile_top_level_procedures(&mut self, program: &Program) -> (result: Result<(), CompileError>)
        requires
            old(self)@.ready(),
        ensures
            agrees_plainly(
                result,
                old(self)@,
                final(self)@,
                compile_top_level_steps(old(self)@, program.items@, program.items@.len()),
            ),
    {
        self.compile_procedures(program, program.items.len())
    }

    fn compile_procedures(&mut self, program: &Program, count: usize) -> (result: Result<(), CompileError>)
        requires
            old(self)@.ready(),
            count <= program.items@.len(),
        ensures
            agrees_plainly(
                result,
                old(self)@,
                final(self)@,
                compile_top_level_steps(old(self)@, program.items@, count as nat),
            ),
        decreases count,
    {
        reveal(compile_top_level_steps);
        if count == 0 {
            return Ok(());
        }
        self.compile_procedures(program, count - 1)?;
        if let TopLevel::Procedure(procedure) = &program.items[count - 1] {
            let info = match self.functions.get(procedure.name.as_str()) {
                Some(info) => info.duplicate(),
                None => {
                    return fail_with(join3("missing function '", procedure.name.as_str(), "'"));
                },
            };
            let captures = Captures { entries: Vec::new() };
            assert(captures@ =~= Seq::empty());
            self.compile_procedure_body(
                FunctionRef::Defined(info.value),
                0,
                procedure.name.as_str(),
                &info.signature,
                &procedure.formals,
                &captures,
                &procedure.body,
            )?;
            let text = sanitize_name(procedure.name.as_str());
            let scheme_name = join("__scheme_wrap_", text.as_str());
            self.compile_direct_scheme_wrapper(&info, &procedure.formals, scheme_name.as_str())?;
        }
        Ok(())
    }

    fn compile_items(
        &mut self,
        builder: usize,
        function: FunctionRef,
        program: &Program,
        assigned: &NameSet,
        changed: &NameSet,
        count: usize,
    ) -> (result: Result<(Scope, usize, CodegenValue), CompileError>)
        requires
            old(self)@.ready(),
            count <= program.items@.len(),
        ensures
            match result {
                Ok((env, rooted, last)) => compile_items_steps(
                    old(self)@,
                    builder,
                    function,
                    program.items@,
                    assigned@,
                    changed@,
                    count as nat,
                ) == Ok::<(State, Progress), Seq<char>>(
                    (final(self)@, Progress { env: env@, rooted: rooted as nat, last: last@ }),
                ) && grows(old(self)@, final(self)@) && rooted <= final(self)@.trace.len() - old(
                    self,
                )@.trace.len(),
                Err(CompileError::Codegen(message)) => compile_items_steps(
                    old(self)@,
                    builder,
                    function,
                    program.items@,
                    assigned@,
                    changed@,
                    count as nat,
                ) == Err::<(State, Progress), Seq<char>>(message@),
                Err(_) => false,
            },
        decreases count,
    {
        reveal(compile_items_steps);
        if count == 0 {
            let none: Scope = NameMap::new();
            return Ok((none, 0, CodegenValue::Word(Operand::Word(FIXNUM_TAG as u64))));
        }
        let (mut env, rooted, last) = self.compile_items(
            builder,
            function,
            program,
            assigned,
            changed,
            count - 1,
        )?;
        match &program.items[count - 1] {
            TopLevel::Definition { name, value } => {
                let compiled = self.compile_expr(builder, function, &env, value)?;
                let total: usize = self.bind_name(
                    builder,
                    &mut env,
                    rooted,
                    name,
                    compiled,
                    assigned,
                    changed,
                );
                Ok((env, total, CodegenValue::Word(Operand::Word(UNSPECIFIED as u64))))
            },
            TopLevel::Expression(expr) => {
                let value = self.compile_expr(builder, function, &env, expr)?;
                Ok((env, rooted, value))
            },
            TopLevel::Procedure(_) => Ok((env, rooted, last)),
        }
    }

    /// The function that runs the items of a program.
    pub fn compile_main(&mut self, program: &Program) -> (result: Result<(), CompileError>)
        requires
            old(self)@.ready(),
        ensures
            agrees_plainly(
                result,
                old(self)@,
                final(self)@,
                compile_main_steps(old(self)@, program.items@),
            ),
    {
        reveal(compile_main_steps);
        let assigned = collect_program_mutations(program);
        let changed = collect_program_pair_mutations(program);
        let builder = self.emit(Op::CreateBuilder);
        let params: Vec<IrType> = Vec::new();
        assert(params@ =~= Seq::<IrType>::empty());
        let main = self.emit(
            Op::AddFunction {
                name: "main".to_owned(),
                ty: FunctionType { ret: Some(IrType::Word), params },
            },
        );
        let function = FunctionRef::Defined(main);
        let _ = self.emit(Op::AttachGc { function });
        let entry = self.append_block(function);
        let exception_block = self.append_block(function);
        self.position_at_end(builder, entry);
        let ghost outer = self@.targets;
        self.exception_targets.push(exception_block);
        let (_, rooted, last) = self.compile_items(
            builder,
            function,
            program,
            &assigned,
            &changed,
            program.items.len(),
        )?;
        let word = self.value_to_word(builder, &last);
        self.pop_root_slots(builder, rooted);
        let _ = self.exception_targets.pop();
        assert(self.exception_targets@ =~= outer);
        self.build_return(builder, word);
        self.emit_exception_return_block(exception_block, AbiValueKind::Word, rooted);
        let _ = self.emit(
            Op::Verify { function, message: "llvm verification failed for module".to_owned() },
        );
        Ok(())
    }

    /// The code of a program.
    pub fn compile_program(&mut self, program: &Program) -> (result: Result<(), CompileError>)
        requires
            old(self)@ == initial_state(),
        ensures
            match result {
                Ok(()) => compile_program_steps(program.items@) == Ok::<(State, ()), Seq<char>>((final(self)@, ())),
                Err(CompileError::Codegen(message)) => compile_program_steps(program.items@) == Err::<
                    (State, ()),
                    Seq<char>,
                >(message@),
                Err(_) => false,
            },
    {
        reveal(compile_program_steps);
        self.declare_runtime();
        self.declare_builtin_procedures();
        self.declare_top_level_procedures(program)?;
        self.compile_builtin_procedures()?;
        self.compile_top_level_procedures(program)?;
        self.compile_main(program)
    }
}

impl LlvmBackend {
    /// Compiles a program into the code of a module.
    pub fn compile_program(module_name: &str, program: &Program) -> (result: Result<ModuleCode, CompileError>)
        ensures
            match result {
                Ok(code) => code.module_name@ == module_name@ && match compile_program_steps(program.items@) {
                    Ok((state, done)) => op_steps(code.ops@) == state.trace,
                    Err(_) => false,
                },
                Err(CompileError::Codegen(message)) => compile_program_steps(program.items@) == Err::<
                    (State, ()),
                    Seq<char>,
                >(message@),
                Err(_) => false,
            },
    {
        let mut compiler = Compiler::new();
        compiler.compile_program(program)?;
        Ok(ModuleCode { module_name: module_name.to_owned(), ops: compiler.trace })
    }
}

} // verus!
