//! Compilation of one source file, and of the examples.
use crate::backend::codegen::plan_program::compile_program_steps;
use crate::backend::codegen::program::{LlvmBackend, ModuleCode};
use crate::backend::ir::op_steps;
use crate::backend::statepoint::{compile_pre_statepoint_example, pre_statepoint_steps};
use crate::driver::{module_name_of, sanitize_module_name};
use crate::error::{path_text, CompileError, Problem};
use crate::frontend::parser::{parse_program, parsed};
use crate::middle::hir::TopLevel;
use crate::middle::lower::{lower_program, lowered_program};
use crate::middle::meaning::{row_items, CoreItem};
use vstd::prelude::*;

verus! {

broadcast use vstd::seq_lib::group_seq_properties;

/// What a source holds once it is parsed and lowered.
pub open spec fn prepared(source: Seq<char>) -> Result<Seq<CoreItem>, Problem> {
    match parsed(source) {
        Err(problem) => Err(problem),
        Ok(forms) => lowered_program(forms, 0, Seq::empty()),
    }
}

/// Whether `code` is what the code generator makes of a program.
pub open spec fn is_code_of(code: ModuleCode, items: Seq<TopLevel>) -> bool {
    match compile_program_steps(items) {
        Ok((state, done)) => op_steps(code.ops@) == state.trace,
        Err(_) => false,
    }
}

/// Whether `problem` is what the code generator says of a program.
pub open spec fn is_refusal_of(problem: Problem, items: Seq<TopLevel>) -> bool {
    match compile_program_steps(items) {
        Ok(_) => false,
        Err(message) => problem == Problem::Codegen(message),
    }
}

/// The code of a source file, where `stem` is the name of the file without its ending. The source is
/// parsed, lowered and compiled; macros and libraries are not looked for.
pub fn compile_unit(source: &str, stem: Option<String>) -> (result: Result<ModuleCode, CompileError>)
    ensures
        match result {
            Ok(code) => code.module_name@ == module_name_of(path_text(stem)) && exists|items: Seq<TopLevel>|
                prepared(source@) == Ok::<Seq<CoreItem>, Problem>(row_items(items)) && #[trigger] is_code_of(
                    code,
                    items,
                ),
            Err(error) => prepared(source@) == Err::<Seq<CoreItem>, Problem>(error@) || exists|items: Seq<TopLevel>|
                prepared(source@) == Ok::<Seq<CoreItem>, Problem>(row_items(items)) && #[trigger] is_refusal_of(
                    error@,
                    items,
                ),
        },
{
    let program = parse_program(source)?;
    let lowered = lower_program(&program)?;
    assert(prepared(source@) == Ok::<Seq<CoreItem>, Problem>(row_items(lowered.items@)));
    let module_name = sanitize_module_name(stem);
    match LlvmBackend::compile_program(module_name.as_str(), &lowered) {
        Ok(code) => {
            assert(is_code_of(code, lowered.items@));
            Ok(code)
        },
        Err(error) => {
            assert(is_refusal_of(error@, lowered.items@));
            Err(error)
        },
    }
}

/// The code of a module in which the collector reads the frames of a function.
pub fn compile_gc_example() -> (code: ModuleCode)
    ensures
        code.module_name@ == "gc_example"@,
        op_steps(code.ops@) == pre_statepoint_steps().trace,
{
    compile_pre_statepoint_example("gc_example")
}

/// The code of the same module, which is to go through the passes that place safepoints.
pub fn compile_gc_pipeline_example() -> (code: ModuleCode)
    ensures
        code.module_name@ == "gc_pipeline_example"@,
        op_steps(code.ops@) == pre_statepoint_steps().trace,
{
    compile_pre_statepoint_example("gc_pipeline_example")
}

} // verus!
