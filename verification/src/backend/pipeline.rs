//! The pass pipeline that places the collector's support calls in a module: which passes run,
//! on which files, and what its failure means.
use crate::error::CompileError;
use crate::text::join;
use vstd::prelude::*;

verus! {

/// The passes that place safepoints and rewrite calls into statepoints.
pub const STATEPOINT_PASSES: &'static str = "function(place-safepoints),rewrite-statepoints-for-gc";

/// A module in textual form.
pub struct CompiledModule {
    pub module_name: String,
    pub llvm_ir: String,
}

/// The argument under which the pass runner is told the passes.
pub fn passes_argument() -> (argument: String)
    ensures
        argument@ == "-passes="@ + STATEPOINT_PASSES@,
{
    join("-passes=", STATEPOINT_PASSES)
}

/// The name of the file that a module is written to before the passes run.
pub fn input_file_name(module_name: &str) -> (name: String)
    ensures
        name@ == module_name@ + ".pre.ll"@,
{
    join(module_name, ".pre.ll")
}

/// The name of the file that the passes write the module to.
pub fn output_file_name(module_name: &str) -> (name: String)
    ensures
        name@ == module_name@ + ".post.ll"@,
{
    join(module_name, ".post.ll")
}

/// The outcome of a run of the passes: the module that they wrote, or what they complained
/// about.
pub fn rewritten_module(module: &CompiledModule, success: bool, stderr: &str, llvm_ir: String) -> (result: Result<
    CompiledModule,
    CompileError,
>)
    ensures
        match result {
            Ok(rewritten) => success && rewritten.module_name@ == module.module_name@ && rewritten.llvm_ir@
                == llvm_ir@,
            Err(CompileError::Codegen(message)) => !success && message@ == "statepoint pipeline failed: "@
                + stderr@,
            Err(_) => false,
        },
{
    if success {
        Ok(CompiledModule { module_name: module.module_name.clone(), llvm_ir })
    } else {
        Err(CompileError::Codegen(join("statepoint pipeline failed: ", stderr)))
    }
}

} // verus!
