//! Generation of code for core forms.
//!
//! Every method of the compiler is described by a function on states, named after it with
//! the suffix `_steps`: given the state before, it says which operations are added and what
//! value they leave, or with which message compilation fails.

pub mod builtin_calls;
pub mod closure_laws;
pub mod data_laws;
pub mod effect_laws;
pub mod expression_laws;
pub mod exprs;
pub mod iteration_laws;
pub mod laws;
pub mod meaning_laws;
pub mod plan;
pub mod plan_builtins;
pub mod plan_procedures;
pub mod plan_program;
pub mod procedure_laws;
pub mod procedures;
pub mod program;
pub mod run_laws;
pub mod state;
pub mod tail_laws;
pub mod values;

