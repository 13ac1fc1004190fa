//! Code generation.

pub mod abi;
pub mod builtins;
pub mod codegen;
pub mod infer;
pub mod ir;
pub mod kinds;
pub mod pipeline;
pub mod scope;
pub mod scope_laws;
pub mod statepoint;
