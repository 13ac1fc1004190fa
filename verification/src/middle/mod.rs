//! The form of a program between the expander and the code generator.

pub mod hir;
pub mod lower;
pub mod lower_laws;
pub mod meaning;
