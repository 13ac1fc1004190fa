//! The runtime that compiled programs run against.

pub mod abi;
pub mod access;
pub mod apply;
pub mod builtin_laws;
pub mod compare;
pub mod error;
pub mod gc;
pub mod heap;
pub mod laws;
pub mod layout;
pub mod lists;
pub mod moving;
pub mod object;
pub mod records;
pub mod unchecked;
pub mod value;
pub mod writer;
