//! A compiler and a runtime for a small Scheme.
//!
//! - `frontend` reads programs and `middle` turns them into core forms. `expand` takes macros and
//!   libraries out of programs that use them.
//! - `backend` lists the operations that build an LLVM module from core forms; `unit` goes from a
//!   source file, as it stands, to that list.
//! - `runtime` holds the heap, the threads and the procedures that compiled programs call.
//! - `driver` reads the command line and the texts that go between the tools of a build.
use vstd::prelude::*;

pub mod backend;
pub mod driver;
pub mod driver_laws;
pub mod error;
pub mod expand;
pub mod frontend;
pub mod middle;
pub mod names;
pub mod runtime;
pub mod text;
pub mod unit;

verus! {

} // verus!
