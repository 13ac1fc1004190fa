# mlisp

A compiler for a small Scheme and the runtime of the programs that it compiles. The compiler emits
LLVM IR; the runtime uses MMTk for its heap.

- `src/` is the library, verified with Verus: the reader, the expander for `syntax-rules` macros
  and R7RS libraries, the lowering to core forms, the code generator, the heap model with the
  built-in procedures, and what the command line means.
- `app/` is the command around it: files, worker threads, LLVM through `inkwell`, the binding to
  MMTk, and the entries that compiled programs are linked with.
- `tests/` holds the tests. `tests/codegen.rs` runs what the code generator lists on the library's
  own runtime.

The code generator does not call LLVM. It lists operations (`backend::ir::Op`), each of which is
one call of an LLVM builder, and `app/llvm.rs` performs them one by one. Every method of the code
generator is specified by a function from the state before to the operations that it adds.

The runtime keeps objects under their addresses. Which addresses there are is up to the caller,
who hands them in as `space`; `app/runtime/heap.rs` gives each object memory from the collector.

## Commands

    mlisp compile <file>... [--emit-ir-dir <dir>] [--print-ir]
    mlisp run <file>
    mlisp example
    mlisp gc-example
    mlisp gc-pipeline-example
    mlisp runtime-stress [--threads <n>] [--iterations <n>]
