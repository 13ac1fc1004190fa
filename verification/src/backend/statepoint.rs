//! How compiled code and the collector find each other: the strategy that functions are
//! marked with, the address space of heap pointers, and a small module that shows both.
use crate::backend::abi::RuntimeFunction;
use crate::backend::codegen::plan_program::initial_state;
use crate::backend::codegen::program::ModuleCode;
use crate::backend::codegen::state::{
    block_steps, call_steps, emit_steps, give_back, position, push_step, value_steps, Compiler, State,
};
use crate::backend::ir::{op_steps, FunctionRef, FunctionType, IrType, Op, Operand, Prototype};
use vstd::prelude::*;

verus! {

broadcast use vstd::seq_lib::group_seq_properties;

/// The strategy that functions are marked with whose frames the collector reads.
pub const GC_STRATEGY_NAME: &'static str = "coreclr";

/// The address space of pointers to heap objects.
pub const GC_HEAP_ADDRSPACE: u16 = 1;

/// The address space of a type of pointers; other types have none.
pub open spec fn address_space_of(ty: IrType) -> Option<u16> {
    match ty {
        IrType::Raw => Some(0),
        IrType::Gc => Some(GC_HEAP_ADDRSPACE),
        _ => None,
    }
}

/// The address space of a type of pointers.
pub fn address_space(ty: IrType) -> (space: Option<u16>)
    ensures
        space == address_space_of(ty),
{
    match ty {
        IrType::Raw => Some(0),
        IrType::Gc => Some(GC_HEAP_ADDRSPACE),
        _ => None,
    }
}

/// The address space of pointers to heap objects.
pub fn heap_address_space() -> (space: u16)
    ensures
        address_space_of(IrType::Gc) == Some(space),
{
    GC_HEAP_ADDRSPACE
}

/// A module in which the collector's support calls have been placed, in textual form.
pub fn statepoint_ir_example() -> (text: &'static str)
    ensures
        text@ == "define ptr addrspace(1) @test(ptr addrspace(1) %obj) gc \"coreclr\" {\nentry:\n  %safepoint = call token (i64, i32, ptr, i32, i32, ...) @llvm.experimental.gc.statepoint.p0f_isVoidf(i64 0, i32 0, ptr elementtype(void ()) @foo, i32 0, i32 0, i32 0, i32 0) [\"gc-live\"(ptr addrspace(1) %obj)]\n  %obj.relocated = call ptr addrspace(1) @llvm.experimental.gc.relocate.p1(token %safepoint, i32 0, i32 0)\n  ret ptr addrspace(1) %obj.relocated\n}\n\ndefine void @foo() {\nentry:\n  ret void\n}\n\ndeclare token @llvm.experimental.gc.statepoint.p0f_isVoidf(i64 immarg, i32 immarg, ptr elementtype(void ()), i32 immarg, i32 immarg, ...)\ndeclare ptr addrspace(1) @llvm.experimental.gc.relocate.p1(token, i32 immarg, i32 immarg)\n"@,
{
    "define ptr addrspace(1) @test(ptr addrspace(1) %obj) gc \"coreclr\" {\nentry:\n  %safepoint = call token (i64, i32, ptr, i32, i32, ...) @llvm.experimental.gc.statepoint.p0f_isVoidf(i64 0, i32 0, ptr elementtype(void ()) @foo, i32 0, i32 0, i32 0, i32 0) [\"gc-live\"(ptr addrspace(1) %obj)]\n  %obj.relocated = call ptr addrspace(1) @llvm.experimental.gc.relocate.p1(token %safepoint, i32 0, i32 0)\n  ret ptr addrspace(1) %obj.relocated\n}\n\ndefine void @foo() {\nentry:\n  ret void\n}\n\ndeclare token @llvm.experimental.gc.statepoint.p0f_isVoidf(i64 immarg, i32 immarg, ptr elementtype(void ()), i32 immarg, i32 immarg, ...)\ndeclare ptr addrspace(1) @llvm.experimental.gc.relocate.p1(token, i32 immarg, i32 immarg)\n"
}

/// Adds a function that allocates through the runtime and converts the pointer it gets.
pub open spec fn alloc_slow_wrapper_steps(state: State, builder: usize) -> (State, FunctionRef) {
    let (state, place) = emit_steps(
        state,
        Op::AddFunction {
            name: "rt_alloc_slow_as1"@,
            ty: Prototype { ret: Some(IrType::Gc), params: seq![IrType::Word, IrType::Word, IrType::Short] },
        },
    );
    let wrapper = FunctionRef::Defined(place);
    let (state, entry) = block_steps(state, wrapper);
    let state = position(state, builder, entry);
    let (state, raw) = call_steps(
        state,
        builder,
        RuntimeFunction::RtAllocSlow,
        seq![
            Operand::Param { function: wrapper, skip: 0, index: 0 },
            Operand::Param { function: wrapper, skip: 0, index: 1 },
            Operand::Param { function: wrapper, skip: 0, index: 2 },
        ],
    );
    let (state, cast) = value_steps(state, Op::AddressSpaceCast { builder, value: raw, ty: IrType::Gc });
    (give_back(state, builder, cast), wrapper)
}

/// Adds the function that polls for collections.
pub open spec fn example_poll_steps(state: State, builder: usize) -> State {
    let poll = FunctionRef::Runtime(RuntimeFunction::SafepointPollWrapper);
    let state = push_step(state, Op::DeclareRuntime { function: RuntimeFunction::SafepointPollWrapper });
    let (state, entry) = block_steps(state, poll);
    let state = position(state, builder, entry);
    let (state, polled) = call_steps(state, builder, RuntimeFunction::GcSafepointPoll, Seq::empty());
    push_step(state, Op::Return { builder, value: None })
}

/// Adds a function that takes a heap pointer and does nothing.
pub open spec fn example_foo_steps(state: State, builder: usize) -> (State, FunctionRef) {
    let (state, place) = emit_steps(
        state,
        Op::AddFunction { name: "foo"@, ty: Prototype { ret: None, params: seq![IrType::Gc] } },
    );
    let foo = FunctionRef::Defined(place);
    let (state, entry) = block_steps(state, foo);
    let state = position(state, builder, entry);
    (push_step(state, Op::Return { builder, value: None }), foo)
}

/// Adds a function that keeps a heap pointer across a call and an allocation.
pub open spec fn example_test_steps(state: State, builder: usize, foo: FunctionRef, alloc_slow: FunctionRef) -> (State, FunctionRef) {
    let (state, place) = emit_steps(
        state,
        Op::AddFunction { name: "test"@, ty: Prototype { ret: Some(IrType::Gc), params: seq![IrType::Gc] } },
    );
    let test = FunctionRef::Defined(place);
    let obj = Operand::Param { function: test, skip: 0, index: 0 };
    let state = push_step(state, Op::AttachGc { function: test });
    let (state, entry) = block_steps(state, test);
    let state = position(state, builder, entry);
    let (state, called) = value_steps(state, Op::Call { builder, target: foo, args: seq![obj] });
    let (state, allocated) = value_steps(
        state,
        Op::Call {
            builder,
            target: alloc_slow,
            args: seq![Operand::Word(24), Operand::Word(8), Operand::Short(1)],
        },
    );
    (give_back(state, builder, obj), test)
}

/// The code of the example module.
pub open spec fn pre_statepoint_steps() -> State {
    let message = "failed to verify pre-statepoint example module"@;
    let (state, builder) = emit_steps(initial_state(), Op::CreateBuilder);
    let state = push_step(state, Op::DeclareRuntime { function: RuntimeFunction::GcSafepointPoll });
    let state = push_step(state, Op::DeclareRuntime { function: RuntimeFunction::RtGcPoll });
    let state = push_step(state, Op::DeclareRuntime { function: RuntimeFunction::RtAllocSlow });
    let (state, alloc_slow) = alloc_slow_wrapper_steps(state, builder);
    let state = example_poll_steps(state, builder);
    let (state, foo) = example_foo_steps(state, builder);
    let (state, test) = example_test_steps(state, builder, foo, alloc_slow);
    let state = push_step(state, Op::Verify { function: test, message });
    let state = push_step(state, Op::Verify { function: foo, message });
    push_step(
        state,
        Op::Verify { function: FunctionRef::Runtime(RuntimeFunction::SafepointPollWrapper), message },
    )
}

fn add_alloc_slow_wrapper(compiler: &mut Compiler, builder: usize) -> (wrapper: FunctionRef)
    ensures
        (final(compiler)@, wrapper) == alloc_slow_wrapper_steps(old(compiler)@, builder),
{
    let params: Vec<IrType> = vec![IrType::Word, IrType::Word, IrType::Short];
    assert(params@ =~= seq![IrType::Word, IrType::Word, IrType::Short]);
    let place = compiler.emit(
        Op::AddFunction {
            name: "rt_alloc_slow_as1".to_owned(),
            ty: FunctionType { ret: Some(IrType::Gc), params },
        },
    );
    let wrapper = FunctionRef::Defined(place);
    let entry = compiler.append_block(wrapper);
    compiler.position_at_end(builder, entry);
    let raw = compiler.call3(
        builder,
        RuntimeFunction::RtAllocSlow,
        Operand::Param { function: wrapper, skip: 0, index: 0 },
        Operand::Param { function: wrapper, skip: 0, index: 1 },
        Operand::Param { function: wrapper, skip: 0, index: 2 },
    );
    let cast = compiler.emit_value(Op::AddressSpaceCast { builder, value: raw, ty: IrType::Gc });
    compiler.build_return(builder, cast);
    wrapper
}

fn add_example_poll(compiler: &mut Compiler, builder: usize)
    ensures
        final(compiler)@ == example_poll_steps(old(compiler)@, builder),
{
    let poll = FunctionRef::Runtime(RuntimeFunction::SafepointPollWrapper);
    let _ = compiler.emit(Op::DeclareRuntime { function: RuntimeFunction::SafepointPollWrapper });
    let entry = compiler.append_block(poll);
    compiler.position_at_end(builder, entry);
    let _ = compiler.call0(builder, RuntimeFunction::GcSafepointPoll);
    let _ = compiler.emit(Op::Return { builder, value: None });
}

fn add_example_foo(compiler: &mut Compiler, builder: usize) -> (foo: FunctionRef)
    ensures
        (final(compiler)@, foo) == example_foo_steps(old(compiler)@, builder),
{
    let params: Vec<IrType> = vec![IrType::Gc];
    assert(params@ =~= seq![IrType::Gc]);
    let place = compiler.emit(
        Op::AddFunction { name: "foo".to_owned(), ty: FunctionType { ret: None, params } },
    );
    let foo = FunctionRef::Defined(place);
    let entry = compiler.append_block(foo);
    compiler.position_at_end(builder, entry);
    let _ = compiler.emit(Op::Return { builder, value: None });
    foo
}

fn add_example_test(compiler: &mut Compiler, builder: usize, foo: FunctionRef, alloc_slow: FunctionRef) -> (test: FunctionRef)
    ensures
        (final(compiler)@, test) == example_test_steps(old(compiler)@, builder, foo, alloc_slow),
{
    let params: Vec<IrType> = vec![IrType::Gc];
    assert(params@ =~= seq![IrType::Gc]);
    let place = compiler.emit(
        Op::AddFunction { name: "test".to_owned(), ty: FunctionType { ret: Some(IrType::Gc), params } },
    );
    let test = FunctionRef::Defined(place);
    let obj = Operand::Param { function: test, skip: 0, index: 0 };
    let _ = compiler.emit(Op::AttachGc { function: test });
    let entry = compiler.append_block(test);
    compiler.position_at_end(builder, entry);
    let kept: Vec<Operand> = vec![obj];
    assert(kept@ =~= seq![obj]);
    let _ = compiler.emit(Op::Call { builder, target: foo, args: kept });
    let request: Vec<Operand> = vec![Operand::Word(24), Operand::Word(8), Operand::Short(1)];
    assert(request@ =~= seq![Operand::Word(24), Operand::Word(8), Operand::Short(1)]);
    let _ = compiler.emit(Op::Call { builder, target: alloc_slow, args: request });
    compiler.build_return(builder, obj);
    test
}

/// The code of a module with one function whose frames the collector reads.
pub fn compile_pre_statepoint_example(module_name: &str) -> (code: ModuleCode)
    ensures
        code.module_name@ == module_name@,
        op_steps(code.ops@) == pre_statepoint_steps().trace,
{
    let mut compiler = Compiler::new();
    let builder = compiler.emit(Op::CreateBuilder);
    let _ = compiler.emit(Op::DeclareRuntime { function: RuntimeFunction::GcSafepointPoll });
    let _ = compiler.emit(Op::DeclareRuntime { function: RuntimeFunction::RtGcPoll });
    let _ = compiler.emit(Op::DeclareRuntime { function: RuntimeFunction::RtAllocSlow });
    let alloc_slow = add_alloc_slow_wrapper(&mut compiler, builder);
    add_example_poll(&mut compiler, builder);
    let foo = add_example_foo(&mut compiler, builder);
    let test = add_example_test(&mut compiler, builder, foo, alloc_slow);
    let poll = FunctionRef::Runtime(RuntimeFunction::SafepointPollWrapper);
    let message = "failed to verify pre-statepoint example module";
    let _ = compiler.emit(Op::Verify { function: test, message: message.to_owned() });
    let _ = compiler.emit(Op::Verify { function: foo, message: message.to_owned() });
    let _ = compiler.emit(Op::Verify { function: poll, message: message.to_owned() });
    ModuleCode { module_name: module_name.to_owned(), ops: compiler.trace }
}

} // verus!
