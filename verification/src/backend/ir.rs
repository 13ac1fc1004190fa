//! The instructions that the code generator gives to the module builder.
//!
//! Generated code is a list of operations, each of which asks for one thing: add a function,
//! open a block, append an instruction. Operations that yield something, such as the value of
//! an instruction, are referred to by their place in the list.
use crate::backend::abi::RuntimeFunction;
use vstd::prelude::*;

verus! {

broadcast use vstd::seq_lib::group_seq_properties;

/// Types of values and parameters.
#[derive(Clone, Copy, Debug, PartialEq, Eq, Structural)]
pub enum IrType {
    /// A machine word.
    Word,
    /// One bit.
    Bit,
    /// Sixteen bits.
    Short,
    /// A pointer to ordinary memory.
    Raw,
    /// A pointer to a heap object.
    Gc,
}

/// The type of a function. One without a result has no return type.
#[derive(Debug)]
pub struct FunctionType {
    pub ret: Option<IrType>,
    pub params: Vec<IrType>,
}

/// The meaning of a `FunctionType`.
pub struct Prototype {
    pub ret: Option<IrType>,
    pub params: Seq<IrType>,
}

impl View for FunctionType {
    type V = Prototype;

    open spec fn view(&self) -> Prototype {
        Prototype { ret: self.ret, params: self.params@ }
    }
}

/// A function that operations refer to.
#[derive(Clone, Copy, Debug, PartialEq, Eq, Structural)]
pub enum FunctionRef {
    /// An entry of the runtime, as compiled code sees it.
    Runtime(RuntimeFunction),
    /// The entry of the runtime behind one that converts heap pointers.
    Raw(RuntimeFunction),
    /// The function that the operation at this place added.
    Defined(usize),
    /// The intrinsic that ends the program.
    Trap,
}

/// An operand of an instruction.
#[derive(Clone, Copy, Debug, PartialEq, Eq, Structural)]
pub enum Operand {
    Word(u64),
    Bit(bool),
    Short(u16),
    NullGc,
    NullRaw,
    /// What the operation at this place yields.
    Result(usize),
    /// The parameter of a function that comes `skip + index` places after its first.
    Param { function: FunctionRef, skip: usize, index: usize },
    /// The address of a function.
    Address(FunctionRef),
}

/// How two words are compared.
#[derive(Clone, Copy, Debug, PartialEq, Eq, Structural)]
pub enum Predicate {
    Equal,
    NotEqual,
    SignedLess,
    SignedGreater,
    SignedLessEqual,
    SignedGreaterEqual,
    UnsignedLess,
    UnsignedGreater,
    UnsignedLessEqual,
    UnsignedGreaterEqual,
}

/// Arithmetic and bitwise instructions.
#[derive(Clone, Copy, Debug, PartialEq, Eq, Structural)]
pub enum BinaryOp {
    Plus,
    Minus,
    Times,
    SignedDivide,
    And,
    Or,
    ShiftLeft,
    ShiftRight,
    SignedShiftRight,
}

/// An operation: `N` holds a name or a text, `A` a row of operands, `T` a function type.
#[allow(inconsistent_fields)]
#[derive(Debug)]
pub enum Op<N, A, T> {
    /// Declares the entry of the runtime behind one that converts heap pointers.
    DeclareRaw { function: RuntimeFunction },
    /// Declares an entry of the runtime.
    DeclareRuntime { function: RuntimeFunction },
    /// Adds a function; where the name is taken, under a name made from it.
    AddFunction { name: N, ty: T },
    /// Marks a function as one whose frames the collector reads.
    AttachGc { function: FunctionRef },
    /// Adds a constant that holds the bytes of a text.
    AddBytes { name: N, text: N },
    /// Makes a new place at which instructions are appended.
    CreateBuilder,
    /// Adds an empty block at the end of a function.
    AppendBlock { function: FunctionRef },
    /// Has a builder append to the end of a block from now on.
    PositionAtEnd { builder: usize, block: usize },
    /// Yields the block that a builder appends to.
    InsertBlock { builder: usize },
    Call { builder: usize, target: FunctionRef, args: A },
    Compare { builder: usize, predicate: Predicate, left: Operand, right: Operand },
    Binary { builder: usize, op: BinaryOp, left: Operand, right: Operand },
    Not { builder: usize, value: Operand },
    Select { builder: usize, condition: Operand, on_true: Operand, on_false: Operand },
    Branch { builder: usize, target: usize },
    ConditionalBranch { builder: usize, condition: Operand, then_block: usize, else_block: usize },
    Return { builder: usize, value: Option<Operand> },
    Unreachable { builder: usize },
    Phi {
        builder: usize,
        ty: IrType,
        first: Operand,
        first_block: usize,
        second: Operand,
        second_block: usize,
    },
    PtrToInt { builder: usize, value: Operand },
    /// Turns a word into a pointer to a heap object.
    IntToPtr { builder: usize, value: Operand },
    /// Turns a pointer into one to ordinary memory, without changing its address space.
    PointerCast { builder: usize, value: Operand },
    AddressSpaceCast { builder: usize, value: Operand, ty: IrType },
    /// Reserves a word in the frame.
    Alloca { builder: usize },
    /// Reserves a row of words in the frame.
    ArrayAlloca { builder: usize, count: usize },
    /// Reads a word.
    Load { builder: usize, slot: Operand },
    /// Writes a word.
    Store { builder: usize, slot: Operand, value: Operand },
    /// The address of the word that lies `skip + index` words behind a pointer.
    ElementPointer { builder: usize, base: Operand, skip: usize, index: usize },
    /// Fails with the message where the function is malformed.
    Verify { function: FunctionRef, message: N },
}

/// Operations as they are handed to the module builder.
pub type ModuleOp = Op<String, Vec<Operand>, FunctionType>;

/// Operations as contracts speak of them.
pub type Step = Op<Seq<char>, Seq<Operand>, Prototype>;

/// The meaning of an operation.
pub open spec fn op_step(op: ModuleOp) -> Step {
    match op {
        Op::DeclareRaw { function } => Op::DeclareRaw { function },
        Op::DeclareRuntime { function } => Op::DeclareRuntime { function },
        Op::AddFunction { name, ty } => Op::AddFunction { name: name@, ty: ty@ },
        Op::AttachGc { function } => Op::AttachGc { function },
        Op::AddBytes { name, text } => Op::AddBytes { name: name@, text: text@ },
        Op::CreateBuilder => Op::CreateBuilder,
        Op::AppendBlock { function } => Op::AppendBlock { function },
        Op::PositionAtEnd { builder, block } => Op::PositionAtEnd { builder, block },
        Op::InsertBlock { builder } => Op::InsertBlock { builder },
        Op::Call { builder, target, args } => Op::Call { builder, target, args: args@ },
        Op::Compare { builder, predicate, left, right } => Op::Compare { builder, predicate, left, right },
        Op::Binary { builder, op, left, right } => Op::Binary { builder, op, left, right },
        Op::Not { builder, value } => Op::Not { builder, value },
        Op::Select { builder, condition, on_true, on_false } => Op::Select {
            builder,
            condition,
            on_true,
            on_false,
        },
        Op::Branch { builder, target } => Op::Branch { builder, target },
        Op::ConditionalBranch { builder, condition, then_block, else_block } => Op::ConditionalBranch {
            builder,
            condition,
            then_block,
            else_block,
        },
        Op::Return { builder, value } => Op::Return { builder, value },
        Op::Unreachable { builder } => Op::Unreachable { builder },
        Op::Phi { builder, ty, first, first_block, second, second_block } => Op::Phi {
            builder,
            ty,
            first,
            first_block,
            second,
            second_block,
        },
        Op::PtrToInt { builder, value } => Op::PtrToInt { builder, value },
        Op::IntToPtr { builder, value } => Op::IntToPtr { builder, value },
        Op::PointerCast { builder, value } => Op::PointerCast { builder, value },
        Op::AddressSpaceCast { builder, value, ty } => Op::AddressSpaceCast { builder, value, ty },
        Op::Alloca { builder } => Op::Alloca { builder },
        Op::ArrayAlloca { builder, count } => Op::ArrayAlloca { builder, count },
        Op::Load { builder, slot } => Op::Load { builder, slot },
        Op::Store { builder, slot, value } => Op::Store { builder, slot, value },
        Op::ElementPointer { builder, base, skip, index } => Op::ElementPointer { builder, base, skip, index },
        Op::Verify { function, message } => Op::Verify { function, message: message@ },
    }
}

/// The meaning of a list of operations.
pub open spec fn op_steps(ops: Seq<ModuleOp>) -> Seq<Step> {
    ops.map_values(|op: ModuleOp| op_step(op))
}

/// Whether an operation adds a block to `function`.
pub open spec fn appends_to(step: Step, function: FunctionRef) -> bool {
    match step {
        Op::AppendBlock { function: target } => target == function,
        _ => false,
    }
}

/// Whether some operation has added a block to `function`.
pub open spec fn has_body(steps: Seq<Step>, function: FunctionRef) -> bool {
    exists|i: int| 0 <= i < steps.len() && appends_to(#[trigger] steps[i], function)
}

/// Whether an operation has a builder append to `block`.
pub open spec fn positions_at(step: Step, block: usize) -> bool {
    match step {
        Op::PositionAtEnd { builder, block: target } => target == block,
        _ => false,
    }
}

/// Whether some operation has had a builder append to `block`.
pub open spec fn is_filled(steps: Seq<Step>, block: usize) -> bool {
    exists|i: int| 0 <= i < steps.len() && positions_at(#[trigger] steps[i], block)
}

/// Whether some operation has added a block to `function`.
pub fn function_has_body(ops: &Vec<ModuleOp>, function: FunctionRef) -> (found: bool)
    ensures
        found == has_body(op_steps(ops@), function),
{
    let mut index: usize = 0;
    while index < ops.len()
        invariant
            index <= ops@.len(),
            forall|i: int| 0 <= i < index ==> !appends_to(#[trigger] op_steps(ops@)[i], function),
        decreases ops@.len() - index,
    {
        assert(op_steps(ops@)[index as int] == op_step(ops@[index as int]));
        if let Op::AppendBlock { function: target } = &ops[index] {
            if *target == function {
                return true;
            }
        }
        index = index + 1;
    }
    false
}

/// Whether some operation has had a builder append to `block`.
pub fn block_is_filled(ops: &Vec<ModuleOp>, block: usize) -> (found: bool)
    ensures
        found == is_filled(op_steps(ops@), block),
{
    let mut index: usize = 0;
    while index < ops.len()
        invariant
            index <= ops@.len(),
            forall|i: int| 0 <= i < index ==> !positions_at(#[trigger] op_steps(ops@)[i], block),
        decreases ops@.len() - index,
    {
        assert(op_steps(ops@)[index as int] == op_step(ops@[index as int]));
        if let Op::PositionAtEnd { builder: _, block: target } = &ops[index] {
            if *target == block {
                return true;
            }
        }
        index = index + 1;
    }
    false
}

/// Whether the operations `before` are the first of the operations `after`.
pub closed spec fn continues(before: Seq<Step>, after: Seq<Step>) -> bool {
    before.is_prefix_of(after)
}

/// What it means for operations to be the first of others.
pub proof fn lemma_continues(before: Seq<Step>, after: Seq<Step>)
    ensures
        continues(before, after) <==> before.len() <= after.len() && before == after.subrange(
            0,
            before.len() as int,
        ),
{
}

/// Operations are the first of themselves.
pub broadcast proof fn lemma_continues_itself(trace: Seq<Step>)
    ensures
        #[trigger] continues(trace, trace),
{
    assert(trace.subrange(0, trace.len() as int) =~= trace);
}

/// Operations are the first of those with one more.
pub broadcast proof fn lemma_continues_push(trace: Seq<Step>, step: Step)
    ensures
        continues(trace, #[trigger] trace.push(step)),
{
    assert(trace.push(step).subrange(0, trace.len() as int) =~= trace);
}

/// Operations that are the first of others are the first of those that those are the first of.
pub broadcast proof fn lemma_continues_on(first: Seq<Step>, second: Seq<Step>, third: Seq<Step>)
    requires
        #[trigger] continues(first, second),
        #[trigger] continues(second, third),
    ensures
        continues(first, third),
{
    assert(first =~= third.subrange(0, first.len() as int));
}

pub broadcast group group_continues {
    lemma_continues_itself,
    lemma_continues_push,
    lemma_continues_on,
}

} // verus!
