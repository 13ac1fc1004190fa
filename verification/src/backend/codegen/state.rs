//! The state of the code generator and the values that it works with.
use crate::backend::abi::RuntimeFunction;
use crate::backend::ir::{
    continues, op_step, op_steps, BinaryOp, FunctionRef, ModuleOp, Op, Operand, Predicate, Step,
};
use crate::backend::kinds::{AbiValueKind, BindingKind, FunctionSignature, HeapValueKind, NameKind, Signature};
use crate::error::CompileError;
use crate::names::{pairs_map, Duplicate, NameMap};
use vstd::prelude::*;

verus! {

broadcast use {vstd::seq_lib::group_seq_properties, crate::backend::ir::group_continues};

/// A compiled procedure: the function that takes its parameters, and the one that takes a
/// list of arguments.
pub struct FunctionInfo {
    pub value: usize,
    pub wrapper: usize,
    pub signature: FunctionSignature,
}

/// The meaning of a `FunctionInfo`.
pub struct Callable {
    pub value: usize,
    pub wrapper: usize,
    pub signature: Signature,
}

impl View for FunctionInfo {
    type V = Callable;

    open spec fn view(&self) -> Callable {
        Callable { value: self.value, wrapper: self.wrapper, signature: self.signature@ }
    }
}

impl Duplicate for FunctionInfo {
    fn duplicate(&self) -> (copy: Self) {
        FunctionInfo { value: self.value, wrapper: self.wrapper, signature: self.signature.duplicate() }
    }
}

/// What the code of an expression leaves behind.
pub enum CodegenValue {
    /// A tagged word.
    Word(Operand),
    /// A word in a slot of the frame that the collector knows.
    RootedWord { slot: Operand },
    /// A reference to a heap object of a known kind.
    HeapObject { ptr: Operand, kind: HeapValueKind },
    /// The heap cell of a variable that is assigned to.
    MutableBox { ptr: Operand },
    /// A procedure that captures nothing.
    Function(FunctionInfo),
    /// A procedure object.
    Closure { ptr: Operand, signature: FunctionSignature },
}

/// The meaning of a `CodegenValue`.
pub enum Val {
    Word(Operand),
    RootedWord { slot: Operand },
    HeapObject { ptr: Operand, kind: HeapValueKind },
    MutableBox { ptr: Operand },
    Function(Callable),
    Closure { ptr: Operand, signature: Signature },
}

impl View for CodegenValue {
    type V = Val;

    open spec fn view(&self) -> Val {
        match *self {
            CodegenValue::Word(word) => Val::Word(word),
            CodegenValue::RootedWord { slot } => Val::RootedWord { slot },
            CodegenValue::HeapObject { ptr, kind } => Val::HeapObject { ptr, kind },
            CodegenValue::MutableBox { ptr } => Val::MutableBox { ptr },
            CodegenValue::Function(info) => Val::Function(info@),
            CodegenValue::Closure { ptr, signature } => Val::Closure { ptr, signature: signature@ },
        }
    }
}

impl Duplicate for CodegenValue {
    fn duplicate(&self) -> (copy: Self) {
        match self {
            CodegenValue::Word(word) => CodegenValue::Word(*word),
            CodegenValue::RootedWord { slot } => CodegenValue::RootedWord { slot: *slot },
            CodegenValue::HeapObject { ptr, kind } => CodegenValue::HeapObject { ptr: *ptr, kind: *kind },
            CodegenValue::MutableBox { ptr } => CodegenValue::MutableBox { ptr: *ptr },
            CodegenValue::Function(info) => CodegenValue::Function(info.duplicate()),
            CodegenValue::Closure { ptr, signature } => CodegenValue::Closure {
                ptr: *ptr,
                signature: signature.duplicate(),
            },
        }
    }
}

/// A procedure that stays reachable while other code runs.
pub enum RootedCallable {
    Function(FunctionInfo),
    Closure { slot: Operand, signature: FunctionSignature },
}

/// The meaning of a `RootedCallable`.
pub enum RootedVal {
    Function(Callable),
    Closure { slot: Operand, signature: Signature },
}

impl View for RootedCallable {
    type V = RootedVal;

    open spec fn view(&self) -> RootedVal {
        match *self {
            RootedCallable::Function(info) => RootedVal::Function(info@),
            RootedCallable::Closure { slot, signature } => RootedVal::Closure { slot, signature: signature@ },
        }
    }
}

/// An argument of a compiled procedure.
#[derive(Clone, Copy, Debug, PartialEq, Eq, Structural)]
pub enum Argument {
    Int(Operand),
    Pointer(Operand),
}

/// What names stand for, as contracts speak of it.
pub type Env = Map<Seq<char>, Val>;

/// The state of the code generator.
pub struct State {
    /// The operations so far.
    pub trace: Seq<Step>,
    /// The procedures of the program.
    pub functions: Map<Seq<char>, Callable>,
    /// The builtin procedures.
    pub builtins: Map<Seq<char>, Callable>,
    /// How many functions and constants have been named by number.
    pub counter: nat,
    /// The blocks that take over when an exception is pending, the innermost last.
    pub targets: Seq<usize>,
}

impl State {
    /// Every number that was given out named something that an operation added.
    pub open spec fn ready(self) -> bool {
        self.counter <= self.trace.len()
    }
}

/// What a step of code generation leads to: a state and a value, or a message.
pub type Outcome<T> = Result<(State, T), Seq<char>>;

/// `after` comes from `before` by adding operations behind those that were there: the procedures
/// are the same, the same blocks take over on exceptions, and no more numbers were given out than
/// operations added.
pub open spec fn grows(before: State, after: State) -> bool {
    &&& before.trace.len() <= after.trace.len()
    &&& continues(before.trace, after.trace)
    &&& before.functions == after.functions
    &&& before.builtins == after.builtins
    &&& before.targets == after.targets
    &&& before.counter <= after.counter
    &&& after.counter - before.counter <= after.trace.len() - before.trace.len()
}

/// Whether a method did what is expected of it: it failed with the expected message, or left
/// the expected state and value.
pub open spec fn agrees_on<V: View>(
    result: Result<V, CompileError>,
    before: State,
    after: State,
    expected: Outcome<V::V>,
) -> bool {
    match result {
        Ok(value) => expected == Ok::<(State, V::V), Seq<char>>((after, value@)) && grows(before, after),
        Err(error) => match error {
            CompileError::Codegen(message) => expected == Err::<(State, V::V), Seq<char>>(message@),
            _ => false,
        },
    }
}

/// The same for a method that leaves something that stands for itself.
pub open spec fn agrees_plainly<V>(
    result: Result<V, CompileError>,
    before: State,
    after: State,
    expected: Outcome<V>,
) -> bool {
    match result {
        Ok(value) => expected == Ok::<(State, V), Seq<char>>((after, value)) && grows(before, after),
        Err(error) => match error {
            CompileError::Codegen(message) => expected == Err::<(State, V), Seq<char>>(message@),
            _ => false,
        },
    }
}

/// The same for a method that opens a scope. Every slot that it rooted took an operation.
pub open spec fn agrees_on_scope(
    result: Result<(Scope, usize), CompileError>,
    before: State,
    after: State,
    expected: Outcome<(Env, nat)>,
) -> bool {
    match result {
        Ok((scope, rooted)) => expected == Ok::<(State, (Env, nat)), Seq<char>>((after, (scope@, rooted as nat)))
            && grows(before, after) && rooted <= after.trace.len() - before.trace.len(),
        Err(error) => match error {
            CompileError::Codegen(message) => expected == Err::<(State, (Env, nat)), Seq<char>>(message@),
            _ => false,
        },
    }
}

/// The same for a method that leaves a row of things.
pub open spec fn agrees_on_row<V>(
    result: Result<Vec<V>, CompileError>,
    before: State,
    after: State,
    expected: Outcome<Seq<V>>,
) -> bool {
    match result {
        Ok(row) => expected == Ok::<(State, Seq<V>), Seq<char>>((after, row@)) && grows(before, after),
        Err(error) => match error {
            CompileError::Codegen(message) => expected == Err::<(State, Seq<V>), Seq<char>>(message@),
            _ => false,
        },
    }
}

/// What names stand for.
pub type Scope = NameMap<CodegenValue>;

/// The code generator.
pub struct Compiler {
    pub trace: Vec<ModuleOp>,
    pub functions: NameMap<FunctionInfo>,
    pub builtin_functions: NameMap<FunctionInfo>,
    pub lambda_counter: usize,
    pub exception_targets: Vec<usize>,
}

impl View for Compiler {
    type V = State;

    open spec fn view(&self) -> State {
        State {
            trace: op_steps(self.trace@),
            functions: self.functions@,
            builtins: self.builtin_functions@,
            counter: self.lambda_counter as nat,
            targets: self.exception_targets@,
        }
    }
}

/// Adds an operation; what it yields is referred to by its place.
pub open spec fn emit_steps(state: State, step: Step) -> (State, usize) {
    (State { trace: state.trace.push(step), ..state }, state.trace.len() as usize)
}

/// Adds an operation that yields a value.
pub open spec fn value_steps(state: State, step: Step) -> (State, Operand) {
    (State { trace: state.trace.push(step), ..state }, Operand::Result(state.trace.len() as usize))
}

/// Adds an operation that yields nothing.
pub open spec fn push_step(state: State, step: Step) -> State {
    State { trace: state.trace.push(step), ..state }
}

/// Adds a call of an entry of the runtime.
pub open spec fn call_steps(state: State, builder: usize, target: RuntimeFunction, args: Seq<Operand>) -> (State, Operand) {
    value_steps(state, Op::Call { builder, target: FunctionRef::Runtime(target), args })
}

/// Adds a comparison.
pub open spec fn compare_steps(state: State, builder: usize, predicate: Predicate, left: Operand, right: Operand) -> (State, Operand) {
    value_steps(state, Op::Compare { builder, predicate, left, right })
}

/// Adds an arithmetic or bitwise instruction.
pub open spec fn binary_steps(state: State, builder: usize, op: BinaryOp, left: Operand, right: Operand) -> (State, Operand) {
    value_steps(state, Op::Binary { builder, op, left, right })
}

/// Adds an empty block.
pub open spec fn block_steps(state: State, function: FunctionRef) -> (State, usize) {
    emit_steps(state, Op::AppendBlock { function })
}

/// Has a builder append to a block.
pub open spec fn position(state: State, builder: usize, block: usize) -> State {
    push_step(state, Op::PositionAtEnd { builder, block })
}

/// Adds an unconditional branch.
pub open spec fn branch(state: State, builder: usize, target: usize) -> State {
    push_step(state, Op::Branch { builder, target })
}

/// Adds a conditional branch.
pub open spec fn branch_if(state: State, builder: usize, condition: Operand, then_block: usize, else_block: usize) -> State {
    push_step(state, Op::ConditionalBranch { builder, condition, then_block, else_block })
}

/// Adds a return.
pub open spec fn give_back(state: State, builder: usize, value: Operand) -> State {
    push_step(state, Op::Return { builder, value: Some(value) })
}

impl Compiler {
    /// Adds an operation and gives its place.
    pub fn emit(&mut self, op: ModuleOp) -> (place: usize)
        ensures
            (final(self)@, place) == emit_steps(old(self)@, op_step(op)),
            grows(old(self)@, final(self)@),
    {
        let place: usize = self.trace.len();
        self.trace.push(op);
        assert(op_steps(self.trace@) =~= op_steps(old(self).trace@).push(op_step(op)));
        place
    }

    /// Adds an operation that yields a value.
    pub fn emit_value(&mut self, op: ModuleOp) -> (value: Operand)
        ensures
            (final(self)@, value) == value_steps(old(self)@, op_step(op)),
            grows(old(self)@, final(self)@),
    {
        let place = self.emit(op);
        Operand::Result(place)
    }

    /// Adds a call of an entry of the runtime.
    pub fn call(&mut self, builder: usize, target: RuntimeFunction, args: Vec<Operand>) -> (value: Operand)
        ensures
            (final(self)@, value) == call_steps(old(self)@, builder, target, args@),
            grows(old(self)@, final(self)@),
    {
        self.emit_value(Op::Call { builder, target: FunctionRef::Runtime(target), args })
    }

    pub fn call0(&mut self, builder: usize, target: RuntimeFunction) -> (value: Operand)
        ensures
            (final(self)@, value) == call_steps(old(self)@, builder, target, Seq::empty()),
            grows(old(self)@, final(self)@),
    {
        let args: Vec<Operand> = Vec::new();
        assert(args@ =~= Seq::<Operand>::empty());
        self.call(builder, target, args)
    }

    pub fn call1(&mut self, builder: usize, target: RuntimeFunction, first: Operand) -> (value: Operand)
        ensures
            (final(self)@, value) == call_steps(old(self)@, builder, target, seq![first]),
            grows(old(self)@, final(self)@),
    {
        let args: Vec<Operand> = vec![first];
        assert(args@ =~= seq![first]);
        self.call(builder, target, args)
    }

    pub fn call2(&mut self, builder: usize, target: RuntimeFunction, first: Operand, second: Operand) -> (value: Operand)
        ensures
            (final(self)@, value) == call_steps(old(self)@, builder, target, seq![first, second]),
            grows(old(self)@, final(self)@),
    {
        let args: Vec<Operand> = vec![first, second];
        assert(args@ =~= seq![first, second]);
        self.call(builder, target, args)
    }

    pub fn call3(&mut self, builder: usize, target: RuntimeFunction, first: Operand, second: Operand, third: Operand) -> (value: Operand)
        ensures
            (final(self)@, value) == call_steps(old(self)@, builder, target, seq![first, second, third]),
            grows(old(self)@, final(self)@),
    {
        let args: Vec<Operand> = vec![first, second, third];
        assert(args@ =~= seq![first, second, third]);
        self.call(builder, target, args)
    }

    pub fn compare(&mut self, builder: usize, predicate: Predicate, left: Operand, right: Operand) -> (value: Operand)
        ensures
            (final(self)@, value) == compare_steps(old(self)@, builder, predicate, left, right),
            grows(old(self)@, final(self)@),
    {
        self.emit_value(Op::Compare { builder, predicate, left, right })
    }

    pub fn binary(&mut self, builder: usize, op: BinaryOp, left: Operand, right: Operand) -> (value: Operand)
        ensures
            (final(self)@, value) == binary_steps(old(self)@, builder, op, left, right),
            grows(old(self)@, final(self)@),
    {
        self.emit_value(Op::Binary { builder, op, left, right })
    }

    pub fn append_block(&mut self, function: FunctionRef) -> (block: usize)
        ensures
            (final(self)@, block) == block_steps(old(self)@, function),
            grows(old(self)@, final(self)@),
    {
        self.emit(Op::AppendBlock { function })
    }

    pub fn position_at_end(&mut self, builder: usize, block: usize)
        ensures
            final(self)@ == position(old(self)@, builder, block),
            grows(old(self)@, final(self)@),
    {
        let _ = self.emit(Op::PositionAtEnd { builder, block });
    }

    pub fn build_branch(&mut self, builder: usize, target: usize)
        ensures
            final(self)@ == branch(old(self)@, builder, target),
            grows(old(self)@, final(self)@),
    {
        let _ = self.emit(Op::Branch { builder, target });
    }

    pub fn build_conditional_branch(&mut self, builder: usize, condition: Operand, then_block: usize, else_block: usize)
        ensures
            final(self)@ == branch_if(old(self)@, builder, condition, then_block, else_block),
            grows(old(self)@, final(self)@),
    {
        let _ = self.emit(Op::ConditionalBranch { builder, condition, then_block, else_block });
    }

    pub fn build_return(&mut self, builder: usize, value: Operand)
        ensures
            final(self)@ == give_back(old(self)@, builder, value),
            grows(old(self)@, final(self)@),
    {
        let _ = self.emit(Op::Return { builder, value: Some(value) });
    }
}

/// What is known of a value while kinds are inferred.
pub open spec fn val_kind(value: Val) -> NameKind {
    match value {
        Val::Word(_) => NameKind::Value(AbiValueKind::Word),
        Val::RootedWord { slot } => NameKind::Value(AbiValueKind::Word),
        Val::MutableBox { ptr } => NameKind::Value(AbiValueKind::Word),
        Val::HeapObject { ptr, kind } => NameKind::Value(AbiValueKind::Heap(kind)),
        Val::Function(info) => NameKind::Function(info.signature),
        Val::Closure { ptr, signature } => NameKind::Function(signature),
    }
}

/// What is known of the values of a scope while kinds are inferred.
pub open spec fn env_kinds(env: Env) -> Map<Seq<char>, NameKind> {
    env.map_values(|value: Val| val_kind(value))
}

fn kind_of(value: &CodegenValue) -> (kind: BindingKind)
    ensures
        kind@ == val_kind(value@),
{
    match value {
        CodegenValue::Word(_) => BindingKind::Value(AbiValueKind::Word),
        CodegenValue::RootedWord { slot: _ } => BindingKind::Value(AbiValueKind::Word),
        CodegenValue::MutableBox { ptr: _ } => BindingKind::Value(AbiValueKind::Word),
        CodegenValue::HeapObject { ptr: _, kind } => BindingKind::Value(AbiValueKind::Heap(*kind)),
        CodegenValue::Function(info) => BindingKind::Function(info.signature.duplicate()),
        CodegenValue::Closure { ptr: _, signature } => BindingKind::Function(signature.duplicate()),
    }
}

/// What is known of the values of a scope while kinds are inferred.
pub fn binding_kinds(env: &Scope) -> (kinds: NameMap<BindingKind>)
    ensures
        kinds@ == env_kinds(env@),
{
    let mut kinds: NameMap<BindingKind> = NameMap::new();
    let mut index: usize = 0;
    assert(kinds@ =~= env_kinds(pairs_map(env.pairs@.subrange(0, 0))));
    while index < env.pairs.len()
        invariant
            index <= env.pairs@.len(),
            kinds@ == env_kinds(pairs_map(env.pairs@.subrange(0, index as int))),
        decreases env.pairs@.len() - index,
    {
        let kind = kind_of(&env.pairs[index].1);
        kinds.insert(env.pairs[index].0.clone(), kind);
        proof {
            let next = env.pairs@.subrange(0, index + 1);
            assert(next.drop_last() =~= env.pairs@.subrange(0, index as int));
            assert(next.last() == env.pairs@[index as int]);
            assert(kinds@ =~= env_kinds(pairs_map(next)));
        }
        index = index + 1;
    }
    assert(env.pairs@.subrange(0, env.pairs@.len() as int) =~= env.pairs@);
    kinds
}

} // verus!
