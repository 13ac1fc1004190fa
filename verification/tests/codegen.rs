use std::collections::HashMap;

use mlisp::backend::abi::RuntimeFunction;
use mlisp::backend::codegen::program::{LlvmBackend, ModuleCode};
use mlisp::backend::ir::{BinaryOp, FunctionRef, ModuleOp, Op, Operand, Predicate};
use mlisp::error::CompileError;
use mlisp::expand::libraries::{expand_program, LibraryFile};
use mlisp::expand::outcome::Halt;
use mlisp::expand::shelf::Shelf;
use mlisp::frontend::parser::parse_program;
use mlisp::middle::hir::{Binding, Datum, Expr, ExprKind, Formals, Procedure, Program, TopLevel};
use mlisp::middle::lower::lower_program;
use mlisp::runtime::abi::{
    mlisp_alloc_box, mlisp_alloc_box_gc, mlisp_alloc_closure, mlisp_alloc_closure_gc, mlisp_alloc_pair,
    mlisp_alloc_pair_gc, mlisp_alloc_promise, mlisp_alloc_promise_gc, mlisp_alloc_string,
    mlisp_alloc_string_gc, mlisp_alloc_symbol, mlisp_alloc_symbol_gc, mlisp_alloc_values, mlisp_alloc_vector,
    mlisp_alloc_vector_gc, mlisp_append, mlisp_apply_builtin, mlisp_assoc, mlisp_assq, mlisp_assv,
    mlisp_box_set_gc, mlisp_closure_code_ptr_gc, mlisp_closure_env_ref_gc, mlisp_closure_env_set_gc,
    mlisp_display, mlisp_empty_list, mlisp_equal, mlisp_gc_stress, mlisp_is_list, mlisp_is_pair,
    mlisp_is_string, mlisp_is_symbol, mlisp_is_values, mlisp_is_vector, mlisp_list_copy, mlisp_list_length,
    mlisp_list_ref, mlisp_list_tail, mlisp_make_bool, mlisp_make_fixnum, mlisp_member, mlisp_memq, mlisp_memv,
    mlisp_newline, mlisp_pair_car, mlisp_pair_car_gc, mlisp_pair_cdr, mlisp_pair_cdr_gc, mlisp_pair_set_car,
    mlisp_pair_set_car_gc, mlisp_pair_set_cdr, mlisp_pair_set_cdr_gc, mlisp_promise_forced,
    mlisp_promise_forced_gc, mlisp_promise_resolve, mlisp_promise_resolve_gc, mlisp_promise_value,
    mlisp_promise_value_gc, mlisp_reverse, mlisp_string_length, mlisp_string_length_gc, mlisp_string_ref,
    mlisp_string_ref_gc, mlisp_string_to_symbol, mlisp_symbol_to_string, mlisp_unspecified,
    mlisp_values_length, mlisp_values_ref, mlisp_values_tail_list, mlisp_vector_length, mlisp_vector_length_gc,
    mlisp_vector_ref, mlisp_vector_ref_gc, mlisp_vector_set, mlisp_vector_set_gc, mlisp_write, rt_alloc_slow,
    rt_bind_thread, rt_exception_pending, rt_mmtk_init, rt_object_write_post, rt_raise, rt_root_slot_pop,
    rt_root_slot_push, rt_take_pending_exception, rt_unbind_thread,
};
use mlisp::runtime::heap::Runtime;
use mlisp::runtime::object::Object;
use mlisp::runtime::value::Value;
use mlisp::unit::compile_unit;

const CODE_BASE: usize = 0x4000_0000;
const HEAP_BASE: usize = 0x2000_0000;
const OBJECT_ROOM: usize = 256;
const TAIL_MARKER: usize = 2;

/// Instructions of a block, as places in the list of operations.
type Block = Vec<usize>;

/// Runs what the code generator made.
struct Machine<'a> {
    ops: &'a [ModuleOp],
    /// The blocks of each function that has some.
    bodies: HashMap<String, Vec<usize>>,
    blocks: HashMap<usize, Block>,
    /// Functions whose addresses were taken.
    addresses: Vec<FunctionRef>,
    memory: HashMap<usize, usize>,
    texts: HashMap<usize, Vec<u8>>,
    next_slot: usize,
    runtime: Runtime,
    tail: Option<(usize, usize, usize)>,
    pushed: usize,
    popped: usize,
}

struct Frame {
    args: Vec<usize>,
    results: HashMap<usize, usize>,
}

fn key(function: FunctionRef) -> String {
    format!("{function:?}")
}

impl<'a> Machine<'a> {
    fn new(code: &'a ModuleCode) -> Machine<'a> {
        let mut machine = Machine {
            ops: &code.ops,
            bodies: HashMap::new(),
            blocks: HashMap::new(),
            addresses: Vec::new(),
            memory: HashMap::new(),
            texts: HashMap::new(),
            next_slot: 0x1000_0000,
            runtime: Runtime::new(),
            tail: None,
            pushed: 0,
            popped: 0,
        };
        for index in (0..4000).rev() {
            assert!(machine.runtime.add_space(HEAP_BASE + OBJECT_ROOM * index));
        }
        assert!(rt_mmtk_init(&mut machine.runtime));
        rt_bind_thread(&mut machine.runtime);
        let mut positions: HashMap<usize, usize> = HashMap::new();
        let mut saved: HashMap<usize, usize> = HashMap::new();
        for (place, op) in code.ops.iter().enumerate() {
            let builder = match op {
                Op::AppendBlock { function } => {
                    machine.bodies.entry(key(*function)).or_default().push(place);
                    machine.blocks.insert(place, Vec::new());
                    continue;
                }
                Op::PositionAtEnd { builder, block } => {
                    let block = saved.get(block).copied().unwrap_or(*block);
                    assert!(machine.blocks.contains_key(&block), "no such block");
                    positions.insert(*builder, block);
                    continue;
                }
                Op::InsertBlock { builder } => {
                    saved.insert(place, positions[builder]);
                    continue;
                }
                Op::AddBytes { text, .. } => {
                    machine.texts.insert(place, text.as_bytes().to_vec());
                    continue;
                }
                Op::Call { builder, .. }
                | Op::Compare { builder, .. }
                | Op::Binary { builder, .. }
                | Op::Not { builder, .. }
                | Op::Select { builder, .. }
                | Op::Branch { builder, .. }
                | Op::ConditionalBranch { builder, .. }
                | Op::Return { builder, .. }
                | Op::Unreachable { builder }
                | Op::Phi { builder, .. }
                | Op::PtrToInt { builder, .. }
                | Op::IntToPtr { builder, .. }
                | Op::PointerCast { builder, .. }
                | Op::AddressSpaceCast { builder, .. }
                | Op::Alloca { builder }
                | Op::ArrayAlloca { builder, .. }
                | Op::Load { builder, .. }
                | Op::Store { builder, .. }
                | Op::ElementPointer { builder, .. } => *builder,
                _ => continue,
            };
            let block = positions[&builder];
            let instructions = machine.blocks.get_mut(&block).unwrap();
            if let Some(last) = instructions.last() {
                let ended = matches!(
                    &code.ops[*last],
                    Op::Branch { .. } | Op::ConditionalBranch { .. } | Op::Return { .. } | Op::Unreachable { .. }
                );
                assert!(!ended, "instruction behind the end of a block");
            }
            instructions.push(place);
        }
        for (place, block) in &machine.blocks {
            let last = block.last().unwrap_or_else(|| panic!("block {place} is empty"));
            assert!(
                matches!(
                    &code.ops[*last],
                    Op::Branch { .. } | Op::ConditionalBranch { .. } | Op::Return { .. } | Op::Unreachable { .. }
                ),
                "block {place} has no end"
            );
        }
        machine
    }

    fn bytes(&self, place: usize, len: usize) -> Vec<u8> {
        assert_eq!(self.texts[&place].len(), len);
        self.texts[&place].clone()
    }

    fn row(&self, base: usize, len: usize) -> Vec<usize> {
        (0..len).map(|index| self.memory[&(base + 8 * index)]).collect()
    }

    fn address_of(&mut self, function: FunctionRef) -> usize {
        let place = match self.addresses.iter().position(|known| *known == function) {
            Some(place) => place,
            None => {
                self.addresses.push(function);
                self.addresses.len() - 1
            }
        };
        CODE_BASE + 16 * place
    }

    fn operand(&mut self, frame: &Frame, operand: Operand) -> usize {
        match operand {
            Operand::Word(value) => value as usize,
            Operand::Bit(value) => usize::from(value),
            Operand::Short(value) => usize::from(value),
            Operand::NullGc | Operand::NullRaw => 0,
            Operand::Result(place) => match &self.ops[place] {
                Op::AddBytes { .. } => place,
                _ => *frame.results.get(&place).unwrap_or_else(|| panic!("no value of {:?}", self.ops[place])),
            },
            Operand::Param { skip, index, .. } => frame.args[skip + index],
            Operand::Address(function) => self.address_of(function),
        }
    }

    fn apply(&mut self, code: usize, closure: usize, args: usize) -> usize {
        let mut next = (code, closure, args);
        loop {
            let function = self.addresses[(next.0 - CODE_BASE) / 16];
            let result = self.call(function, vec![next.1, next.2]);
            match self.tail.take() {
                Some(request) => next = request,
                None => return result,
            }
        }
    }

    fn native(&mut self, function: RuntimeFunction, args: &[usize]) -> usize {
        match function {
            RuntimeFunction::RtTailPending => usize::from(self.tail.is_some()),
            RuntimeFunction::RtTailCallMarker => TAIL_MARKER,
            RuntimeFunction::RtTailInvoke => {
                assert!(self.tail.is_none());
                self.tail = Some((args[0], args[1], args[2]));
                0
            }
            RuntimeFunction::RtTrampolineApply => self.apply(args[0], args[1], args[2]),
            RuntimeFunction::SafepointPollWrapper
            | RuntimeFunction::GcSafepointPoll
            | RuntimeFunction::RtGcPoll
            | RuntimeFunction::RtMmtkInit => 0,
            RuntimeFunction::AllocPairGc => mlisp_alloc_pair_gc(&mut self.runtime, args[0], args[1]),
            RuntimeFunction::PairCarGc => mlisp_pair_car_gc(&self.runtime, args[0]),
            RuntimeFunction::PairCdrGc => mlisp_pair_cdr_gc(&self.runtime, args[0]),
            RuntimeFunction::PairSetCarGc => mlisp_pair_set_car_gc(&mut self.runtime, args[0], args[1]),
            RuntimeFunction::PairSetCdrGc => mlisp_pair_set_cdr_gc(&mut self.runtime, args[0], args[1]),
            RuntimeFunction::AllocStringGc => {
                let row = self.bytes(args[0], args[1]);
                mlisp_alloc_string_gc(&mut self.runtime, row)
            }
            RuntimeFunction::AllocSymbolGc => {
                let row = self.bytes(args[0], args[1]);
                mlisp_alloc_symbol_gc(&mut self.runtime, row)
            }
            RuntimeFunction::AllocBoxGc => mlisp_alloc_box_gc(&mut self.runtime, args[0]),
            RuntimeFunction::AllocPromiseGc => mlisp_alloc_promise_gc(&mut self.runtime, args[0]),
            RuntimeFunction::BoxSetGc => mlisp_box_set_gc(&mut self.runtime, args[0], args[1]),
            RuntimeFunction::PromiseForcedGc => usize::from(mlisp_promise_forced_gc(&self.runtime, args[0])),
            RuntimeFunction::PromiseValueGc => mlisp_promise_value_gc(&self.runtime, args[0]),
            RuntimeFunction::PromiseResolveGc => mlisp_promise_resolve_gc(&mut self.runtime, args[0], args[1]),
            RuntimeFunction::AllocClosureGc => {
                let row = self.row(args[1], args[2]);
                mlisp_alloc_closure_gc(&mut self.runtime, args[0], row)
            }
            RuntimeFunction::ClosureCodePtrGc => mlisp_closure_code_ptr_gc(&self.runtime, args[0]),
            RuntimeFunction::ClosureEnvRefGc => mlisp_closure_env_ref_gc(&self.runtime, args[0], args[1]),
            RuntimeFunction::ClosureEnvSetGc => mlisp_closure_env_set_gc(&mut self.runtime, args[0], args[1], args[2]),
            RuntimeFunction::StringLengthGc => mlisp_string_length_gc(&self.runtime, args[0]),
            RuntimeFunction::StringRefGc => mlisp_string_ref_gc(&self.runtime, args[0], args[1]),
            RuntimeFunction::AllocVectorGc => {
                let row = self.row(args[0], args[1]);
                mlisp_alloc_vector_gc(&mut self.runtime, row)
            }
            RuntimeFunction::VectorLengthGc => mlisp_vector_length_gc(&self.runtime, args[0]),
            RuntimeFunction::VectorRefGc => mlisp_vector_ref_gc(&self.runtime, args[0], args[1]),
            RuntimeFunction::VectorSetGc => mlisp_vector_set_gc(&mut self.runtime, args[0], args[1], args[2]),
            RuntimeFunction::RtBindThread => rt_bind_thread(&mut self.runtime),
            RuntimeFunction::RtUnbindThread => {
                rt_unbind_thread(&mut self.runtime, args[0]);
                0
            }
            RuntimeFunction::RtAllocSlow => rt_alloc_slow(&mut self.runtime, args[0], args[1] as u16),
            RuntimeFunction::RtExceptionPending => usize::from(rt_exception_pending(&self.runtime)),
            RuntimeFunction::RtRaise => rt_raise(&mut self.runtime, args[0]),
            RuntimeFunction::RtTakePendingException => rt_take_pending_exception(&mut self.runtime),
            RuntimeFunction::RtObjectWritePost => {
                rt_object_write_post(&mut self.runtime, args[0], args[1], args[2]);
                0
            }
            RuntimeFunction::RtRootSlotPush => {
                rt_root_slot_push(&mut self.runtime, args[0]);
                0
            }
            RuntimeFunction::RtRootSlotPop => {
                rt_root_slot_pop(&mut self.runtime);
                0
            }
            RuntimeFunction::MakeFixnum => mlisp_make_fixnum(args[0] as i64),
            RuntimeFunction::MakeBool => mlisp_make_bool(args[0] != 0),
            RuntimeFunction::EmptyList => mlisp_empty_list(),
            RuntimeFunction::Unspecified => mlisp_unspecified(),
            RuntimeFunction::GcStress => mlisp_gc_stress(&mut self.runtime, args[0]),
            RuntimeFunction::Display => mlisp_display(&mut self.runtime, args[0]),
            RuntimeFunction::Write => mlisp_write(&mut self.runtime, args[0]),
            RuntimeFunction::Newline => mlisp_newline(&mut self.runtime),
            RuntimeFunction::AllocPair => mlisp_alloc_pair(&mut self.runtime, args[0], args[1]),
            RuntimeFunction::PairCar => mlisp_pair_car(&self.runtime, args[0]),
            RuntimeFunction::PairCdr => mlisp_pair_cdr(&self.runtime, args[0]),
            RuntimeFunction::PairSetCar => mlisp_pair_set_car(&mut self.runtime, args[0], args[1]),
            RuntimeFunction::PairSetCdr => mlisp_pair_set_cdr(&mut self.runtime, args[0], args[1]),
            RuntimeFunction::IsPair => usize::from(mlisp_is_pair(&self.runtime, args[0])),
            RuntimeFunction::IsList => usize::from(mlisp_is_list(&self.runtime, args[0])),
            RuntimeFunction::ListLength => mlisp_list_length(&self.runtime, args[0]),
            RuntimeFunction::ListTail => mlisp_list_tail(&self.runtime, args[0], args[1]),
            RuntimeFunction::ListRef => mlisp_list_ref(&self.runtime, args[0], args[1]),
            RuntimeFunction::Append => mlisp_append(&mut self.runtime, args[0], args[1]),
            RuntimeFunction::Memq => mlisp_memq(&self.runtime, args[0], args[1]),
            RuntimeFunction::Memv => mlisp_memv(&self.runtime, args[0], args[1]),
            RuntimeFunction::Member => mlisp_member(&self.runtime, args[0], args[1]),
            RuntimeFunction::Assq => mlisp_assq(&self.runtime, args[0], args[1]),
            RuntimeFunction::Assv => mlisp_assv(&self.runtime, args[0], args[1]),
            RuntimeFunction::Assoc => mlisp_assoc(&self.runtime, args[0], args[1]),
            RuntimeFunction::ListCopy => mlisp_list_copy(&mut self.runtime, args[0]),
            RuntimeFunction::Reverse => mlisp_reverse(&mut self.runtime, args[0]),
            RuntimeFunction::AllocBox => mlisp_alloc_box(&mut self.runtime, args[0]),
            RuntimeFunction::AllocPromise => mlisp_alloc_promise(&mut self.runtime, args[0]),
            RuntimeFunction::PromiseForced => usize::from(mlisp_promise_forced(&self.runtime, args[0])),
            RuntimeFunction::PromiseValue => mlisp_promise_value(&self.runtime, args[0]),
            RuntimeFunction::PromiseResolve => mlisp_promise_resolve(&mut self.runtime, args[0], args[1]),
            RuntimeFunction::AllocClosure => {
                let row = self.row(args[1], args[2]);
                mlisp_alloc_closure(&mut self.runtime, args[0], row)
            }
            RuntimeFunction::AllocString => {
                let row = self.bytes(args[0], args[1]);
                mlisp_alloc_string(&mut self.runtime, row)
            }
            RuntimeFunction::AllocSymbol => {
                let row = self.bytes(args[0], args[1]);
                mlisp_alloc_symbol(&mut self.runtime, row)
            }
            RuntimeFunction::IsSymbol => usize::from(mlisp_is_symbol(&self.runtime, args[0])),
            RuntimeFunction::AllocValues => {
                let row = self.row(args[0], args[1]);
                mlisp_alloc_values(&mut self.runtime, row)
            }
            RuntimeFunction::IsValues => usize::from(mlisp_is_values(&self.runtime, args[0])),
            RuntimeFunction::ValuesLength => mlisp_values_length(&self.runtime, args[0]),
            RuntimeFunction::ValuesRef => mlisp_values_ref(&self.runtime, args[0], args[1]),
            RuntimeFunction::ValuesTailList => mlisp_values_tail_list(&mut self.runtime, args[0], args[1]),
            RuntimeFunction::Equal => usize::from(mlisp_equal(&self.runtime, args[0], args[1])),
            RuntimeFunction::ApplyBuiltin => mlisp_apply_builtin(&mut self.runtime, args[0], args[1]),
            RuntimeFunction::SymbolToString => mlisp_symbol_to_string(&mut self.runtime, args[0]),
            RuntimeFunction::StringToSymbol => mlisp_string_to_symbol(&mut self.runtime, args[0]),
            RuntimeFunction::IsString => usize::from(mlisp_is_string(&self.runtime, args[0])),
            RuntimeFunction::StringLength => mlisp_string_length(&self.runtime, args[0]),
            RuntimeFunction::StringRef => mlisp_string_ref(&self.runtime, args[0], args[1]),
            RuntimeFunction::AllocVector => {
                let row = self.row(args[0], args[1]);
                mlisp_alloc_vector(&mut self.runtime, row)
            }
            RuntimeFunction::IsVector => usize::from(mlisp_is_vector(&self.runtime, args[0])),
            RuntimeFunction::VectorLength => mlisp_vector_length(&self.runtime, args[0]),
            RuntimeFunction::VectorRef => mlisp_vector_ref(&self.runtime, args[0], args[1]),
            RuntimeFunction::VectorSet => mlisp_vector_set(&mut self.runtime, args[0], args[1], args[2]),
        }
    }

    fn call(&mut self, function: FunctionRef, args: Vec<usize>) -> usize {
        let body = match self.bodies.get(&key(function)) {
            Some(body) => body.clone(),
            None => {
                return match function {
                    FunctionRef::Runtime(entry) | FunctionRef::Raw(entry) => {
                        if entry == RuntimeFunction::RtRootSlotPush {
                            self.pushed += 1;
                        }
                        if entry == RuntimeFunction::RtRootSlotPop {
                            self.popped += 1;
                        }
                        self.native(entry, &args)
                    }
                    FunctionRef::Trap => panic!("the program was stopped by a trap"),
                    FunctionRef::Defined(place) => panic!("no body: {:?}", self.ops[place]),
                };
            }
        };
        let mut frame = Frame { args, results: HashMap::new() };
        let mut previous = 0;
        let mut current = body[0];
        'blocks: loop {
            let block = self.blocks[&current].clone();
            for place in block {
                let value = match &self.ops[place] {
                    Op::Call { target, args, .. } => {
                        let target = *target;
                        let values: Vec<Operand> = args.clone();
                        let values = values.into_iter().map(|value| self.operand(&frame, value)).collect();
                        self.call(target, values)
                    }
                    Op::Compare { predicate, left, right, .. } => {
                        let (predicate, left, right) = (*predicate, *left, *right);
                        let (left, right) = (self.operand(&frame, left), self.operand(&frame, right));
                        let (signed_left, signed_right) = (left as i64, right as i64);
                        usize::from(match predicate {
                            Predicate::Equal => left == right,
                            Predicate::NotEqual => left != right,
                            Predicate::SignedLess => signed_left < signed_right,
                            Predicate::SignedGreater => signed_left > signed_right,
                            Predicate::SignedLessEqual => signed_left <= signed_right,
                            Predicate::SignedGreaterEqual => signed_left >= signed_right,
                            Predicate::UnsignedLess => left < right,
                            Predicate::UnsignedGreater => left > right,
                            Predicate::UnsignedLessEqual => left <= right,
                            Predicate::UnsignedGreaterEqual => left >= right,
                        })
                    }
                    Op::Binary { op, left, right, .. } => {
                        let (op, left, right) = (*op, *left, *right);
                        let (left, right) = (self.operand(&frame, left), self.operand(&frame, right));
                        match op {
                            BinaryOp::Plus => left.wrapping_add(right),
                            BinaryOp::Minus => left.wrapping_sub(right),
                            BinaryOp::Times => left.wrapping_mul(right),
                            BinaryOp::SignedDivide => (left as i64 / right as i64) as usize,
                            BinaryOp::And => left & right,
                            BinaryOp::Or => left | right,
                            BinaryOp::ShiftLeft => left << right,
                            BinaryOp::ShiftRight => left >> right,
                            BinaryOp::SignedShiftRight => ((left as i64) >> right) as usize,
                        }
                    }
                    Op::Not { value, .. } => {
                        let value = *value;
                        usize::from(self.operand(&frame, value) == 0)
                    }
                    Op::Select { condition, on_true, on_false, .. } => {
                        let (condition, on_true, on_false) = (*condition, *on_true, *on_false);
                        if self.operand(&frame, condition) != 0 {
                            self.operand(&frame, on_true)
                        } else {
                            self.operand(&frame, on_false)
                        }
                    }
                    Op::Branch { target, .. } => {
                        previous = current;
                        current = *target;
                        continue 'blocks;
                    }
                    Op::ConditionalBranch { condition, then_block, else_block, .. } => {
                        let (condition, then_block, else_block) = (*condition, *then_block, *else_block);
                        previous = current;
                        current = if self.operand(&frame, condition) != 0 { then_block } else { else_block };
                        continue 'blocks;
                    }
                    Op::Return { value, .. } => {
                        let value = *value;
                        return match value {
                            Some(value) => self.operand(&frame, value),
                            None => 0,
                        };
                    }
                    Op::Unreachable { .. } => panic!("reached what cannot be reached"),
                    Op::Phi { first, first_block, second, second_block, .. } => {
                        let (first, first_block, second, second_block) =
                            (*first, *first_block, *second, *second_block);
                        if self.block_at(first_block) == previous {
                            self.operand(&frame, first)
                        } else {
                            assert_eq!(self.block_at(second_block), previous);
                            self.operand(&frame, second)
                        }
                    }
                    Op::PtrToInt { value, .. }
                    | Op::IntToPtr { value, .. }
                    | Op::PointerCast { value, .. }
                    | Op::AddressSpaceCast { value, .. } => {
                        let value = *value;
                        self.operand(&frame, value)
                    }
                    Op::Alloca { .. } => self.reserve(1),
                    Op::ArrayAlloca { count, .. } => {
                        let count = *count;
                        self.reserve(count)
                    }
                    Op::Load { slot, .. } => {
                        let slot = *slot;
                        let address = self.operand(&frame, slot);
                        self.load(address)
                    }
                    Op::Store { slot, value, .. } => {
                        let (slot, value) = (*slot, *value);
                        let address = self.operand(&frame, slot);
                        let value = self.operand(&frame, value);
                        self.memory.insert(address, value);
                        0
                    }
                    Op::ElementPointer { base, skip, index, .. } => {
                        let (base, offset) = (*base, 8 * (skip + index));
                        self.operand(&frame, base) + offset
                    }
                    other => panic!("no instruction: {other:?}"),
                };
                frame.results.insert(place, value);
            }
            panic!("fell off the end of a block");
        }
    }

    /// The word at an address of the frame, or within an object of the heap.
    fn load(&self, address: usize) -> usize {
        if address < HEAP_BASE {
            return self.memory[&address];
        }
        let start = address - (address - HEAP_BASE) % OBJECT_ROOM;
        let word = (address - start) / 8;
        match &self.runtime.objects[&start] {
            Object::Boxed(value) if word == 2 => *value,
            Object::Closure { code_ptr, .. } if word == 2 => *code_ptr,
            Object::Closure { env, .. } => env[word - 4],
            _ => panic!("no word {word} of the object at {start}"),
        }
    }

    fn reserve(&mut self, words: usize) -> usize {
        let address = self.next_slot;
        self.next_slot += 8 * words.max(1);
        address
    }

    /// The block at a place, or the block that a builder was at there.
    fn block_at(&self, place: usize) -> usize {
        match &self.ops[place] {
            Op::InsertBlock { builder } => {
                let mut block = 0;
                for op in &self.ops[..place] {
                    if let Op::PositionAtEnd { builder: moved, block: target } = op {
                        if moved == builder {
                            block = *target;
                        }
                    }
                }
                self.block_at(block)
            }
            _ => place,
        }
    }

    fn main(&self) -> FunctionRef {
        let place = self.ops.iter().position(|op| matches!(op, Op::AddFunction { name, .. } if name == "main"));
        FunctionRef::Defined(place.expect("a program has a main function"))
    }
}

fn compiled(source: &str) -> Result<ModuleCode, CompileError> {
    compile_unit(source, Some("test".to_string()))
}

/// The code of a program with its macros and imports expanded.
fn expanded(files: &Shelf<LibraryFile>, source: &str) -> Result<ModuleCode, Halt> {
    let program = expand_program(files, &parse_program(source).unwrap(), 50)?;
    let lowered = lower_program(&program).unwrap();
    Ok(LlvmBackend::compile_program("expanded", &lowered).unwrap())
}

/// The value of a program and what it writes.
fn run(source: &str) -> (usize, String) {
    run_code(&compiled(source).unwrap())
}

fn run_code(code: &ModuleCode) -> (usize, String) {
    let mut machine = Machine::new(code);
    let main = machine.main();
    let value = machine.call(main, vec![]);
    assert!(machine.tail.is_none());
    assert_eq!(machine.pushed, machine.popped, "roots are left");
    (value, String::from_utf8(machine.runtime.output.clone()).unwrap())
}

fn value(source: &str) -> usize {
    run(source).0
}

fn number(value: i64) -> usize {
    mlisp_make_fixnum(value)
}

fn shown(source: &str) -> String {
    run(&format!("(display {source})")).1
}

fn refused(source: &str) -> String {
    match compiled(source) {
        Err(error) => error.text(),
        Ok(_) => panic!("expected a refusal"),
    }
}

#[test]
fn compiles_multiple_units() {
    let left = compiled("(define (add5 x) (+ x 5))\n(add5 4)\n").unwrap();
    let right = compiled("(if #t 9 0)\n").unwrap();
    for code in [&left, &right] {
        assert!(code.ops.iter().any(|op| matches!(op, Op::AddFunction { name, .. } if name == "main")));
    }
    assert_eq!(value("(define (add5 x) (+ x 5))\n(add5 4)\n"), number(9));
    assert_eq!(value("(if #t 9 0)\n"), number(9));
}

#[test]
fn runs_scheme_program_with_display_and_gc_stress() {
    let (value, output) = run(
        "(let ((v (vector 1 2 3)) (s \"hi\")) (begin (gc-stress 64) (display (vector-ref v 1)) (display s) 0))\n",
    );
    assert_eq!(value, number(0));
    assert!(output.contains("2hi"));
}

#[test]
fn evaluates_constants() {
    assert_eq!(value("42"), number(42));
    assert_eq!(value("-7"), number(-7));
    assert_eq!(value("#t"), Value::encode_bool(true).bits());
    assert_eq!(value("#\\a"), Value::encode_char('a').bits());
    assert_eq!(value("(begin)"), Value::unspecified().bits());
    assert_eq!(value(""), number(0));
    assert_eq!(shown("\"text\""), "text");
    assert_eq!(shown("'(1 (2 . x) \"s\" #\\c #f ())"), "(1 (2 . x) s #\\c #f ())");
}

#[test]
fn evaluates_arithmetic() {
    assert_eq!(value("(+ 1 2 3)"), number(6));
    assert_eq!(value("(- 10 4 3)"), number(3));
    assert_eq!(value("(- 5)"), number(-5));
    assert_eq!(value("(* 2 3 7)"), number(42));
    assert_eq!(value("(/ 17 5)"), number(3));
    assert_eq!(value("(+)"), number(0));
    assert_eq!(value("(*)"), number(1));
    assert_eq!(value("(if (< 1 2 3) 1 2)"), number(1));
    assert_eq!(value("(if (< 1 3 2) 1 2)"), number(2));
    assert_eq!(value("(if (>= 3 3 1) 1 2)"), number(1));
    assert_eq!(value("(if (zero? 0) 1 2)"), number(1));
}

#[test]
fn evaluates_bindings() {
    assert_eq!(value("(let ((x 1) (y 2)) (+ x y))"), number(3));
    assert_eq!(value("(let ((x 1)) (let ((x 2) (y x)) (+ x y)))"), number(3));
    assert_eq!(value("(let* ((x 1) (y (+ x 1))) (* y 10))"), number(20));
    assert_eq!(
        value("(letrec ((even (lambda (n) (if (zero? n) #t (odd (- n 1))))) (odd (lambda (n) (if (zero? n) #f (even (- n 1)))))) (even 11))"),
        Value::encode_bool(false).bits()
    );
    assert_eq!(value("(define x 3) (define y (+ x 1)) (* x y)"), number(12));
    assert_eq!(value("(define x 3) (set! x 8) x"), number(8));
    assert_eq!(value("(let ((x 1)) (set! x (+ x 1)) x)"), number(2));
}

#[test]
fn calls_procedures() {
    assert_eq!(value("(define (f x . rest) (length rest)) (f 1 2 3)"), number(2));
    assert_eq!(value("(define (fact n) (if (zero? n) 1 (* n (fact (- n 1))))) (fact 10)"), number(3628800));
    assert_eq!(value("((lambda (x y) (- x y)) 7 2)"), number(5));
    assert_eq!(value("(let ((add (lambda (x) (lambda (y) (+ x y))))) ((add 3) 4))"), number(7));
    assert_eq!(value("(define (loop n acc) (if (zero? n) acc (loop (- n 1) (+ acc 1)))) (loop 200 0)"), number(200));
    assert_eq!(value("(apply + 1 2 '(3 4))"), number(10));
    assert_eq!(value("(define (twice f x) (f (f x))) (twice (lambda (x) (* x 3)) 2)"), number(18));
}

#[test]
fn closures_share_what_they_assign() {
    let counter = "(define (counter) (let ((n 0)) (lambda () (begin (set! n (+ n 1)) n)))) ";
    assert_eq!(value(&format!("{counter}(let ((c (counter))) (begin (c) (c) (c)))")), number(3));
}

#[test]
fn works_on_lists_and_vectors() {
    assert_eq!(shown("(cons 1 (list 2 3))"), "(1 2 3)");
    assert_eq!(shown("(append (list 1) (list 2 3))"), "(1 2 3)");
    assert_eq!(shown("(reverse '(1 2 3))"), "(3 2 1)");
    assert_eq!(shown("(map (lambda (x) (* x x)) '(1 2 3))"), "(1 4 9)");
    assert_eq!(run("(for-each (lambda (x) (display x)) '(1 2 3))").1, "123");
    assert_eq!(shown("(let ((v (vector 1 2))) (begin (vector-set! v 0 9) v))"), "#(9 2)");
    assert_eq!(shown("(let ((p (cons 1 2))) (begin (set-car! p 5) p))"), "(5 . 2)");
    assert_eq!(value("(vector-length (vector 1 2 3))"), number(3));
    assert_eq!(value("(car (cdr '(1 2)))"), number(2));
    assert_eq!(shown("(member 2 '(1 2 3))"), "(2 3)");
    assert_eq!(shown("(assq 'b '((a . 1) (b . 2)))"), "(b . 2)");
    assert_eq!(value("(string-length \"abc\")"), number(3));
    assert_eq!(shown("(symbol->string 'abc)"), "abc");
}

#[test]
fn hands_on_several_values() {
    assert_eq!(value("(call-with-values (lambda () (values 1 2 3)) (lambda (a b c) (+ a (* b c))))"), number(7));
    assert_eq!(value("(call-with-values (lambda () 5) (lambda (a) a))"), number(5));
}

#[test]
fn handles_what_is_raised() {
    assert_eq!(value("(guard (e (#t (+ e 1))) (raise 41))"), number(42));
    assert_eq!(value("(guard (e (#f 1) (else 2)) (raise 0))"), number(2));
    assert_eq!(value("(guard (e (else 1)) 7)"), number(7));
    assert_eq!(value("(guard (e (else e)) (guard (inner (#f 0)) (raise 9)))"), number(9));
    assert_eq!(value("(define (f x) (+ 1 (raise x))) (guard (e (else (* e 2))) (f 21))"), number(42));
}

#[test]
fn forces_promises_once() {
    assert_eq!(
        value("(let ((n 0)) (let ((p (delay (begin (set! n (+ n 1)) n)))) (begin (force p) (force p))))"),
        number(1)
    );
    assert_eq!(value("(force (delay 5))"), number(5));
}

#[test]
fn refuses_programs_without_meaning() {
    assert_eq!(refused("(f 1)"), "codegen error: undefined variable 'f'");
    assert_eq!(refused("x"), "codegen error: undefined variable 'x'");
    assert_eq!(refused("(car)"), "codegen error: car expects exactly one argument");
    assert_eq!(refused("(define (f x) x) (f)"), "codegen error: procedure expects 1 arguments but got 0");
    assert_eq!(refused("(1 2"), "parse error: unterminated list starting at byte 0");
    assert_eq!(refused("()"), "lowering error: empty list is not an expression");
}

#[test]
fn asks_for_libraries() {
    match expanded(&Shelf::new(), "(import (a b))") {
        Err(Halt::Needs(name)) => assert_eq!(name, ["a", "b"]),
        Err(other) => panic!("expected a request for a library, got {other:?}"),
        Ok(_) => panic!("expected a request for a library"),
    }
    let mut files = Shelf::new();
    files.put(
        vec!["a".to_string(), "b".to_string()],
        LibraryFile::Source {
            path: "a/b.sld".to_string(),
            text: "(define-library (a b) (export (rename twice double)) (begin (define (twice x) (* x 2))))".to_string(),
        },
    );
    let code = expanded(&files, "(import (a b)) (double 21)").unwrap();
    assert_eq!(run_code(&code).0, number(42));
}

#[test]
fn units_are_parsed_lowered_and_compiled() {
    assert_eq!(compile_unit("1", Some("main file".to_string())).unwrap().module_name, "main_file");
    assert_eq!(compile_unit("1", None).unwrap().module_name, "module");
    assert!(matches!(compile_unit("(", None), Err(CompileError::Parse(_))));
    assert!(matches!(compile_unit("(if)", None), Err(CompileError::Lower(_))));
    // The names of declarations mean nothing by themselves.
    assert_eq!(value("(define (import x) (+ x 1)) (import 4)"), number(5));
    assert!(matches!(compile_unit("(import (a b))", None), Err(CompileError::Codegen(_))));
}

#[test]
fn runs_macros_of_programs() {
    let swap = "(define-syntax swap! (syntax-rules () ((swap! a b) (let ((tmp a)) (set! a b) (set! b tmp))))) ";
    let source = format!("{swap}(let ((tmp 1) (other 2)) (swap! tmp other) (- tmp other))");
    assert_eq!(run_code(&expanded(&Shelf::new(), &source).unwrap()).0, number(1));
}

fn expr(kind: ExprKind) -> Expr {
    Expr { kind }
}

#[test]
fn compiles_core_forms() {
    let program = Program {
        items: vec![
            TopLevel::Procedure(Procedure {
                name: "pick".to_string(),
                formals: Formals { required: vec!["c".to_string()], rest: None },
                body: expr(ExprKind::If {
                    condition: Box::new(expr(ExprKind::Variable("c".to_string()))),
                    then_branch: Box::new(expr(ExprKind::Quote(Datum::Integer(1)))),
                    else_branch: Box::new(expr(ExprKind::Integer(2))),
                }),
            }),
            TopLevel::Expression(expr(ExprKind::Let {
                bindings: vec![Binding { name: "x".to_string(), value: expr(ExprKind::Boolean(false)) }],
                body: Box::new(expr(ExprKind::Call {
                    callee: Box::new(expr(ExprKind::Variable("pick".to_string()))),
                    args: vec![expr(ExprKind::Variable("x".to_string()))],
                })),
            })),
        ],
    };
    let code = LlvmBackend::compile_program("direct", &program).unwrap();
    assert_eq!(code.module_name, "direct");
    let mut machine = Machine::new(&code);
    let main = machine.main();
    assert_eq!(machine.call(main, vec![]), number(2));
}

fn not_lowered(source: &str) -> String {
    match lower_program(&parse_program(source).unwrap()) {
        Err(CompileError::Lower(message)) => message,
        Err(other) => panic!("expected a lowering error, got {other:?}"),
        Ok(_) => panic!("expected a lowering error"),
    }
}

#[test]
fn core_forms_are_checked() {
    assert_eq!(not_lowered("(1 . 2)"), "dotted list is not an expression");
    assert_eq!(not_lowered("(quote)"), "quote expects exactly one datum");
    assert_eq!(not_lowered("(if 1)"), "if expects a condition and one or two branches");
    assert_eq!(not_lowered("(lambda (x))"), "lambda expects parameters and a body");
    assert_eq!(not_lowered("(lambda (1) 2)"), "parameter must be an identifier");
    assert_eq!(not_lowered("(lambda (x . 1) 2)"), "rest parameter must be an identifier");
    assert_eq!(not_lowered("(lambda 1 2)"), "parameters must be an identifier or a parameter list");
    assert_eq!(not_lowered("(let ((x)) x)"), "binding must hold an identifier and a value");
    assert_eq!(not_lowered("(let x 1)"), "bindings must be a list");
    assert_eq!(not_lowered("(let ())"), "let expects bindings and a body");
    assert_eq!(not_lowered("(set! 1 2)"), "set! expects an identifier and a value");
    assert_eq!(not_lowered("(delay)"), "delay expects exactly one expression");
    assert_eq!(not_lowered("(force 1 2)"), "force expects exactly one expression");
    assert_eq!(not_lowered("(guard (e))"), "guard expects clauses and a body");
    assert_eq!(not_lowered("(guard () 1)"), "guard clauses must start with an identifier");
    assert_eq!(not_lowered("(guard (e 1) 1)"), "guard clause must hold a test and a body");
    assert_eq!(not_lowered("(guard (e (else 1) (2 3)) 1)"), "else must be the last guard clause");
    assert_eq!(not_lowered("(begin (define x 1))"), "define is only valid at the top level");
    assert_eq!(not_lowered("(define x)"), "define expects a target and a value");
    assert_eq!(not_lowered("(define x 1 2)"), "define of an identifier expects exactly one value");
    assert_eq!(not_lowered("(define (1) 2)"), "define target must start with an identifier");
    assert_eq!(not_lowered("(define 1 2)"), "define target must be an identifier or a parameter list");
}

/// How many more slots the operations of a builder push than they pop.
fn slots_left(code: &ModuleCode, of: usize) -> i64 {
    code.ops
        .iter()
        .map(|op| match op {
            Op::Call { builder, target: FunctionRef::Runtime(entry), .. } if *builder == of => match entry {
                RuntimeFunction::RtRootSlotPush => 1,
                RuntimeFunction::RtRootSlotPop => -1,
                _ => 0,
            },
            _ => 0,
        })
        .sum()
}

#[test]
fn main_pops_the_slots_that_it_pushes() {
    for source in [
        "(map (lambda (x y) (cons x y)) '(1 2) '(3 4))",
        "(for-each display (list 1 2 3))",
        "(define p (cons 1 2)) (set-car! p (if (pair? p) (let ((q (cons 3 4))) (set-cdr! q p) (cdr q)) 5)) p",
        "(call-with-values (lambda () (values 1 2)) (lambda (a b) (+ a b)))",
        "(apply + 1 '(2 3))",
    ] {
        let code = compiled(source).unwrap();
        let main = code.ops.iter().position(|op| matches!(op, Op::AddFunction { name, .. } if name == "main"));
        let builder = main.unwrap() - 1;
        assert!(matches!(code.ops[builder], Op::CreateBuilder));
        assert_eq!(slots_left(&code, builder), 0, "{source}");
    }
    let mapped = compiled("(map (lambda (x) x) '(1))").unwrap();
    assert!(mapped.ops.iter().any(|op| matches!(
        op,
        Op::Call { target: FunctionRef::Runtime(RuntimeFunction::RtRootSlotPush), .. }
    )));
}
