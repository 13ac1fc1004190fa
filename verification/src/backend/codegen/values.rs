//! Words, slots, lists and checks: the pieces that generated code is made of.
use crate::backend::abi::RuntimeFunction;
use crate::backend::codegen::state::{
    agrees_on, agrees_plainly, binary_steps, block_steps, branch_if, call_steps, compare_steps, emit_steps,
    give_back, grows, position, push_step, value_steps, Argument, CodegenValue, Compiler, Outcome,
    RootedCallable, RootedVal, State, Val,
};
use crate::backend::ir::{is_filled, block_is_filled, BinaryOp, FunctionRef, IrType, Op, Operand, Predicate};
use crate::backend::kinds::{
    dynamic_callable_signature, heap_kind_name, heap_kind_text, words_signature, AbiValueKind,
    FunctionSignature, HeapValueKind, Signature,
};
use crate::error::CompileError;
use crate::names::Duplicate;
use crate::runtime::layout::{
    BOOL_FALSE, BOOL_TRUE, CHAR_SHIFT, CHAR_TAG, EMPTY_LIST, FIXNUM_SHIFT, FIXNUM_TAG, IMMEDIATE_TAG_MASK,
    UNSPECIFIED,
};
use crate::runtime::value::{fits_fixnum, fixnum_bits, Value};
use crate::text::{decimal, decimal_text, decimal_wide, integer, integer_text, join, join3};
use vstd::prelude::*;

verus! {

broadcast use {vstd::seq_lib::group_seq_properties, crate::backend::ir::group_continues};

/// A failure with a message.
pub fn fail<T>(message: &str) -> (result: Result<T, CompileError>)
    ensures
        match result {
            Err(CompileError::Codegen(text)) => text@ == message@,
            _ => false,
        },
{
    Err(CompileError::Codegen(message.to_owned()))
}

/// A failure with a message that was put together.
pub fn fail_with<T>(message: String) -> (result: Result<T, CompileError>)
    ensures
        match result {
            Err(CompileError::Codegen(text)) => text@ == message@,
            _ => false,
        },
{
    Err(CompileError::Codegen(message))
}

/// The word of a boolean.
pub open spec fn bool_word(value: bool) -> Operand {
    Operand::Word(if value { BOOL_TRUE as u64 } else { BOOL_FALSE as u64 })
}

/// The word of the fixnum zero.
pub open spec fn fixnum_zero() -> Operand {
    Operand::Word(FIXNUM_TAG as u64)
}

/// The word of the empty list.
pub open spec fn empty_list_word() -> Operand {
    Operand::Word(EMPTY_LIST as u64)
}

/// The word that stands for no value in particular.
pub open spec fn unspecified_word() -> Operand {
    Operand::Word(UNSPECIFIED as u64)
}

/// The word of a boolean.
pub fn const_bool(value: bool) -> (word: Operand)
    ensures
        word == bool_word(value),
{
    if value {
        Operand::Word(BOOL_TRUE as u64)
    } else {
        Operand::Word(BOOL_FALSE as u64)
    }
}

/// The word of an integer literal, or the message where it does not fit.
pub open spec fn fixnum_literal(value: i64) -> Result<Operand, Seq<char>> {
    if fits_fixnum(value as int) {
        Ok(Operand::Word(fixnum_bits(value as int) as u64))
    } else {
        Err(
            "integer literal "@ + integer_text(value as int)
                + " does not fit in the tagged fixnum representation"@,
        )
    }
}

/// The word of an integer literal.
pub fn const_fixnum_checked(value: i64) -> (result: Result<Operand, CompileError>)
    ensures
        match result {
            Ok(word) => fixnum_literal(value) == Ok::<Operand, Seq<char>>(word),
            Err(CompileError::Codegen(message)) => fixnum_literal(value) == Err::<Operand, Seq<char>>(message@),
            Err(_) => false,
        },
{
    match Value::encode_fixnum(value) {
        Some(encoded) => Ok(Operand::Word(encoded.bits() as u64)),
        None => fail_with(
            join3(
                "integer literal ",
                integer(value).as_str(),
                " does not fit in the tagged fixnum representation",
            ),
        ),
    }
}

/// Reads the word that lies a number of words behind a pointer.
#[verifier::opaque]
pub open spec fn load_element_steps(state: State, builder: usize, base: Operand, skip: usize, index: usize) -> (State, Operand) {
    let (state, slot) = value_steps(state, Op::ElementPointer { builder, base, skip, index });
    value_steps(state, Op::Load { builder, slot })
}

/// Reads the code pointer of a procedure object.
#[verifier::opaque]
pub open spec fn load_closure_code_ptr_steps(state: State, builder: usize, closure: Operand) -> (State, Operand) {
    load_element_steps(state, builder, closure, 2, 0)
}

/// Reads a captured word of a procedure object.
#[verifier::opaque]
pub open spec fn load_closure_env_word_steps(state: State, builder: usize, closure: Operand, index: usize) -> (State, Operand) {
    load_element_steps(state, builder, closure, 4, index)
}

/// Reads the word in a variable's cell.
#[verifier::opaque]
pub open spec fn load_box_word_steps(state: State, builder: usize, cell: Operand) -> (State, Operand) {
    load_element_steps(state, builder, cell, 2, 0)
}

/// Reads a rooted word.
#[verifier::opaque]
pub open spec fn load_rooted_word_steps(state: State, builder: usize, slot: Operand) -> (State, Operand) {
    value_steps(state, Op::Load { builder, slot })
}

/// Puts a word in a slot of the frame and tells the collector about the slot.
#[verifier::opaque]
pub open spec fn root_word_steps(state: State, builder: usize, value: Operand) -> (State, Operand) {
    let (state, slot) = value_steps(state, Op::Alloca { builder });
    let state = push_step(state, Op::Store { builder, slot, value });
    let (state, raw) = value_steps(state, Op::PointerCast { builder, value: slot });
    let (state, pushed) = call_steps(state, builder, RuntimeFunction::RtRootSlotPush, seq![raw]);
    (state, slot)
}

/// Has the collector forget a number of slots.
#[verifier::opaque]
pub open spec fn pop_root_slots_steps(state: State, builder: usize, count: nat) -> State
    decreases count,
{
    if count == 0 {
        state
    } else {
        call_steps(
            pop_root_slots_steps(state, builder, (count - 1) as nat),
            builder,
            RuntimeFunction::RtRootSlotPop,
            Seq::empty(),
        ).0
    }
}

/// Writes the unspecified word into the first `count` words of a row.
#[verifier::opaque]
pub open spec fn fill_steps(state: State, builder: usize, values: Operand, count: nat) -> State
    decreases count,
{
    if count == 0 {
        state
    } else {
        let state = fill_steps(state, builder, values, (count - 1) as nat);
        let (state, slot) = value_steps(
            state,
            Op::ElementPointer { builder, base: values, skip: 0, index: (count - 1) as usize },
        );
        push_step(state, Op::Store { builder, slot, value: unspecified_word() })
    }
}

/// Makes a procedure object whose captured words are yet to be set.
#[verifier::opaque]
pub open spec fn allocate_placeholder_closure_steps(
    state: State,
    builder: usize,
    wrapper: usize,
    signature: Signature,
    env_len: usize,
) -> (State, Val) {
    let (state, env_ptr) = if env_len == 0 {
        (state, Operand::NullRaw)
    } else {
        let (state, values) = value_steps(state, Op::ArrayAlloca { builder, count: env_len });
        let state = fill_steps(state, builder, values, env_len as nat);
        value_steps(state, Op::PointerCast { builder, value: values })
    };
    let (state, code_ptr) = value_steps(
        state,
        Op::PtrToInt { builder, value: Operand::Address(FunctionRef::Defined(wrapper)) },
    );
    let (state, closure) = call_steps(
        state,
        builder,
        RuntimeFunction::AllocClosureGc,
        seq![code_ptr, env_ptr, Operand::Word(env_len as u64)],
    );
    (state, Val::Closure { ptr: closure, signature })
}

/// Turns what an expression left into a word.
#[verifier::opaque]
pub open spec fn value_to_word_steps(state: State, builder: usize, value: Val) -> (State, Operand) {
    match value {
        Val::Word(word) => (state, word),
        Val::RootedWord { slot } => load_rooted_word_steps(state, builder, slot),
        Val::MutableBox { ptr } => value_steps(state, Op::PtrToInt { builder, value: ptr }),
        Val::HeapObject { ptr, kind } => value_steps(state, Op::PtrToInt { builder, value: ptr }),
        Val::Closure { ptr, signature } => value_steps(state, Op::PtrToInt { builder, value: ptr }),
        Val::Function(info) => {
            let (state, closure) = allocate_placeholder_closure_steps(
                state,
                builder,
                info.wrapper,
                info.signature,
                0,
            );
            value_steps(state, Op::PtrToInt { builder, value: closure->Closure_ptr })
        },
    }
}

/// Moves a value into a heap cell.
#[verifier::opaque]
pub open spec fn box_value_steps(state: State, builder: usize, value: Val) -> (State, Val) {
    let (state, word) = value_to_word_steps(state, builder, value);
    let (state, ptr) = call_steps(state, builder, RuntimeFunction::AllocBoxGc, seq![word]);
    (state, Val::MutableBox { ptr })
}

/// Makes a pair of two words that stay reachable meanwhile.
#[verifier::opaque]
pub open spec fn alloc_pair_rooted_steps(state: State, builder: usize, car: Operand, cdr: Operand) -> (State, Operand) {
    let (state, car_slot) = root_word_steps(state, builder, car);
    let (state, cdr_slot) = root_word_steps(state, builder, cdr);
    let (state, car_word) = load_rooted_word_steps(state, builder, car_slot);
    let (state, cdr_word) = load_rooted_word_steps(state, builder, cdr_slot);
    let (state, pair) = call_steps(state, builder, RuntimeFunction::AllocPairGc, seq![car_word, cdr_word]);
    (pop_root_slots_steps(state, builder, 2), pair)
}

/// Makes a pair and turns the reference to it into a word.
#[verifier::opaque]
pub open spec fn cons_word_steps(state: State, builder: usize, car: Operand, cdr: Operand) -> (State, Operand) {
    let (state, pair) = alloc_pair_rooted_steps(state, builder, car, cdr);
    value_steps(state, Op::PtrToInt { builder, value: pair })
}

/// Puts the first `count` of `words` in front of the list `tail`.
#[verifier::opaque]
pub open spec fn prefixed_list_steps(state: State, builder: usize, words: Seq<Operand>, count: nat, tail: Operand) -> (State, Operand)
    decreases count,
{
    if count == 0 || count > words.len() {
        (state, tail)
    } else {
        let (state, list) = cons_word_steps(state, builder, words[count - 1], tail);
        prefixed_list_steps(state, builder, words, (count - 1) as nat, list)
    }
}

/// The list of `words`.
#[verifier::opaque]
pub open spec fn list_of_words_steps(state: State, builder: usize, words: Seq<Operand>) -> (State, Operand) {
    prefixed_list_steps(state, builder, words, words.len(), empty_list_word())
}

/// Turns the first `count` of a row of arguments into words.
#[verifier::opaque]
pub open spec fn argument_words_steps(state: State, builder: usize, values: Seq<Argument>, count: nat) -> (State, Seq<Operand>)
    decreases count,
{
    if count == 0 || count > values.len() {
        (state, Seq::empty())
    } else {
        let (state, words) = argument_words_steps(state, builder, values, (count - 1) as nat);
        match values[count - 1] {
            Argument::Int(word) => (state, words.push(word)),
            Argument::Pointer(ptr) => {
                let (state, word) = value_steps(state, Op::PtrToInt { builder, value: ptr });
                (state, words.push(word))
            },
        }
    }
}

/// The list of arguments under which a procedure is called. The last of the arguments of one
/// that takes more than it requires is already a list.
#[verifier::opaque]
pub open spec fn build_scheme_args_list_steps(
    state: State,
    builder: usize,
    signature: Signature,
    values: Seq<Argument>,
) -> Outcome<Operand> {
    let (state, words) = argument_words_steps(state, builder, values, values.len());
    let required = signature.params.len();
    if !signature.rest {
        if words.len() != required {
            Err(
                "non-variadic callable expected "@ + decimal_text(required) + " worker arguments but got "@
                    + decimal_text(words.len()),
            )
        } else {
            Ok(list_of_words_steps(state, builder, words))
        }
    } else if words.len() != required + 1 {
        Err(
            "variadic callable expected "@ + decimal_text(required + 1) + " worker arguments but got "@
                + decimal_text(words.len()),
        )
    } else {
        Ok(
            prefixed_list_steps(
                state,
                builder,
                words.subrange(0, required as int),
                required,
                words[required as int],
            ),
        )
    }
}

/// Branches to a trap where a condition does not hold.
#[verifier::opaque]
pub open spec fn trap_if_false_steps(state: State, builder: usize, function: FunctionRef, condition: Operand) -> State {
    let (state, ok_block) = block_steps(state, function);
    let (state, trap_block) = block_steps(state, function);
    let state = branch_if(state, builder, condition, ok_block, trap_block);
    let state = position(state, builder, trap_block);
    let state = push_step(state, Op::Call { builder, target: FunctionRef::Trap, args: Seq::empty() });
    let state = push_step(state, Op::Unreachable { builder });
    position(state, builder, ok_block)
}

/// Traps where a word is no fixnum.
#[verifier::opaque]
pub open spec fn ensure_fixnum_steps(state: State, builder: usize, function: FunctionRef, word: Operand) -> State {
    let (state, masked) = binary_steps(state, builder, BinaryOp::And, word, Operand::Word(FIXNUM_TAG as u64));
    let (state, is_fixnum) = compare_steps(
        state,
        builder,
        Predicate::Equal,
        masked,
        Operand::Word(FIXNUM_TAG as u64),
    );
    trap_if_false_steps(state, builder, function, is_fixnum)
}

/// The integer of a fixnum word.
#[verifier::opaque]
pub open spec fn decode_fixnum_steps(state: State, builder: usize, word: Operand) -> (State, Operand) {
    binary_steps(state, builder, BinaryOp::SignedShiftRight, word, Operand::Word(FIXNUM_SHIFT as u64))
}

/// The integer of a word that must be a fixnum.
#[verifier::opaque]
pub open spec fn fixnum_operand_steps(state: State, builder: usize, function: FunctionRef, word: Operand) -> (State, Operand) {
    decode_fixnum_steps(ensure_fixnum_steps(state, builder, function, word), builder, word)
}

/// The word of an integer.
#[verifier::opaque]
pub open spec fn encode_fixnum_value_steps(state: State, builder: usize, value: Operand) -> (State, Operand) {
    let (state, shifted) = binary_steps(
        state,
        builder,
        BinaryOp::ShiftLeft,
        value,
        Operand::Word(FIXNUM_SHIFT as u64),
    );
    binary_steps(state, builder, BinaryOp::Or, shifted, Operand::Word(FIXNUM_TAG as u64))
}

/// The word of a condition.
#[verifier::opaque]
pub open spec fn tagged_bool_steps(state: State, builder: usize, condition: Operand) -> (State, Operand) {
    value_steps(
        state,
        Op::Select { builder, condition, on_true: bool_word(true), on_false: bool_word(false) },
    )
}

/// Whether a word is a character.
#[verifier::opaque]
pub open spec fn is_char_steps(state: State, builder: usize, word: Operand) -> (State, Operand) {
    let (state, masked) = binary_steps(
        state,
        builder,
        BinaryOp::And,
        word,
        Operand::Word(IMMEDIATE_TAG_MASK as u64),
    );
    compare_steps(state, builder, Predicate::Equal, masked, Operand::Word(CHAR_TAG as u64))
}

/// The scalar value of a word that must be a character.
#[verifier::opaque]
pub open spec fn char_operand_steps(state: State, builder: usize, function: FunctionRef, word: Operand) -> (State, Operand) {
    let (state, is_char) = is_char_steps(state, builder, word);
    let state = trap_if_false_steps(state, builder, function, is_char);
    binary_steps(state, builder, BinaryOp::ShiftRight, word, Operand::Word(CHAR_SHIFT as u64))
}

/// The message for something that is no word where a word is needed.
pub open spec fn no_word_message(value: Val, context: Seq<char>) -> Seq<char> {
    match value {
        Val::Word(_) => Seq::empty(),
        Val::RootedWord { slot } => context
            + " expected a Scheme word, but a rooted stack value was produced"@,
        Val::MutableBox { ptr } => context
            + " expected a Scheme word, but a mutable binding cell was produced"@,
        Val::HeapObject { ptr, kind } => context + " expected a Scheme word, but a "@ + heap_kind_text(kind)
            + " heap reference was produced"@,
        Val::Function(_) => context + " expected a Scheme word, but a function was produced"@,
        Val::Closure { ptr, signature } => context + " expected a Scheme word, but a function was produced"@,
    }
}

/// The word that an expression left, or the message where it left something else.
pub open spec fn word_of(value: Val, context: Seq<char>) -> Result<Operand, Seq<char>> {
    match value {
        Val::Word(word) => Ok(word),
        _ => Err(no_word_message(value, context)),
    }
}

/// The word that an expression left.
pub fn expect_word(value: &CodegenValue, context: &str) -> (result: Result<Operand, CompileError>)
    ensures
        match result {
            Ok(word) => word_of(value@, context@) == Ok::<Operand, Seq<char>>(word),
            Err(CompileError::Codegen(message)) => word_of(value@, context@) == Err::<Operand, Seq<char>>(message@),
            Err(_) => false,
        },
{
    match value {
        CodegenValue::Word(word) => Ok(*word),
        CodegenValue::RootedWord { slot: _ } => fail_with(
            join(context, " expected a Scheme word, but a rooted stack value was produced"),
        ),
        CodegenValue::MutableBox { ptr: _ } => fail_with(
            join(context, " expected a Scheme word, but a mutable binding cell was produced"),
        ),
        CodegenValue::HeapObject { ptr: _, kind } => {
            let start = join3(context, " expected a Scheme word, but a ", heap_kind_name(*kind));
            fail_with(join(start.as_str(), " heap reference was produced"))
        },
        CodegenValue::Function(_) => fail_with(
            join(context, " expected a Scheme word, but a function was produced"),
        ),
        CodegenValue::Closure { ptr: _, signature: _ } => fail_with(
            join(context, " expected a Scheme word, but a function was produced"),
        ),
    }
}

/// The reference that an expression left, or the message where it left something else than a
/// reference to an object of the expected kind.
pub open spec fn heap_object_of(value: Val, expected: HeapValueKind, context: Seq<char>) -> Result<Operand, Seq<char>> {
    let start = context + " expected a "@ + heap_kind_text(expected);
    match value {
        Val::HeapObject { ptr, kind } => if kind == expected {
            Ok(ptr)
        } else {
            Err(start + " heap reference, but a "@ + heap_kind_text(kind) + " heap reference was produced"@)
        },
        Val::Word(_) => Err(start + " heap reference, but a Scheme word was produced"@),
        Val::RootedWord { slot } => Err(start + " heap reference, but a Scheme word was produced"@),
        Val::MutableBox { ptr } => Err(start + " heap reference, but a mutable binding cell was produced"@),
        Val::Function(_) => Err(start + " heap reference, but a function was produced"@),
        Val::Closure { ptr, signature } => Err(start + " heap reference, but a function was produced"@),
    }
}

/// The reference that an expression left.
pub fn expect_heap_object(value: &CodegenValue, expected_kind: HeapValueKind, context: &str) -> (result: Result<
    Operand,
    CompileError,
>)
    ensures
        match result {
            Ok(ptr) => heap_object_of(value@, expected_kind, context@) == Ok::<Operand, Seq<char>>(ptr),
            Err(CompileError::Codegen(message)) => heap_object_of(value@, expected_kind, context@) == Err::<
                Operand,
                Seq<char>,
            >(message@),
            Err(_) => false,
        },
{
    let start = join3(context, " expected a ", heap_kind_name(expected_kind));
    match value {
        CodegenValue::HeapObject { ptr, kind } => {
            if *kind == expected_kind {
                Ok(*ptr)
            } else {
                let middle = join3(start.as_str(), " heap reference, but a ", heap_kind_name(*kind));
                fail_with(join(middle.as_str(), " heap reference was produced"))
            }
        },
        CodegenValue::Word(_) => fail_with(
            join(start.as_str(), " heap reference, but a Scheme word was produced"),
        ),
        CodegenValue::RootedWord { slot: _ } => fail_with(
            join(start.as_str(), " heap reference, but a Scheme word was produced"),
        ),
        CodegenValue::MutableBox { ptr: _ } => fail_with(
            join(start.as_str(), " heap reference, but a mutable binding cell was produced"),
        ),
        CodegenValue::Function(_) => fail_with(
            join(start.as_str(), " heap reference, but a function was produced"),
        ),
        CodegenValue::Closure { ptr: _, signature: _ } => fail_with(
            join(start.as_str(), " heap reference, but a function was produced"),
        ),
    }
}

/// Turns what an expression left into an argument of the given kind.
#[verifier::opaque]
pub open spec fn convert_argument_value_steps(
    state: State,
    builder: usize,
    value: Val,
    kind: AbiValueKind,
    context: Seq<char>,
) -> Outcome<Argument> {
    match kind {
        AbiValueKind::Word => {
            let (state, word) = value_to_word_steps(state, builder, value);
            Ok((state, Argument::Int(word)))
        },
        AbiValueKind::Heap(heap_kind) => match heap_object_of(value, heap_kind, context) {
            Ok(ptr) => Ok((state, Argument::Pointer(ptr))),
            Err(message) => Err(message),
        },
    }
}

/// Takes a word as a value of the given kind.
#[verifier::opaque]
pub open spec fn word_to_codegen_value_steps(state: State, builder: usize, word: Operand, kind: AbiValueKind) -> (State, Val) {
    match kind {
        AbiValueKind::Word => (state, Val::Word(word)),
        AbiValueKind::Heap(heap_kind) => {
            let (state, ptr) = value_steps(state, Op::IntToPtr { builder, value: word });
            (state, Val::HeapObject { ptr, kind: heap_kind })
        },
    }
}

/// Reads an element of a list.
#[verifier::opaque]
pub open spec fn load_list_element_steps(state: State, builder: usize, list: Operand, index: usize, kind: AbiValueKind) -> (State, Val) {
    let (state, word) = call_steps(
        state,
        builder,
        RuntimeFunction::ListRef,
        seq![list, Operand::Word(index as u64)],
    );
    word_to_codegen_value_steps(state, builder, word, kind)
}

/// Reads one of several values.
#[verifier::opaque]
pub open spec fn load_values_element_steps(state: State, builder: usize, values: Operand, index: usize, kind: AbiValueKind) -> (State, Val) {
    let (state, word) = call_steps(
        state,
        builder,
        RuntimeFunction::ValuesRef,
        seq![values, Operand::Word(index as u64)],
    );
    word_to_codegen_value_steps(state, builder, word, kind)
}

/// What is left of a list after a number of elements.
#[verifier::opaque]
pub open spec fn list_tail_word_steps(state: State, builder: usize, list: Operand, index: usize) -> (State, Operand) {
    call_steps(state, builder, RuntimeFunction::ListTail, seq![list, Operand::Word(index as u64)])
}

/// Traps where the length of a list or of several values is not as it must be.
#[verifier::opaque]
pub open spec fn check_length_steps(
    state: State,
    builder: usize,
    function: FunctionRef,
    length_of: RuntimeFunction,
    list: Operand,
    predicate: Predicate,
    expected: usize,
) -> State {
    let (state, length) = call_steps(state, builder, length_of, seq![list]);
    let (state, decoded) = fixnum_operand_steps(state, builder, function, length);
    let (state, holds) = compare_steps(state, builder, predicate, decoded, Operand::Word(expected as u64));
    trap_if_false_steps(state, builder, function, holds)
}

/// Where an exception is pending, branches to the block that takes over.
#[verifier::opaque]
pub open spec fn branch_on_pending_exception_steps(state: State, builder: usize, function: FunctionRef) -> State {
    if state.targets.len() == 0 {
        state
    } else {
        let target = state.targets.last();
        let (state, pending) = call_steps(state, builder, RuntimeFunction::RtExceptionPending, Seq::empty());
        let (state, cont) = block_steps(state, function);
        let state = branch_if(state, builder, pending, target, cont);
        position(state, builder, cont)
    }
}

/// The code and the procedure object with which a procedure is entered, and its signature.
#[verifier::opaque]
pub open spec fn scheme_callable_parts_steps(state: State, builder: usize, callee: Val) -> Outcome<(Operand, Operand, Signature)> {
    match callee {
        Val::Function(info) => {
            let (state, code_ptr) = value_steps(
                state,
                Op::PtrToInt { builder, value: Operand::Address(FunctionRef::Defined(info.wrapper)) },
            );
            Ok((state, (code_ptr, Operand::Word(0), info.signature)))
        },
        Val::Closure { ptr, signature } => {
            let (state, code_ptr) = load_closure_code_ptr_steps(state, builder, ptr);
            let (state, closure_word) = value_steps(state, Op::PtrToInt { builder, value: ptr });
            Ok((state, (code_ptr, closure_word, signature)))
        },
        _ => Err("call target expected a function value, but a non-function was produced"@),
    }
}

/// Calls a procedure with a list of arguments and runs the tail calls that it asks for.
#[verifier::opaque]
pub open spec fn emit_trampoline_call_steps(
    state: State,
    builder: usize,
    callee: Val,
    signature: Signature,
    args_list: Operand,
) -> Outcome<Val> {
    match scheme_callable_parts_steps(state, builder, callee) {
        Err(message) => Err(message),
        Ok((state, (code_ptr, closure_word, callee_signature))) => if callee_signature != signature {
            Err("mismatched callable signature during trampoline call"@)
        } else {
            let (state, word) = call_steps(
                state,
                builder,
                RuntimeFunction::RtTrampolineApply,
                seq![code_ptr, closure_word, args_list],
            );
            Ok(word_to_codegen_value_steps(state, builder, word, signature.return_kind))
        },
    }
}

/// Calls a procedure with compiled arguments.
#[verifier::opaque]
pub open spec fn emit_callable_call_steps(
    state: State,
    builder: usize,
    callee: Val,
    signature: Signature,
    args: Seq<Argument>,
) -> Outcome<Val> {
    match build_scheme_args_list_steps(state, builder, signature, args) {
        Err(message) => Err(message),
        Ok((state, args_list)) => emit_trampoline_call_steps(state, builder, callee, signature, args_list),
    }
}

/// Keeps a procedure reachable.
#[verifier::opaque]
pub open spec fn root_callable_value_steps(state: State, builder: usize, callee: Val) -> Outcome<RootedVal> {
    match callee {
        Val::Function(info) => Ok((state, RootedVal::Function(info))),
        Val::Closure { ptr, signature } => {
            let (state, word) = value_steps(state, Op::PtrToInt { builder, value: ptr });
            let (state, slot) = root_word_steps(state, builder, word);
            Ok((state, RootedVal::Closure { slot, signature }))
        },
        _ => Err("expected a callable value"@),
    }
}

/// Calls a procedure that was kept reachable.
#[verifier::opaque]
pub open spec fn emit_rooted_callable_call_steps(
    state: State,
    builder: usize,
    callee: RootedVal,
    signature: Signature,
    args: Seq<Argument>,
) -> Outcome<Val> {
    match callee {
        RootedVal::Function(info) => emit_callable_call_steps(state, builder, Val::Function(info), signature, args),
        RootedVal::Closure { slot, signature } => {
            let (state, word) = load_rooted_word_steps(state, builder, slot);
            let (state, ptr) = value_steps(state, Op::IntToPtr { builder, value: word });
            emit_callable_call_steps(state, builder, Val::Closure { ptr, signature }, signature, args)
        },
    }
}

/// Asks the caller to call a procedure in place of the current one, and returns.
#[verifier::opaque]
pub open spec fn emit_tail_request_steps(
    state: State,
    builder: usize,
    return_kind: AbiValueKind,
    callee: Val,
    signature: Signature,
    args_list: Operand,
    cleanup_roots: nat,
) -> Outcome<()> {
    match scheme_callable_parts_steps(state, builder, callee) {
        Err(message) => Err(message),
        Ok((state, (code_ptr, closure_word, callee_signature))) => if callee_signature != signature {
            Err("mismatched callable signature during tail request"@)
        } else {
            let state = pop_root_slots_steps(state, builder, cleanup_roots);
            let (state, invoked) = call_steps(
                state,
                builder,
                RuntimeFunction::RtTailInvoke,
                seq![code_ptr, closure_word, args_list],
            );
            match return_kind {
                AbiValueKind::Word => {
                    let (state, marker) = call_steps(
                        state,
                        builder,
                        RuntimeFunction::RtTailCallMarker,
                        Seq::empty(),
                    );
                    Ok((give_back(state, builder, marker), ()))
                },
                AbiValueKind::Heap(_) => Ok((give_back(state, builder, Operand::NullGc), ())),
            }
        },
    }
}

/// Returns a value after the collector has forgotten the slots of the frame.
#[verifier::opaque]
pub open spec fn tail_return_value_steps(
    state: State,
    builder: usize,
    cleanup_roots: nat,
    return_kind: AbiValueKind,
    value: Val,
) -> Outcome<()> {
    match return_kind {
        AbiValueKind::Word => {
            let (state, word) = value_to_word_steps(state, builder, value);
            let state = pop_root_slots_steps(state, builder, cleanup_roots);
            Ok((give_back(state, builder, word), ()))
        },
        AbiValueKind::Heap(kind) => match heap_object_of(value, kind, "tail.return"@) {
            Err(message) => Err(message),
            Ok(ptr) => {
                let state = pop_root_slots_steps(state, builder, cleanup_roots);
                Ok((give_back(state, builder, ptr), ()))
            },
        },
    }
}

/// Fills the block that a function is left by when an exception is pending.
#[verifier::opaque]
pub open spec fn emit_exception_return_block_steps(
    state: State,
    exception_block: usize,
    return_kind: AbiValueKind,
    rooted_slots: nat,
) -> State {
    let (created, builder) = emit_steps(state, Op::CreateBuilder);
    if is_filled(created.trace, exception_block) {
        created
    } else {
        let state = position(created, builder, exception_block);
        let state = pop_root_slots_steps(state, builder, rooted_slots);
        match return_kind {
            AbiValueKind::Word => give_back(state, builder, unspecified_word()),
            AbiValueKind::Heap(_) => give_back(state, builder, Operand::NullGc),
        }
    }
}

/// Takes a value as something to call with a number of arguments.
#[verifier::opaque]
pub open spec fn resolve_callable_value_steps(state: State, builder: usize, value: Val, arg_count: nat) -> Outcome<(Val, Signature)> {
    match value {
        Val::Function(info) => Ok((state, (Val::Function(info), info.signature))),
        Val::Closure { ptr, signature } => Ok((state, (Val::Closure { ptr, signature }, signature))),
        Val::Word(word) => {
            let signature = words_signature(arg_count, false);
            let (state, ptr) = value_steps(state, Op::IntToPtr { builder, value: word });
            Ok((state, (Val::Closure { ptr, signature }, signature)))
        },
        Val::RootedWord { slot } => {
            let signature = words_signature(arg_count, false);
            let (state, word) = load_rooted_word_steps(state, builder, slot);
            let (state, ptr) = value_steps(state, Op::IntToPtr { builder, value: word });
            Ok((state, (Val::Closure { ptr, signature }, signature)))
        },
        _ => Err("call target expected a function value, but a non-function was produced"@),
    }
}

/// Joins what two branches left.
#[verifier::opaque]
pub open spec fn merge_branch_values_steps(
    state: State,
    builder: usize,
    then_value: Val,
    then_block: usize,
    else_value: Val,
    else_block: usize,
) -> Outcome<Val> {
    match (then_value, else_value) {
        (Val::Word(first), Val::Word(second)) => {
            let (state, word) = phi_steps(state, builder, IrType::Word, first, then_block, second, else_block);
            Ok((state, Val::Word(word)))
        },
        (Val::RootedWord { slot }, _) => Err("if branches cannot currently merge rooted stack values"@),
        (_, Val::RootedWord { slot }) => Err("if branches cannot currently merge rooted stack values"@),
        (Val::Function(_), _) => Err("if branches cannot currently merge function values"@),
        (_, Val::Function(_)) => Err("if branches cannot currently merge function values"@),
        (Val::HeapObject { ptr: first, kind: then_kind }, Val::HeapObject { ptr: second, kind: else_kind }) =>
            if then_kind == else_kind {
                let (state, ptr) = phi_steps(state, builder, IrType::Gc, first, then_block, second, else_block);
                Ok((state, Val::HeapObject { ptr, kind: then_kind }))
            } else {
                Err("if branches must produce the same kind of value"@)
            },
        (Val::MutableBox { ptr: first }, Val::MutableBox { ptr: second }) => {
            let (state, ptr) = phi_steps(state, builder, IrType::Gc, first, then_block, second, else_block);
            Ok((state, Val::MutableBox { ptr }))
        },
        (
            Val::Closure { ptr: first, signature: then_signature },
            Val::Closure { ptr: second, signature: else_signature },
        ) => if then_signature == else_signature {
            let (state, ptr) = phi_steps(state, builder, IrType::Gc, first, then_block, second, else_block);
            Ok((state, Val::Closure { ptr, signature: then_signature }))
        } else {
            Err("if branches must produce the same kind of value"@)
        },
        _ => Err("if branches must produce the same kind of value"@),
    }
}

/// The value that comes from whichever of two blocks ran.
#[verifier::opaque]
pub open spec fn phi_steps(
    state: State,
    builder: usize,
    ty: IrType,
    first: Operand,
    first_block: usize,
    second: Operand,
    second_block: usize,
) -> (State, Operand) {
    value_steps(state, Op::Phi { builder, ty, first, first_block, second, second_block })
}

/// Whether two heap pointers are the same.
#[verifier::opaque]
pub open spec fn compare_gc_pointers_steps(state: State, builder: usize, left: Operand, right: Operand) -> (State, Operand) {
    let (state, left_int) = value_steps(state, Op::PtrToInt { builder, value: left });
    let (state, right_int) = value_steps(state, Op::PtrToInt { builder, value: right });
    compare_steps(state, builder, Predicate::Equal, left_int, right_int)
}

/// Whether two values are the same object.
#[verifier::opaque]
pub open spec fn compare_codegen_values_steps(state: State, builder: usize, left: Val, right: Val) -> (State, Operand) {
    match (left, right) {
        (Val::Word(first), Val::Word(second)) => compare_steps(state, builder, Predicate::Equal, first, second),
        (Val::RootedWord { slot: first }, Val::RootedWord { slot: second }) => {
            let (state, first_word) = load_rooted_word_steps(state, builder, first);
            let (state, second_word) = load_rooted_word_steps(state, builder, second);
            compare_steps(state, builder, Predicate::Equal, first_word, second_word)
        },
        (Val::HeapObject { ptr: first, kind: first_kind }, Val::HeapObject { ptr: second, kind: second_kind }) =>
            if first_kind != second_kind {
                (state, Operand::Bit(false))
            } else {
                compare_gc_pointers_steps(state, builder, first, second)
            },
        (Val::Closure { ptr: first, signature: _ }, Val::Closure { ptr: second, signature: _ }) =>
            compare_gc_pointers_steps(state, builder, first, second),
        (Val::MutableBox { ptr: first }, Val::MutableBox { ptr: second }) => compare_gc_pointers_steps(
            state,
            builder,
            first,
            second,
        ),
        _ => (state, Operand::Bit(false)),
    }
}

impl Compiler {
    fn load_element(&mut self, builder: usize, base: Operand, skip: usize, index: usize) -> (word: Operand)
        ensures
            (final(self)@, word) == load_element_steps(old(self)@, builder, base, skip, index),
            grows(old(self)@, final(self)@),
    {
        reveal(load_element_steps);
        let slot = self.emit_value(Op::ElementPointer { builder, base, skip, index });
        self.emit_value(Op::Load { builder, slot })
    }

    pub fn load_closure_code_ptr(&mut self, builder: usize, closure: Operand) -> (word: Operand)
        ensures
            (final(self)@, word) == load_closure_code_ptr_steps(old(self)@, builder, closure),
            grows(old(self)@, final(self)@),
    {
        reveal(load_closure_code_ptr_steps);
        self.load_element(builder, closure, 2, 0)
    }

    pub fn load_closure_env_word(&mut self, builder: usize, closure: Operand, index: usize) -> (word: Operand)
        ensures
            (final(self)@, word) == load_closure_env_word_steps(old(self)@, builder, closure, index),
            grows(old(self)@, final(self)@),
    {
        reveal(load_closure_env_word_steps);
        self.load_element(builder, closure, 4, index)
    }

    pub fn load_box_word(&mut self, builder: usize, cell: Operand) -> (word: Operand)
        ensures
            (final(self)@, word) == load_box_word_steps(old(self)@, builder, cell),
            grows(old(self)@, final(self)@),
    {
        reveal(load_box_word_steps);
        self.load_element(builder, cell, 2, 0)
    }

    pub fn load_rooted_word(&mut self, builder: usize, slot: Operand) -> (word: Operand)
        ensures
            (final(self)@, word) == load_rooted_word_steps(old(self)@, builder, slot),
            grows(old(self)@, final(self)@),
    {
        reveal(load_rooted_word_steps);
        self.emit_value(Op::Load { builder, slot })
    }

    /// Puts a word in a slot of the frame and tells the collector about the slot.
    pub fn root_word(&mut self, builder: usize, value: Operand) -> (slot: Operand)
        ensures
            (final(self)@, slot) == root_word_steps(old(self)@, builder, value),
            grows(old(self)@, final(self)@),
            final(self)@.trace.len() > old(self)@.trace.len(),
    {
        reveal(root_word_steps);
        let slot = self.emit_value(Op::Alloca { builder });
        let _ = self.emit(Op::Store { builder, slot, value });
        let raw = self.emit_value(Op::PointerCast { builder, value: slot });
        let _ = self.call1(builder, RuntimeFunction::RtRootSlotPush, raw);
        slot
    }

    /// Has the collector forget a number of slots.
    pub fn pop_root_slots(&mut self, builder: usize, count: usize)
        ensures
            final(self)@ == pop_root_slots_steps(old(self)@, builder, count as nat),
            grows(old(self)@, final(self)@),
    {
        reveal(pop_root_slots_steps);
        let mut index: usize = 0;
        while index < count
            invariant
                index <= count,
                self@ == pop_root_slots_steps(old(self)@, builder, index as nat),
                grows(old(self)@, self@),
            decreases count - index,
        {
            reveal(pop_root_slots_steps);
            let _ = self.call0(builder, RuntimeFunction::RtRootSlotPop);
            index = index + 1;
        }
    }

    /// Makes a procedure object whose captured words are yet to be set.
    pub fn allocate_placeholder_closure(
        &mut self,
        builder: usize,
        wrapper: usize,
        signature: &FunctionSignature,
        env_len: usize,
    ) -> (value: CodegenValue)
        ensures
            (final(self)@, value@) == allocate_placeholder_closure_steps(
                old(self)@,
                builder,
                wrapper,
                signature@,
                env_len,
            ),
            grows(old(self)@, final(self)@),
            value is Closure,
    {
        reveal(allocate_placeholder_closure_steps);
        let env_ptr = if env_len == 0 {
            Operand::NullRaw
        } else {
            let values = self.emit_value(Op::ArrayAlloca { builder, count: env_len });
            let ghost start = self@;
            reveal(fill_steps);
            let mut index: usize = 0;
            while index < env_len
                invariant
                    index <= env_len,
                    self@ == fill_steps(start, builder, values, index as nat),
                    grows(start, self@),
                decreases env_len - index,
            {
                reveal(fill_steps);
                let slot = self.emit_value(Op::ElementPointer { builder, base: values, skip: 0, index });
                let _ = self.emit(Op::Store { builder, slot, value: Operand::Word(UNSPECIFIED as u64) });
                index = index + 1;
            }
            self.emit_value(Op::PointerCast { builder, value: values })
        };
        let code_ptr = self.emit_value(
            Op::PtrToInt { builder, value: Operand::Address(FunctionRef::Defined(wrapper)) },
        );
        let closure = self.call3(
            builder,
            RuntimeFunction::AllocClosureGc,
            code_ptr,
            env_ptr,
            Operand::Word(env_len as u64),
        );
        CodegenValue::Closure { ptr: closure, signature: signature.duplicate() }
    }

    /// Turns what an expression left into a word.
    pub fn value_to_word(&mut self, builder: usize, value: &CodegenValue) -> (word: Operand)
        ensures
            (final(self)@, word) == value_to_word_steps(old(self)@, builder, value@),
            grows(old(self)@, final(self)@),
    {
        reveal(value_to_word_steps);
        match value {
            CodegenValue::Word(word) => *word,
            CodegenValue::RootedWord { slot } => self.load_rooted_word(builder, *slot),
            CodegenValue::MutableBox { ptr } => self.emit_value(Op::PtrToInt { builder, value: *ptr }),
            CodegenValue::HeapObject { ptr, kind: _ } => self.emit_value(Op::PtrToInt { builder, value: *ptr }),
            CodegenValue::Closure { ptr, signature: _ } => self.emit_value(Op::PtrToInt { builder, value: *ptr }),
            CodegenValue::Function(info) => {
                let closure = self.allocate_placeholder_closure(builder, info.wrapper, &info.signature, 0);
                let ptr = match closure {
                    CodegenValue::Closure { ptr, signature: _ } => ptr,
                    _ => Operand::NullGc,
                };
                self.emit_value(Op::PtrToInt { builder, value: ptr })
            },
        }
    }

    /// Moves a value into a heap cell.
    pub fn box_value(&mut self, builder: usize, value: &CodegenValue) -> (cell: CodegenValue)
        ensures
            (final(self)@, cell@) == box_value_steps(old(self)@, builder, value@),
            grows(old(self)@, final(self)@),
    {
        reveal(box_value_steps);
        let word = self.value_to_word(builder, value);
        let ptr = self.call1(builder, RuntimeFunction::AllocBoxGc, word);
        CodegenValue::MutableBox { ptr }
    }

    /// Makes a pair of two words that stay reachable meanwhile.
    pub fn alloc_pair_rooted(&mut self, builder: usize, car: Operand, cdr: Operand) -> (pair: Operand)
        ensures
            (final(self)@, pair) == alloc_pair_rooted_steps(old(self)@, builder, car, cdr),
            grows(old(self)@, final(self)@),
    {
        reveal(alloc_pair_rooted_steps);
        let car_slot = self.root_word(builder, car);
        let cdr_slot = self.root_word(builder, cdr);
        let car_word = self.load_rooted_word(builder, car_slot);
        let cdr_word = self.load_rooted_word(builder, cdr_slot);
        let pair = self.call2(builder, RuntimeFunction::AllocPairGc, car_word, cdr_word);
        self.pop_root_slots(builder, 2);
        pair
    }

    /// Makes a pair and turns the reference to it into a word.
    pub fn cons_word(&mut self, builder: usize, car: Operand, cdr: Operand) -> (word: Operand)
        ensures
            (final(self)@, word) == cons_word_steps(old(self)@, builder, car, cdr),
            grows(old(self)@, final(self)@),
    {
        reveal(cons_word_steps);
        let pair = self.alloc_pair_rooted(builder, car, cdr);
        self.emit_value(Op::PtrToInt { builder, value: pair })
    }

    /// Puts the first `count` of `words` in front of the list `tail`.
    pub fn build_prefixed_list_word(&mut self, builder: usize, words: &Vec<Operand>, count: usize, tail: Operand) -> (list: Operand)
        requires
            count <= words@.len(),
        ensures
            (final(self)@, list) == prefixed_list_steps(old(self)@, builder, words@, count as nat, tail),
            grows(old(self)@, final(self)@),
        decreases count,
    {
        reveal(prefixed_list_steps);
        if count == 0 {
            tail
        } else {
            let list = self.cons_word(builder, words[count - 1], tail);
            self.build_prefixed_list_word(builder, words, count - 1, list)
        }
    }

    /// The list of `words`.
    pub fn build_list_word_from_words(&mut self, builder: usize, words: &Vec<Operand>) -> (list: Operand)
        ensures
            (final(self)@, list) == list_of_words_steps(old(self)@, builder, words@),
            grows(old(self)@, final(self)@),
    {
        reveal(list_of_words_steps);
        self.build_prefixed_list_word(builder, words, words.len(), Operand::Word(EMPTY_LIST as u64))
    }

    /// Turns arguments into words.
    pub fn metadata_values_to_words(&mut self, builder: usize, values: &Vec<Argument>) -> (words: Vec<Operand>)
        ensures
            (final(self)@, words@) == argument_words_steps(old(self)@, builder, values@, values@.len()),
            grows(old(self)@, final(self)@),
            words@.len() == values@.len(),
    {
        reveal(argument_words_steps);
        let mut words: Vec<Operand> = Vec::new();
        let mut index: usize = 0;
        while index < values.len()
            invariant
                index <= values@.len(),
                words@.len() == index,
                (self@, words@) == argument_words_steps(old(self)@, builder, values@, index as nat),
                grows(old(self)@, self@),
            decreases values@.len() - index,
        {
            reveal(argument_words_steps);
            match values[index] {
                Argument::Int(word) => {
                    words.push(word);
                },
                Argument::Pointer(ptr) => {
                    let word = self.emit_value(Op::PtrToInt { builder, value: ptr });
                    words.push(word);
                },
            }
            index = index + 1;
        }
        words
    }

    /// The list of arguments under which a procedure is called.
    pub fn build_scheme_args_list(&mut self, builder: usize, signature: &FunctionSignature, values: &Vec<Argument>) -> (result: Result<
        Operand,
        CompileError,
    >)
        ensures
            agrees_plainly(
                result,
                old(self)@,
                final(self)@,
                build_scheme_args_list_steps(old(self)@, builder, signature@, values@),
            ),
    {
        reveal(build_scheme_args_list_steps);
        let words = self.metadata_values_to_words(builder, values);
        let required: usize = signature.required_param_kinds.len();
        if !signature.rest {
            if words.len() != required {
                let start = join3(
                    "non-variadic callable expected ",
                    decimal(required).as_str(),
                    " worker arguments but got ",
                );
                return fail_with(join(start.as_str(), decimal(words.len()).as_str()));
            }
            return Ok(self.build_list_word_from_words(builder, &words));
        }
        if required == usize::MAX || words.len() != required + 1 {
            let start = join3(
                "variadic callable expected ",
                decimal_wide(required as u128 + 1).as_str(),
                " worker arguments but got ",
            );
            return fail_with(join(start.as_str(), decimal(words.len()).as_str()));
        }
        let ghost before_lists = self@;
        proof {
            lemma_prefixed_list_prefix(
                before_lists,
                builder,
                words@,
                required as int,
                required as nat,
                words@[required as int],
            );
        }
        Ok(self.build_prefixed_list_word(builder, &words, required, words[required]))
    }

    /// Branches to a trap where a condition does not hold.
    pub fn trap_if_false(&mut self, builder: usize, function: FunctionRef, condition: Operand)
        ensures
            final(self)@ == trap_if_false_steps(old(self)@, builder, function, condition),
            grows(old(self)@, final(self)@),
    {
        reveal(trap_if_false_steps);
        let ok_block = self.append_block(function);
        let trap_block = self.append_block(function);
        self.build_conditional_branch(builder, condition, ok_block, trap_block);
        self.position_at_end(builder, trap_block);
        let none: Vec<Operand> = Vec::new();
        assert(none@ =~= Seq::<Operand>::empty());
        let _ = self.emit(Op::Call { builder, target: FunctionRef::Trap, args: none });
        let _ = self.emit(Op::Unreachable { builder });
        self.position_at_end(builder, ok_block);
    }

    /// Traps where a word is no fixnum.
    pub fn ensure_fixnum(&mut self, builder: usize, function: FunctionRef, word: Operand)
        ensures
            final(self)@ == ensure_fixnum_steps(old(self)@, builder, function, word),
            grows(old(self)@, final(self)@),
    {
        reveal(ensure_fixnum_steps);
        let masked = self.binary(builder, BinaryOp::And, word, Operand::Word(FIXNUM_TAG as u64));
        let is_fixnum = self.compare(builder, Predicate::Equal, masked, Operand::Word(FIXNUM_TAG as u64));
        self.trap_if_false(builder, function, is_fixnum);
    }

    pub fn decode_fixnum(&mut self, builder: usize, word: Operand) -> (value: Operand)
        ensures
            (final(self)@, value) == decode_fixnum_steps(old(self)@, builder, word),
            grows(old(self)@, final(self)@),
    {
        reveal(decode_fixnum_steps);
        self.binary(builder, BinaryOp::SignedShiftRight, word, Operand::Word(FIXNUM_SHIFT as u64))
    }

    /// The integer of a word that must be a fixnum.
    pub fn fixnum_operand(&mut self, builder: usize, function: FunctionRef, word: Operand) -> (value: Operand)
        ensures
            (final(self)@, value) == fixnum_operand_steps(old(self)@, builder, function, word),
            grows(old(self)@, final(self)@),
    {
        reveal(fixnum_operand_steps);
        self.ensure_fixnum(builder, function, word);
        self.decode_fixnum(builder, word)
    }

    pub fn encode_fixnum_value(&mut self, builder: usize, value: Operand) -> (word: Operand)
        ensures
            (final(self)@, word) == encode_fixnum_value_steps(old(self)@, builder, value),
            grows(old(self)@, final(self)@),
    {
        reveal(encode_fixnum_value_steps);
        let shifted = self.binary(builder, BinaryOp::ShiftLeft, value, Operand::Word(FIXNUM_SHIFT as u64));
        self.binary(builder, BinaryOp::Or, shifted, Operand::Word(FIXNUM_TAG as u64))
    }

    /// The word of a condition.
    pub fn tagged_bool(&mut self, builder: usize, condition: Operand) -> (word: Operand)
        ensures
            (final(self)@, word) == tagged_bool_steps(old(self)@, builder, condition),
            grows(old(self)@, final(self)@),
    {
        reveal(tagged_bool_steps);
        self.emit_value(
            Op::Select { builder, condition, on_true: const_bool(true), on_false: const_bool(false) },
        )
    }

    /// Whether a word is a character.
    pub fn is_char(&mut self, builder: usize, word: Operand) -> (condition: Operand)
        ensures
            (final(self)@, condition) == is_char_steps(old(self)@, builder, word),
            grows(old(self)@, final(self)@),
    {
        reveal(is_char_steps);
        let masked = self.binary(builder, BinaryOp::And, word, Operand::Word(IMMEDIATE_TAG_MASK as u64));
        self.compare(builder, Predicate::Equal, masked, Operand::Word(CHAR_TAG as u64))
    }

    /// The scalar value of a word that must be a character.
    pub fn char_operand(&mut self, builder: usize, function: FunctionRef, word: Operand) -> (value: Operand)
        ensures
            (final(self)@, value) == char_operand_steps(old(self)@, builder, function, word),
            grows(old(self)@, final(self)@),
    {
        reveal(char_operand_steps);
        let is_char = self.is_char(builder, word);
        self.trap_if_false(builder, function, is_char);
        self.binary(builder, BinaryOp::ShiftRight, word, Operand::Word(CHAR_SHIFT as u64))
    }

    /// Turns what an expression left into an argument of the given kind.
    pub fn convert_argument_value(&mut self, builder: usize, value: &CodegenValue, kind: AbiValueKind, context: &str) -> (result: Result<
        Argument,
        CompileError,
    >)
        ensures
            agrees_plainly(
                result,
                old(self)@,
                final(self)@,
                convert_argument_value_steps(old(self)@, builder, value@, kind, context@),
            ),
    {
        reveal(convert_argument_value_steps);
        match kind {
            AbiValueKind::Word => {
                let word = self.value_to_word(builder, value);
                Ok(Argument::Int(word))
            },
            AbiValueKind::Heap(heap_kind) => {
                let ptr = expect_heap_object(value, heap_kind, context)?;
                Ok(Argument::Pointer(ptr))
            },
        }
    }

    /// Takes a word as a value of the given kind.
    pub fn word_to_codegen_value(&mut self, builder: usize, word: Operand, kind: AbiValueKind) -> (value: CodegenValue)
        ensures
            (final(self)@, value@) == word_to_codegen_value_steps(old(self)@, builder, word, kind),
            grows(old(self)@, final(self)@),
    {
        reveal(word_to_codegen_value_steps);
        match kind {
            AbiValueKind::Word => CodegenValue::Word(word),
            AbiValueKind::Heap(heap_kind) => {
                let ptr = self.emit_value(Op::IntToPtr { builder, value: word });
                CodegenValue::HeapObject { ptr, kind: heap_kind }
            },
        }
    }

    /// Reads an element of a list.
    pub fn load_list_element(&mut self, builder: usize, list: Operand, index: usize, kind: AbiValueKind) -> (value: CodegenValue)
        ensures
            (final(self)@, value@) == load_list_element_steps(old(self)@, builder, list, index, kind),
            grows(old(self)@, final(self)@),
    {
        reveal(load_list_element_steps);
        let word = self.call2(builder, RuntimeFunction::ListRef, list, Operand::Word(index as u64));
        self.word_to_codegen_value(builder, word, kind)
    }

    /// Reads one of several values.
    pub fn load_values_element(&mut self, builder: usize, values: Operand, index: usize, kind: AbiValueKind) -> (value: CodegenValue)
        ensures
            (final(self)@, value@) == load_values_element_steps(old(self)@, builder, values, index, kind),
            grows(old(self)@, final(self)@),
    {
        reveal(load_values_element_steps);
        let word = self.call2(builder, RuntimeFunction::ValuesRef, values, Operand::Word(index as u64));
        self.word_to_codegen_value(builder, word, kind)
    }

    /// What is left of a list after a number of elements.
    pub fn list_tail_word(&mut self, builder: usize, list: Operand, index: usize) -> (word: Operand)
        ensures
            (final(self)@, word) == list_tail_word_steps(old(self)@, builder, list, index),
            grows(old(self)@, final(self)@),
    {
        reveal(list_tail_word_steps);
        self.call2(builder, RuntimeFunction::ListTail, list, Operand::Word(index as u64))
    }

    fn check_length(
        &mut self,
        builder: usize,
        function: FunctionRef,
        length_of: RuntimeFunction,
        list: Operand,
        predicate: Predicate,
        expected: usize,
    )
        ensures
            final(self)@ == check_length_steps(
                old(self)@,
                builder,
                function,
                length_of,
                list,
                predicate,
                expected,
            ),
            grows(old(self)@, final(self)@),
    {
        reveal(check_length_steps);
        let length = self.call1(builder, length_of, list);
        let decoded = self.fixnum_operand(builder, function, length);
        let holds = self.compare(builder, predicate, decoded, Operand::Word(expected as u64));
        self.trap_if_false(builder, function, holds);
    }

    /// Traps where a list is not of the expected length.
    pub fn assert_list_length(&mut self, builder: usize, function: FunctionRef, list: Operand, expected: usize)
        ensures
            final(self)@ == check_length_steps(
                old(self)@,
                builder,
                function,
                RuntimeFunction::ListLength,
                list,
                Predicate::Equal,
                expected,
            ),
            grows(old(self)@, final(self)@),
    {
        reveal(check_length_steps);
        self.check_length(builder, function, RuntimeFunction::ListLength, list, Predicate::Equal, expected);
    }

    /// Traps where a list is shorter than it must be.
    pub fn assert_list_length_at_least(&mut self, builder: usize, function: FunctionRef, list: Operand, minimum: usize)
        ensures
            final(self)@ == check_length_steps(
                old(self)@,
                builder,
                function,
                RuntimeFunction::ListLength,
                list,
                Predicate::UnsignedGreaterEqual,
                minimum,
            ),
            grows(old(self)@, final(self)@),
    {
        reveal(check_length_steps);
        self.check_length(
            builder,
            function,
            RuntimeFunction::ListLength,
            list,
            Predicate::UnsignedGreaterEqual,
            minimum,
        );
    }

    /// Traps where there are not as many values as expected.
    pub fn assert_values_length(&mut self, builder: usize, function: FunctionRef, values: Operand, expected: usize)
        ensures
            final(self)@ == check_length_steps(
                old(self)@,
                builder,
                function,
                RuntimeFunction::ValuesLength,
                values,
                Predicate::Equal,
                expected,
            ),
            grows(old(self)@, final(self)@),
    {
        reveal(check_length_steps);
        self.check_length(builder, function, RuntimeFunction::ValuesLength, values, Predicate::Equal, expected);
    }

    /// Traps where there are fewer values than there must be.
    pub fn assert_values_length_at_least(&mut self, builder: usize, function: FunctionRef, values: Operand, minimum: usize)
        ensures
            final(self)@ == check_length_steps(
                old(self)@,
                builder,
                function,
                RuntimeFunction::ValuesLength,
                values,
                Predicate::UnsignedGreaterEqual,
                minimum,
            ),
            grows(old(self)@, final(self)@),
    {
        reveal(check_length_steps);
        self.check_length(
            builder,
            function,
            RuntimeFunction::ValuesLength,
            values,
            Predicate::UnsignedGreaterEqual,
            minimum,
        );
    }

    /// Where an exception is pending, branches to the block that takes over.
    pub fn branch_on_pending_exception(&mut self, builder: usize, function: FunctionRef)
        ensures
            final(self)@ == branch_on_pending_exception_steps(old(self)@, builder, function),
            grows(old(self)@, final(self)@),
    {
        reveal(branch_on_pending_exception_steps);
        if self.exception_targets.len() == 0 {
            return;
        }
        let target: usize = self.exception_targets[self.exception_targets.len() - 1];
        let pending = self.call0(builder, RuntimeFunction::RtExceptionPending);
        let cont = self.append_block(function);
        self.build_conditional_branch(builder, pending, target, cont);
        self.position_at_end(builder, cont);
    }

    /// Calls a procedure with a list of arguments and runs the tail calls that it asks for.
    pub fn emit_trampoline_call(
        &mut self,
        builder: usize,
        callee_value: &CodegenValue,
        signature: &FunctionSignature,
        args_list: Operand,
    ) -> (result: Result<CodegenValue, CompileError>)
        ensures
            agrees_on(
                result,
                old(self)@,
                final(self)@,
                emit_trampoline_call_steps(old(self)@, builder, callee_value@, signature@, args_list),
            ),
    {
        reveal(emit_trampoline_call_steps);
        let (code_ptr, closure_word, callee_signature) = self.scheme_callable_parts(builder, callee_value)?;
        if !callee_signature.same(signature) {
            return fail("mismatched callable signature during trampoline call");
        }
        let word = self.call3(
            builder,
            RuntimeFunction::RtTrampolineApply,
            code_ptr,
            closure_word,
            args_list,
        );
        Ok(self.word_to_codegen_value(builder, word, signature.return_kind))
    }

    /// The code and the procedure object with which a procedure is entered, and its signature.
    pub fn scheme_callable_parts(&mut self, builder: usize, callee_value: &CodegenValue) -> (result: Result<
        (Operand, Operand, FunctionSignature),
        CompileError,
    >)
        ensures
            match result {
                Ok((code_ptr, closure_word, signature)) => scheme_callable_parts_steps(
                    old(self)@,
                    builder,
                    callee_value@,
                ) == Ok::<(State, (Operand, Operand, Signature)), Seq<char>>(
                    (final(self)@, (code_ptr, closure_word, signature@)),
                ) && grows(old(self)@, final(self)@),
                Err(CompileError::Codegen(message)) => scheme_callable_parts_steps(
                    old(self)@,
                    builder,
                    callee_value@,
                ) == Err::<(State, (Operand, Operand, Signature)), Seq<char>>(message@),
                Err(_) => false,
            },
    {
        reveal(scheme_callable_parts_steps);
        match callee_value {
            CodegenValue::Function(info) => {
                let code_ptr = self.emit_value(
                    Op::PtrToInt { builder, value: Operand::Address(FunctionRef::Defined(info.wrapper)) },
                );
                Ok((code_ptr, Operand::Word(0), info.signature.duplicate()))
            },
            CodegenValue::Closure { ptr, signature } => {
                let code_ptr = self.load_closure_code_ptr(builder, *ptr);
                let closure_word = self.emit_value(Op::PtrToInt { builder, value: *ptr });
                Ok((code_ptr, closure_word, signature.duplicate()))
            },
            _ => fail("call target expected a function value, but a non-function was produced"),
        }
    }

    /// Calls a procedure with compiled arguments.
    pub fn emit_callable_call(
        &mut self,
        builder: usize,
        callee_value: &CodegenValue,
        signature: &FunctionSignature,
        compiled_args: &Vec<Argument>,
    ) -> (result: Result<CodegenValue, CompileError>)
        ensures
            agrees_on(
                result,
                old(self)@,
                final(self)@,
                emit_callable_call_steps(old(self)@, builder, callee_value@, signature@, compiled_args@),
            ),
    {
        reveal(emit_callable_call_steps);
        let args_list = self.build_scheme_args_list(builder, signature, compiled_args)?;
        self.emit_trampoline_call(builder, callee_value, signature, args_list)
    }

    /// Keeps a procedure reachable.
    pub fn root_callable_value(&mut self, builder: usize, callee_value: &CodegenValue) -> (result: Result<
        RootedCallable,
        CompileError,
    >)
        ensures
            agrees_on(
                result,
                old(self)@,
                final(self)@,
                root_callable_value_steps(old(self)@, builder, callee_value@),
            ),
    {
        reveal(root_callable_value_steps);
        match callee_value {
            CodegenValue::Function(info) => Ok(RootedCallable::Function(info.duplicate())),
            CodegenValue::Closure { ptr, signature } => {
                let word = self.emit_value(Op::PtrToInt { builder, value: *ptr });
                let slot = self.root_word(builder, word);
                Ok(RootedCallable::Closure { slot, signature: signature.duplicate() })
            },
            _ => fail("expected a callable value"),
        }
    }

    /// Calls a procedure that was kept reachable.
    pub fn emit_rooted_callable_call(
        &mut self,
        builder: usize,
        callee_value: &RootedCallable,
        signature: &FunctionSignature,
        compiled_args: &Vec<Argument>,
    ) -> (result: Result<CodegenValue, CompileError>)
        ensures
            agrees_on(
                result,
                old(self)@,
                final(self)@,
                emit_rooted_callable_call_steps(
                    old(self)@,
                    builder,
                    callee_value@,
                    signature@,
                    compiled_args@,
                ),
            ),
    {
        reveal(emit_rooted_callable_call_steps);
        match callee_value {
            RootedCallable::Function(info) => {
                let callee = CodegenValue::Function(info.duplicate());
                self.emit_callable_call(builder, &callee, signature, compiled_args)
            },
            RootedCallable::Closure { slot, signature } => {
                let word = self.load_rooted_word(builder, *slot);
                let ptr = self.emit_value(Op::IntToPtr { builder, value: word });
                let callee = CodegenValue::Closure { ptr, signature: signature.duplicate() };
                self.emit_callable_call(builder, &callee, signature, compiled_args)
            },
        }
    }

    /// Asks the caller to call a procedure in place of the current one, and returns.
    pub fn emit_tail_request(
        &mut self,
        builder: usize,
        return_kind: AbiValueKind,
        callee_value: &CodegenValue,
        signature: &FunctionSignature,
        args_list: Operand,
        cleanup_roots: usize,
    ) -> (result: Result<(), CompileError>)
        ensures
            agrees_plainly(
                result,
                old(self)@,
                final(self)@,
                emit_tail_request_steps(
                    old(self)@,
                    builder,
                    return_kind,
                    callee_value@,
                    signature@,
                    args_list,
                    cleanup_roots as nat,
                ),
            ),
    {
        reveal(emit_tail_request_steps);
        let (code_ptr, closure_word, callee_signature) = self.scheme_callable_parts(builder, callee_value)?;
        if !callee_signature.same(signature) {
            return fail("mismatched callable signature during tail request");
        }
        self.pop_root_slots(builder, cleanup_roots);
        let _ = self.call3(builder, RuntimeFunction::RtTailInvoke, code_ptr, closure_word, args_list);
        match return_kind {
            AbiValueKind::Word => {
                let marker = self.call0(builder, RuntimeFunction::RtTailCallMarker);
                self.build_return(builder, marker);
            },
            AbiValueKind::Heap(_) => {
                self.build_return(builder, Operand::NullGc);
            },
        }
        Ok(())
    }

    /// Returns a value after the collector has forgotten the slots of the frame.
    pub fn tail_return_value(
        &mut self,
        builder: usize,
        cleanup_roots: usize,
        return_kind: AbiValueKind,
        value: &CodegenValue,
    ) -> (result: Result<(), CompileError>)
        ensures
            agrees_plainly(
                result,
                old(self)@,
                final(self)@,
                tail_return_value_steps(old(self)@, builder, cleanup_roots as nat, return_kind, value@),
            ),
    {
        reveal(tail_return_value_steps);
        match return_kind {
            AbiValueKind::Word => {
                let word = self.value_to_word(builder, value);
                self.pop_root_slots(builder, cleanup_roots);
                self.build_return(builder, word);
                Ok(())
            },
            AbiValueKind::Heap(kind) => {
                let ptr = expect_heap_object(value, kind, "tail.return")?;
                self.pop_root_slots(builder, cleanup_roots);
                self.build_return(builder, ptr);
                Ok(())
            },
        }
    }

    /// Fills the block that a function is left by when an exception is pending.
    pub fn emit_exception_return_block(&mut self, exception_block: usize, return_kind: AbiValueKind, rooted_slots: usize)
        ensures
            final(self)@ == emit_exception_return_block_steps(
                old(self)@,
                exception_block,
                return_kind,
                rooted_slots as nat,
            ),
            grows(old(self)@, final(self)@),
    {
        reveal(emit_exception_return_block_steps);
        let builder = self.emit(Op::CreateBuilder);
        if block_is_filled(&self.trace, exception_block) {
            return;
        }
        self.position_at_end(builder, exception_block);
        self.pop_root_slots(builder, rooted_slots);
        match return_kind {
            AbiValueKind::Word => {
                self.build_return(builder, Operand::Word(UNSPECIFIED as u64));
            },
            AbiValueKind::Heap(_) => {
                self.build_return(builder, Operand::NullGc);
            },
        }
    }

    /// Takes a value as something to call with a number of arguments.
    pub fn resolve_callable_value(&mut self, builder: usize, value: &CodegenValue, arg_count: usize) -> (result: Result<
        (CodegenValue, FunctionSignature),
        CompileError,
    >)
        ensures
            match result {
                Ok((callee, signature)) => resolve_callable_value_steps(
                    old(self)@,
                    builder,
                    value@,
                    arg_count as nat,
                ) == Ok::<(State, (Val, Signature)), Seq<char>>((final(self)@, (callee@, signature@))) && grows(
                    old(self)@,
                    final(self)@,
                ),
                Err(CompileError::Codegen(message)) => resolve_callable_value_steps(
                    old(self)@,
                    builder,
                    value@,
                    arg_count as nat,
                ) == Err::<(State, (Val, Signature)), Seq<char>>(message@),
                Err(_) => false,
            },
    {
        reveal(resolve_callable_value_steps);
        match value {
            CodegenValue::Function(info) => {
                let signature = info.signature.duplicate();
                Ok((CodegenValue::Function(info.duplicate()), signature))
            },
            CodegenValue::Closure { ptr, signature } => Ok(
                (
                    CodegenValue::Closure { ptr: *ptr, signature: signature.duplicate() },
                    signature.duplicate(),
                ),
            ),
            CodegenValue::Word(word) => {
                let signature = dynamic_callable_signature(arg_count);
                let ptr = self.emit_value(Op::IntToPtr { builder, value: *word });
                Ok((CodegenValue::Closure { ptr, signature: signature.duplicate() }, signature))
            },
            CodegenValue::RootedWord { slot } => {
                let signature = dynamic_callable_signature(arg_count);
                let word = self.load_rooted_word(builder, *slot);
                let ptr = self.emit_value(Op::IntToPtr { builder, value: word });
                Ok((CodegenValue::Closure { ptr, signature: signature.duplicate() }, signature))
            },
            _ => fail("call target expected a function value, but a non-function was produced"),
        }
    }

    fn phi(
        &mut self,
        builder: usize,
        ty: IrType,
        first: Operand,
        first_block: usize,
        second: Operand,
        second_block: usize,
    ) -> (value: Operand)
        ensures
            (final(self)@, value) == phi_steps(
                old(self)@,
                builder,
                ty,
                first,
                first_block,
                second,
                second_block,
            ),
            grows(old(self)@, final(self)@),
    {
        reveal(phi_steps);
        self.emit_value(Op::Phi { builder, ty, first, first_block, second, second_block })
    }

    /// The word that comes from whichever of two blocks ran.
    pub fn phi_word(&mut self, builder: usize, first: Operand, first_block: usize, second: Operand, second_block: usize) -> (value: Operand)
        ensures
            (final(self)@, value) == phi_steps(
                old(self)@,
                builder,
                IrType::Word,
                first,
                first_block,
                second,
                second_block,
            ),
            grows(old(self)@, final(self)@),
    {
        reveal(phi_steps);
        self.phi(builder, IrType::Word, first, first_block, second, second_block)
    }

    /// Joins what two branches left.
    pub fn merge_branch_values(
        &mut self,
        builder: usize,
        then_value: &CodegenValue,
        then_block: usize,
        else_value: &CodegenValue,
        else_block: usize,
    ) -> (result: Result<CodegenValue, CompileError>)
        ensures
            agrees_on(
                result,
                old(self)@,
                final(self)@,
                merge_branch_values_steps(
                    old(self)@,
                    builder,
                    then_value@,
                    then_block,
                    else_value@,
                    else_block,
                ),
            ),
    {
        reveal(merge_branch_values_steps);
        match (then_value, else_value) {
            (CodegenValue::Word(first), CodegenValue::Word(second)) => {
                let word = self.phi(builder, IrType::Word, *first, then_block, *second, else_block);
                Ok(CodegenValue::Word(word))
            },
            (CodegenValue::RootedWord { slot: _ }, _) => fail(
                "if branches cannot currently merge rooted stack values",
            ),
            (_, CodegenValue::RootedWord { slot: _ }) => fail(
                "if branches cannot currently merge rooted stack values",
            ),
            (CodegenValue::Function(_), _) => fail("if branches cannot currently merge function values"),
            (_, CodegenValue::Function(_)) => fail("if branches cannot currently merge function values"),
            (
                CodegenValue::HeapObject { ptr: first, kind: then_kind },
                CodegenValue::HeapObject { ptr: second, kind: else_kind },
            ) => {
                if *then_kind == *else_kind {
                    let ptr = self.phi(builder, IrType::Gc, *first, then_block, *second, else_block);
                    Ok(CodegenValue::HeapObject { ptr, kind: *then_kind })
                } else {
                    fail("if branches must produce the same kind of value")
                }
            },
            (CodegenValue::MutableBox { ptr: first }, CodegenValue::MutableBox { ptr: second }) => {
                let ptr = self.phi(builder, IrType::Gc, *first, then_block, *second, else_block);
                Ok(CodegenValue::MutableBox { ptr })
            },
            (
                CodegenValue::Closure { ptr: first, signature: then_signature },
                CodegenValue::Closure { ptr: second, signature: else_signature },
            ) => {
                if then_signature.same(else_signature) {
                    let ptr = self.phi(builder, IrType::Gc, *first, then_block, *second, else_block);
                    Ok(CodegenValue::Closure { ptr, signature: then_signature.duplicate() })
                } else {
                    fail("if branches must produce the same kind of value")
                }
            },
            _ => fail("if branches must produce the same kind of value"),
        }
    }

    fn compare_gc_pointers(&mut self, builder: usize, left: Operand, right: Operand) -> (condition: Operand)
        ensures
            (final(self)@, condition) == compare_gc_pointers_steps(old(self)@, builder, left, right),
            grows(old(self)@, final(self)@),
    {
        reveal(compare_gc_pointers_steps);
        let left_int = self.emit_value(Op::PtrToInt { builder, value: left });
        let right_int = self.emit_value(Op::PtrToInt { builder, value: right });
        self.compare(builder, Predicate::Equal, left_int, right_int)
    }

    /// Whether two values are the same object.
    pub fn compare_codegen_values(&mut self, builder: usize, left: &CodegenValue, right: &CodegenValue) -> (condition: Operand)
        ensures
            (final(self)@, condition) == compare_codegen_values_steps(old(self)@, builder, left@, right@),
            grows(old(self)@, final(self)@),
    {
        reveal(compare_codegen_values_steps);
        match (left, right) {
            (CodegenValue::Word(first), CodegenValue::Word(second)) => self.compare(
                builder,
                Predicate::Equal,
                *first,
                *second,
            ),
            (CodegenValue::RootedWord { slot: first }, CodegenValue::RootedWord { slot: second }) => {
                let first_word = self.load_rooted_word(builder, *first);
                let second_word = self.load_rooted_word(builder, *second);
                self.compare(builder, Predicate::Equal, first_word, second_word)
            },
            (
                CodegenValue::HeapObject { ptr: first, kind: first_kind },
                CodegenValue::HeapObject { ptr: second, kind: second_kind },
            ) => {
                if *first_kind != *second_kind {
                    Operand::Bit(false)
                } else {
                    self.compare_gc_pointers(builder, *first, *second)
                }
            },
            (
                CodegenValue::Closure { ptr: first, signature: _ },
                CodegenValue::Closure { ptr: second, signature: _ },
            ) => self.compare_gc_pointers(builder, *first, *second),
            (CodegenValue::MutableBox { ptr: first }, CodegenValue::MutableBox { ptr: second }) => {
                self.compare_gc_pointers(builder, *first, *second)
            },
            _ => Operand::Bit(false),
        }
    }
}

proof fn lemma_prefixed_list_prefix(state: State, builder: usize, words: Seq<Operand>, keep: int, count: nat, tail: Operand)
    requires
        count <= keep <= words.len(),
    ensures
        prefixed_list_steps(state, builder, words.subrange(0, keep), count, tail) == prefixed_list_steps(
            state,
            builder,
            words,
            count,
            tail,
        ),
    decreases count,
{
    reveal(prefixed_list_steps);
    if count > 0 {
        let (next, list) = cons_word_steps(state, builder, words[count - 1], tail);
        lemma_prefixed_list_prefix(next, builder, words, keep, (count - 1) as nat, list);
    }
}

} // verus!
