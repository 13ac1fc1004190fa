//! Code of calls of builtins.
use crate::backend::abi::RuntimeFunction;
use crate::backend::builtins::is_builtin_name;
use crate::backend::codegen::exprs::or_more_text;
use crate::backend::codegen::plan_builtins::{
    answer_steps, append_rest_steps, append_steps, apply_arguments_steps, apply_list_args_steps, apply_steps,
    binary_builtin_steps, binary_runtime_steps, boolean_predicate_steps, call_with_values_steps, chain_steps,
    char_comparison_steps, char_predicate, char_predicate_steps, char_to_integer_steps, chars_steps,
    compile_builtin_call_steps, compile_other_builtin_steps, cons_steps, consume_values_steps,
    copy_slots_steps, element_steps, error_steps, fold_steps, gc_stress_steps, integer_to_char_steps,
    integers_steps, is_binary, is_unary, iteration_args_steps, iteration_lists_steps, iteration_loop_steps,
    kind_predicate_steps, length_steps, list_iteration_steps, list_place_steps, list_predicate_steps,
    list_steps, not_steps, null_predicate_steps, numeric_builtin_steps, numeric_comparison_steps,
    numeric_predicate, one_argument_steps, packet_args_steps, packet_consumer_steps, pair_access_steps,
    pair_predicate_steps, pair_set_steps, pair_store_steps, pair_target_steps, procedure_predicate_steps, procedure_signature,
    reference_steps, rooted_args_steps, same_lengths_steps, search_function, single_consumer_steps,
    symbol_predicate_steps, two_arguments_steps, unary_builtin_steps, unary_runtime_steps, values_steps,
    vector_elements_steps, vector_set_steps, vector_store_steps, vector_steps, words_steps, zero_predicate_steps,
};
use crate::backend::codegen::state::{
    agrees_on, agrees_on_row, agrees_plainly, grows, Argument, CodegenValue, Compiler, RootedCallable, Scope,
    State, Val,
};
use crate::backend::codegen::values::{const_bool, expect_word, fail, fail_with};
use crate::backend::ir::{BinaryOp, FunctionRef, Op, Operand, Predicate};
use crate::backend::kinds::{AbiValueKind, FunctionSignature, HeapValueKind};
use crate::error::CompileError;
use crate::middle::hir::{Expr, ExprKind};
use crate::names::Duplicate;
use crate::runtime::layout::{CHAR_SHIFT, CHAR_TAG, EMPTY_LIST, UNSPECIFIED};
use crate::text::{decimal, join, join3, same};
use vstd::prelude::*;

verus! {

broadcast use {vstd::seq_lib::group_seq_properties, crate::backend::ir::group_continues};

/// How a numeric comparison compares.
fn predicate_of_comparison(callee: &str) -> (predicate: Predicate)
    ensures
        predicate == numeric_predicate(callee@),
{
    if same(callee, "=") {
        Predicate::Equal
    } else if same(callee, "<") {
        Predicate::SignedLess
    } else if same(callee, ">") {
        Predicate::SignedGreater
    } else if same(callee, "<=") {
        Predicate::SignedLessEqual
    } else {
        Predicate::SignedGreaterEqual
    }
}

/// How a comparison of characters compares.
fn predicate_of_char_comparison(callee: &str) -> (predicate: Predicate)
    ensures
        predicate == char_predicate(callee@),
{
    if same(callee, "char=?") {
        Predicate::Equal
    } else if same(callee, "char<?") {
        Predicate::UnsignedLess
    } else if same(callee, "char>?") {
        Predicate::UnsignedGreater
    } else if same(callee, "char<=?") {
        Predicate::UnsignedLessEqual
    } else {
        Predicate::UnsignedGreaterEqual
    }
}

/// The entry of the runtime that searches a list.
fn search_entry(name: &str) -> (function: RuntimeFunction)
    ensures
        function == search_function(name@),
{
    if same(name, "memq") {
        RuntimeFunction::Memq
    } else if same(name, "memv") {
        RuntimeFunction::Memv
    } else if same(name, "member") {
        RuntimeFunction::Member
    } else if same(name, "assq") {
        RuntimeFunction::Assq
    } else if same(name, "assv") {
        RuntimeFunction::Assv
    } else {
        RuntimeFunction::Assoc
    }
}

/// Whether a builtin takes exactly one argument.
fn takes_one_argument(name: &str) -> (unary: bool)
    ensures
        unary == is_unary(name@),
{
    reveal(is_unary);
    same(name, "not") || same(name, "boolean?") || same(name, "zero?") || same(name, "char?") || same(
        name,
        "char->integer",
    ) || same(name, "integer->char") || same(name, "symbol?") || same(name, "symbol->string") || same(
        name,
        "string->symbol",
    ) || same(name, "procedure?") || same(name, "raise") || same(name, "list-copy") || same(name, "reverse")
        || same(name, "car") || same(name, "cdr") || same(name, "pair?") || same(name, "list?") || same(
        name,
        "length",
    ) || same(name, "null?") || same(name, "string?") || same(name, "string-length") || same(name, "display")
        || same(name, "write") || same(name, "gc-stress") || same(name, "vector?") || same(name, "vector-length")
}

/// Whether a builtin takes exactly two arguments that are evaluated in their order.
fn takes_two_arguments(name: &str) -> (binary: bool)
    ensures
        binary == is_binary(name@),
{
    reveal(is_binary);
    same(name, "eq?") || same(name, "eqv?") || same(name, "equal?") || same(name, "list-tail") || same(
        name,
        "list-ref",
    ) || same(name, "string-ref") || same(name, "vector-ref") || same(name, "memq") || same(name, "memv")
        || same(name, "member") || same(name, "assq") || same(name, "assv") || same(name, "assoc")
}

/// The signature of a value that is a procedure.
fn signature_of_procedure(value: &CodegenValue) -> (signature: Option<FunctionSignature>)
    ensures
        match signature {
            Some(signature) => procedure_signature(value@) == Some(signature@),
            None => procedure_signature(value@) is None,
        },
{
    match value {
        CodegenValue::Function(info) => Some(info.signature.duplicate()),
        CodegenValue::Closure { ptr: _, signature } => Some(signature.duplicate()),
        _ => None,
    }
}

/// The reference that a value is, where it is known to refer to an object of the given kind.
fn known_pointer(value: &CodegenValue, expected: HeapValueKind) -> (pointer: Option<Operand>)
    ensures
        pointer == (match value@ {
            Val::HeapObject { ptr, kind } => if kind == expected {
                Some(ptr)
            } else {
                None
            },
            _ => None,
        }),
{
    match value {
        CodegenValue::HeapObject { ptr, kind } => {
            if *kind == expected {
                Some(*ptr)
            } else {
                None
            }
        },
        _ => None,
    }
}

/// Builtins whose arguments are there.
impl Compiler {
    /// The word of a condition that was found out.
    fn compile_answer(&mut self, builder: usize, condition: Operand) -> (result: Result<CodegenValue, CompileError>)
        ensures
            agrees_on(result, old(self)@, final(self)@, answer_steps(old(self)@, builder, condition)),
    {
        reveal(answer_steps);
        let word = self.tagged_bool(builder, condition);
        Ok(CodegenValue::Word(word))
    }

    pub fn compile_not(&mut self, builder: usize, value: &CodegenValue) -> (result: Result<CodegenValue, CompileError>)
        ensures
            agrees_on(result, old(self)@, final(self)@, not_steps(old(self)@, builder, value@)),
    {
        reveal(not_steps);
        match value {
            CodegenValue::HeapObject { ptr: _, kind: _ } => self.compile_answer(builder, Operand::Bit(false)),
            CodegenValue::Closure { ptr: _, signature: _ } => self.compile_answer(builder, Operand::Bit(false)),
            _ => {
                let word = expect_word(value, "not argument")?;
                let condition = self.compare(builder, Predicate::Equal, word, const_bool(false));
                self.compile_answer(builder, condition)
            },
        }
    }

    pub fn compile_boolean_predicate(&mut self, builder: usize, value: &CodegenValue) -> (result: Result<
        CodegenValue,
        CompileError,
    >)
        ensures
            agrees_on(result, old(self)@, final(self)@, boolean_predicate_steps(old(self)@, builder, value@)),
    {
        reveal(boolean_predicate_steps);
        match value {
            CodegenValue::Word(word) => {
                let is_false = self.compare(builder, Predicate::Equal, *word, const_bool(false));
                let is_true = self.compare(builder, Predicate::Equal, *word, const_bool(true));
                let condition = self.binary(builder, BinaryOp::Or, is_false, is_true);
                self.compile_answer(builder, condition)
            },
            _ => self.compile_answer(builder, Operand::Bit(false)),
        }
    }

    pub fn compile_zero_predicate(&mut self, builder: usize, function: FunctionRef, value: &CodegenValue) -> (result: Result<
        CodegenValue,
        CompileError,
    >)
        ensures
            agrees_on(
                result,
                old(self)@,
                final(self)@,
                zero_predicate_steps(old(self)@, builder, function, value@),
            ),
    {
        reveal(zero_predicate_steps);
        let word = expect_word(value, "zero? argument")?;
        let number = self.fixnum_operand(builder, function, word);
        let condition = self.compare(builder, Predicate::Equal, number, Operand::Word(0));
        self.compile_answer(builder, condition)
    }

    pub fn compile_char_predicate(&mut self, builder: usize, value: &CodegenValue) -> (result: Result<
        CodegenValue,
        CompileError,
    >)
        ensures
            agrees_on(result, old(self)@, final(self)@, char_predicate_steps(old(self)@, builder, value@)),
    {
        reveal(char_predicate_steps);
        let word = expect_word(value, "char? argument")?;
        let condition = self.is_char(builder, word);
        self.compile_answer(builder, condition)
    }

    pub fn compile_char_to_integer(&mut self, builder: usize, function: FunctionRef, value: &CodegenValue) -> (result: Result<
        CodegenValue,
        CompileError,
    >)
        ensures
            agrees_on(
                result,
                old(self)@,
                final(self)@,
                char_to_integer_steps(old(self)@, builder, function, value@),
            ),
    {
        reveal(char_to_integer_steps);
        let word = expect_word(value, "char->integer argument")?;
        let scalar = self.char_operand(builder, function, word);
        let result = self.encode_fixnum_value(builder, scalar);
        Ok(CodegenValue::Word(result))
    }

    pub fn compile_integer_to_char(&mut self, builder: usize, function: FunctionRef, value: &CodegenValue) -> (result: Result<
        CodegenValue,
        CompileError,
    >)
        ensures
            agrees_on(
                result,
                old(self)@,
                final(self)@,
                integer_to_char_steps(old(self)@, builder, function, value@),
            ),
    {
        reveal(integer_to_char_steps);
        let word = expect_word(value, "integer->char argument")?;
        let number = self.fixnum_operand(builder, function, word);
        let in_range = self.compare(builder, Predicate::UnsignedLessEqual, number, Operand::Word(0x10ffff));
        let lower = self.compare(builder, Predicate::UnsignedGreaterEqual, number, Operand::Word(0xd800));
        let upper = self.compare(builder, Predicate::UnsignedLessEqual, number, Operand::Word(0xdfff));
        let surrogate = self.binary(builder, BinaryOp::And, lower, upper);
        let no_surrogate = self.emit_value(Op::Not { builder, value: surrogate });
        let valid = self.binary(builder, BinaryOp::And, in_range, no_surrogate);
        self.trap_if_false(builder, function, valid);
        let shifted = self.binary(builder, BinaryOp::ShiftLeft, number, Operand::Word(CHAR_SHIFT as u64));
        let result = self.binary(builder, BinaryOp::Or, shifted, Operand::Word(CHAR_TAG as u64));
        Ok(CodegenValue::Word(result))
    }

    pub fn compile_symbol_predicate(&mut self, builder: usize, value: &CodegenValue) -> (result: Result<
        CodegenValue,
        CompileError,
    >)
        ensures
            agrees_on(result, old(self)@, final(self)@, symbol_predicate_steps(old(self)@, builder, value@)),
    {
        reveal(symbol_predicate_steps);
        match value {
            CodegenValue::HeapObject { ptr: _, kind } => self.compile_answer(
                builder,
                Operand::Bit(*kind == HeapValueKind::Symbol),
            ),
            CodegenValue::Word(word) => {
                let condition = self.call1(builder, RuntimeFunction::IsSymbol, *word);
                self.compile_answer(builder, condition)
            },
            _ => self.compile_answer(builder, Operand::Bit(false)),
        }
    }

    pub fn compile_procedure_predicate(&mut self, value: &CodegenValue) -> (result: Result<CodegenValue, CompileError>)
        ensures
            agrees_on(result, old(self)@, final(self)@, procedure_predicate_steps(old(self)@, value@)),
    {
        reveal(procedure_predicate_steps);
        match value {
            CodegenValue::Function(_) => Ok(CodegenValue::Word(const_bool(true))),
            CodegenValue::Closure { ptr: _, signature: _ } => Ok(CodegenValue::Word(const_bool(true))),
            _ => Ok(CodegenValue::Word(const_bool(false))),
        }
    }

    pub fn compile_pair_predicate(&mut self, builder: usize, value: &CodegenValue) -> (result: Result<
        CodegenValue,
        CompileError,
    >)
        ensures
            agrees_on(result, old(self)@, final(self)@, pair_predicate_steps(old(self)@, builder, value@)),
    {
        reveal(pair_predicate_steps);
        match value {
            CodegenValue::HeapObject { ptr: _, kind } => self.compile_answer(
                builder,
                Operand::Bit(*kind == HeapValueKind::Pair),
            ),
            _ => {
                let word = expect_word(value, "pair? argument")?;
                let condition = self.call1(builder, RuntimeFunction::IsPair, word);
                self.compile_answer(builder, condition)
            },
        }
    }

    pub fn compile_list_predicate(&mut self, builder: usize, value: &CodegenValue) -> (result: Result<
        CodegenValue,
        CompileError,
    >)
        ensures
            agrees_on(result, old(self)@, final(self)@, list_predicate_steps(old(self)@, builder, value@)),
    {
        reveal(list_predicate_steps);
        match value {
            CodegenValue::HeapObject { ptr: _, kind } => {
                if *kind == HeapValueKind::Pair {
                    let word = self.value_to_word(builder, value);
                    let condition = self.call1(builder, RuntimeFunction::IsList, word);
                    self.compile_answer(builder, condition)
                } else {
                    self.compile_answer(builder, Operand::Bit(false))
                }
            },
            CodegenValue::Closure { ptr: _, signature: _ } => self.compile_answer(builder, Operand::Bit(false)),
            _ => {
                let word = expect_word(value, "list? argument")?;
                let condition = self.call1(builder, RuntimeFunction::IsList, word);
                self.compile_answer(builder, condition)
            },
        }
    }

    pub fn compile_null_predicate(&mut self, builder: usize, value: &CodegenValue) -> (result: Result<
        CodegenValue,
        CompileError,
    >)
        ensures
            agrees_on(result, old(self)@, final(self)@, null_predicate_steps(old(self)@, builder, value@)),
    {
        reveal(null_predicate_steps);
        match value {
            CodegenValue::HeapObject { ptr: _, kind: _ } => self.compile_answer(builder, Operand::Bit(false)),
            _ => {
                let word = expect_word(value, "null? argument")?;
                let condition = self.compare(
                    builder,
                    Predicate::Equal,
                    word,
                    Operand::Word(EMPTY_LIST as u64),
                );
                self.compile_answer(builder, condition)
            },
        }
    }

    /// `string?` and `vector?`.
    fn compile_kind_predicate(&mut self, builder: usize, value: &CodegenValue, expected: HeapValueKind, test: RuntimeFunction) -> (result: Result<
        CodegenValue,
        CompileError,
    >)
        ensures
            agrees_on(
                result,
                old(self)@,
                final(self)@,
                kind_predicate_steps(old(self)@, builder, value@, expected, test),
            ),
    {
        reveal(kind_predicate_steps);
        match value {
            CodegenValue::HeapObject { ptr: _, kind } => self.compile_answer(
                builder,
                Operand::Bit(*kind == expected),
            ),
            _ => {
                let word = self.value_to_word(builder, value);
                let condition = self.call1(builder, test, word);
                self.compile_answer(builder, condition)
            },
        }
    }

    /// A builtin that hands its only argument to the runtime as a word.
    fn compile_unary_runtime(&mut self, builder: usize, value: &CodegenValue, target: RuntimeFunction) -> (result: Result<
        CodegenValue,
        CompileError,
    >)
        ensures
            agrees_on(result, old(self)@, final(self)@, unary_runtime_steps(old(self)@, builder, value@, target)),
    {
        reveal(unary_runtime_steps);
        let word = self.value_to_word(builder, value);
        let result = self.call1(builder, target, word);
        Ok(CodegenValue::Word(result))
    }

    /// `string-length` and `vector-length`.
    fn compile_length(
        &mut self,
        builder: usize,
        value: &CodegenValue,
        expected: HeapValueKind,
        by_pointer: RuntimeFunction,
        by_word: RuntimeFunction,
    ) -> (result: Result<CodegenValue, CompileError>)
        ensures
            agrees_on(
                result,
                old(self)@,
                final(self)@,
                length_steps(old(self)@, builder, value@, expected, by_pointer, by_word),
            ),
    {
        reveal(length_steps);
        match known_pointer(value, expected) {
            Some(ptr) => {
                let result = self.call1(builder, by_pointer, ptr);
                Ok(CodegenValue::Word(result))
            },
            None => self.compile_unary_runtime(builder, value, by_word),
        }
    }

    /// `car` and `cdr`.
    pub fn compile_pair_access(&mut self, builder: usize, value: &CodegenValue, car: bool) -> (result: Result<
        CodegenValue,
        CompileError,
    >)
        ensures
            agrees_on(result, old(self)@, final(self)@, pair_access_steps(old(self)@, builder, value@, car)),
    {
        reveal(pair_access_steps);
        let by_pointer = if car { RuntimeFunction::PairCarGc } else { RuntimeFunction::PairCdrGc };
        let by_word = if car { RuntimeFunction::PairCar } else { RuntimeFunction::PairCdr };
        let context = if car { "car argument" } else { "cdr argument" };
        match known_pointer(value, HeapValueKind::Pair) {
            Some(ptr) => {
                let result = self.call1(builder, by_pointer, ptr);
                Ok(CodegenValue::Word(result))
            },
            None => {
                let word = expect_word(value, context)?;
                let result = self.call1(builder, by_word, word);
                Ok(CodegenValue::Word(result))
            },
        }
    }

    /// Reads an element of a string or a vector.
    fn compile_element(
        &mut self,
        builder: usize,
        object: &CodegenValue,
        place: Operand,
        expected: HeapValueKind,
        by_pointer: RuntimeFunction,
        by_word: RuntimeFunction,
    ) -> (result: Operand)
        ensures
            (final(self)@, result) == element_steps(
                old(self)@,
                builder,
                object@,
                place,
                expected,
                by_pointer,
                by_word,
            ),
            grows(old(self)@, final(self)@),
    {
        reveal(element_steps);
        match known_pointer(object, expected) {
            Some(ptr) => self.call2(builder, by_pointer, ptr, place),
            None => {
                let word = self.value_to_word(builder, object);
                self.call2(builder, by_word, word, place)
            },
        }
    }

    /// `string-ref` and `vector-ref`.
    fn compile_reference(
        &mut self,
        builder: usize,
        function: FunctionRef,
        object: &CodegenValue,
        index: &CodegenValue,
        context: &str,
        expected: HeapValueKind,
        by_pointer: RuntimeFunction,
        by_word: RuntimeFunction,
    ) -> (result: Result<CodegenValue, CompileError>)
        ensures
            agrees_on(
                result,
                old(self)@,
                final(self)@,
                reference_steps(
                    old(self)@,
                    builder,
                    function,
                    object@,
                    index@,
                    context@,
                    expected,
                    by_pointer,
                    by_word,
                ),
            ),
    {
        reveal(reference_steps);
        let index_word = expect_word(index, context)?;
        let place = self.fixnum_operand(builder, function, index_word);
        let result = self.compile_element(builder, object, place, expected, by_pointer, by_word);
        Ok(CodegenValue::Word(result))
    }

    /// `list-tail` and `list-ref`.
    fn compile_list_place(
        &mut self,
        builder: usize,
        function: FunctionRef,
        list: &CodegenValue,
        index: &CodegenValue,
        context: &str,
        target: RuntimeFunction,
    ) -> (result: Result<CodegenValue, CompileError>)
        ensures
            agrees_on(
                result,
                old(self)@,
                final(self)@,
                list_place_steps(old(self)@, builder, function, list@, index@, context@, target),
            ),
    {
        reveal(list_place_steps);
        let list_word = self.value_to_word(builder, list);
        let index_word = expect_word(index, context)?;
        let place = self.fixnum_operand(builder, function, index_word);
        let result = self.call2(builder, target, list_word, place);
        Ok(CodegenValue::Word(result))
    }

    /// A builtin that hands its two arguments to the runtime as words.
    fn compile_binary_runtime(&mut self, builder: usize, first: &CodegenValue, second: &CodegenValue, target: RuntimeFunction) -> (result: Operand)
        ensures
            (final(self)@, result) == binary_runtime_steps(old(self)@, builder, first@, second@, target),
            grows(old(self)@, final(self)@),
    {
        reveal(binary_runtime_steps);
        let first_word = self.value_to_word(builder, first);
        let second_word = self.value_to_word(builder, second);
        self.call2(builder, target, first_word, second_word)
    }

    pub fn compile_gc_stress(&mut self, builder: usize, function: FunctionRef, value: &CodegenValue) -> (result: Result<
        CodegenValue,
        CompileError,
    >)
        ensures
            agrees_on(result, old(self)@, final(self)@, gc_stress_steps(old(self)@, builder, function, value@)),
    {
        reveal(gc_stress_steps);
        let word = expect_word(value, "gc-stress iterations")?;
        let iterations = self.fixnum_operand(builder, function, word);
        let result = self.call1(builder, RuntimeFunction::GcStress, iterations);
        Ok(CodegenValue::Word(result))
    }

    /// What a builtin of one argument does with it.
    fn compile_unary_builtin(&mut self, builder: usize, function: FunctionRef, name: &str, value: &CodegenValue) -> (result: Result<
        CodegenValue,
        CompileError,
    >)
        ensures
            agrees_on(
                result,
                old(self)@,
                final(self)@,
                unary_builtin_steps(old(self)@, builder, function, name@, value@),
            ),
    {
        reveal(unary_builtin_steps);
        if same(name, "not") {
            self.compile_not(builder, value)
        } else if same(name, "boolean?") {
            self.compile_boolean_predicate(builder, value)
        } else if same(name, "zero?") {
            self.compile_zero_predicate(builder, function, value)
        } else if same(name, "char?") {
            self.compile_char_predicate(builder, value)
        } else if same(name, "char->integer") {
            self.compile_char_to_integer(builder, function, value)
        } else if same(name, "integer->char") {
            self.compile_integer_to_char(builder, function, value)
        } else if same(name, "symbol?") {
            self.compile_symbol_predicate(builder, value)
        } else if same(name, "symbol->string") {
            self.compile_unary_runtime(builder, value, RuntimeFunction::SymbolToString)
        } else if same(name, "string->symbol") {
            self.compile_unary_runtime(builder, value, RuntimeFunction::StringToSymbol)
        } else if same(name, "procedure?") {
            self.compile_procedure_predicate(value)
        } else if same(name, "raise") {
            self.compile_unary_runtime(builder, value, RuntimeFunction::RtRaise)
        } else if same(name, "list-copy") {
            self.compile_unary_runtime(builder, value, RuntimeFunction::ListCopy)
        } else if same(name, "reverse") {
            self.compile_unary_runtime(builder, value, RuntimeFunction::Reverse)
        } else if same(name, "car") {
            self.compile_pair_access(builder, value, true)
        } else if same(name, "cdr") {
            self.compile_pair_access(builder, value, false)
        } else if same(name, "pair?") {
            self.compile_pair_predicate(builder, value)
        } else if same(name, "list?") {
            self.compile_list_predicate(builder, value)
        } else if same(name, "length") {
            self.compile_unary_runtime(builder, value, RuntimeFunction::ListLength)
        } else if same(name, "null?") {
            self.compile_null_predicate(builder, value)
        } else if same(name, "string?") {
            self.compile_kind_predicate(builder, value, HeapValueKind::String, RuntimeFunction::IsString)
        } else if same(name, "string-length") {
            self.compile_length(
                builder,
                value,
                HeapValueKind::String,
                RuntimeFunction::StringLengthGc,
                RuntimeFunction::StringLength,
            )
        } else if same(name, "display") {
            self.compile_unary_runtime(builder, value, RuntimeFunction::Display)
        } else if same(name, "write") {
            self.compile_unary_runtime(builder, value, RuntimeFunction::Write)
        } else if same(name, "gc-stress") {
            self.compile_gc_stress(builder, function, value)
        } else if same(name, "vector?") {
            self.compile_kind_predicate(builder, value, HeapValueKind::Vector, RuntimeFunction::IsVector)
        } else {
            self.compile_length(
                builder,
                value,
                HeapValueKind::Vector,
                RuntimeFunction::VectorLengthGc,
                RuntimeFunction::VectorLength,
            )
        }
    }

    /// What a builtin of two arguments does with them.
    fn compile_binary_builtin(
        &mut self,
        builder: usize,
        function: FunctionRef,
        name: &str,
        first: &CodegenValue,
        second: &CodegenValue,
    ) -> (result: Result<CodegenValue, CompileError>)
        ensures
            agrees_on(
                result,
                old(self)@,
                final(self)@,
                binary_builtin_steps(old(self)@, builder, function, name@, first@, second@),
            ),
    {
        reveal(binary_builtin_steps);
        if same(name, "eq?") || same(name, "eqv?") {
            let condition = self.compare_codegen_values(builder, first, second);
            self.compile_answer(builder, condition)
        } else if same(name, "equal?") {
            let condition = self.compile_binary_runtime(builder, first, second, RuntimeFunction::Equal);
            self.compile_answer(builder, condition)
        } else if same(name, "list-tail") {
            self.compile_list_place(
                builder,
                function,
                first,
                second,
                "list-tail index argument",
                RuntimeFunction::ListTail,
            )
        } else if same(name, "list-ref") {
            self.compile_list_place(
                builder,
                function,
                first,
                second,
                "list-ref index argument",
                RuntimeFunction::ListRef,
            )
        } else if same(name, "string-ref") {
            self.compile_reference(
                builder,
                function,
                first,
                second,
                "string-ref index argument",
                HeapValueKind::String,
                RuntimeFunction::StringRefGc,
                RuntimeFunction::StringRef,
            )
        } else if same(name, "vector-ref") {
            self.compile_reference(
                builder,
                function,
                first,
                second,
                "vector-ref index argument",
                HeapValueKind::Vector,
                RuntimeFunction::VectorRefGc,
                RuntimeFunction::VectorRef,
            )
        } else {
            let result = self.compile_binary_runtime(builder, first, second, search_entry(name));
            Ok(CodegenValue::Word(result))
        }
    }

    /// `first` combined with the operands from `start` on, from left to right.
    fn fold_operands(&mut self, builder: usize, op: BinaryOp, first: Operand, operands: &Vec<Operand>, start: usize) -> (result: Operand)
        requires
            start <= operands@.len(),
        ensures
            (final(self)@, result) == fold_steps(
                old(self)@,
                builder,
                op,
                first,
                operands@,
                start as nat,
                operands@.len(),
            ),
            grows(old(self)@, final(self)@),
    {
        reveal(fold_steps);
        let mut result = first;
        let mut index: usize = start;
        while index < operands.len()
            invariant
                start <= index <= operands@.len(),
                (self@, result) == fold_steps(
                    old(self)@,
                    builder,
                    op,
                    first,
                    operands@,
                    start as nat,
                    index as nat,
                ),
                grows(old(self)@, self@),
            decreases operands@.len() - index,
        {
            reveal(fold_steps);
            result = self.binary(builder, op, result, operands[index]);
            index = index + 1;
        }
        result
    }

    /// Whether each operand compares with the next.
    fn chain_operands(&mut self, builder: usize, predicate: Predicate, operands: &Vec<Operand>) -> (condition: Operand)
        requires
            operands@.len() >= 1,
        ensures
            (final(self)@, condition) == chain_steps(
                old(self)@,
                builder,
                predicate,
                operands@,
                (operands@.len() - 1) as nat,
            ),
            grows(old(self)@, final(self)@),
    {
        reveal(chain_steps);
        let mut condition = Operand::Bit(true);
        let mut index: usize = 0;
        while index < operands.len() - 1
            invariant
                index < operands@.len(),
                (self@, condition) == chain_steps(old(self)@, builder, predicate, operands@, index as nat),
                grows(old(self)@, self@),
            decreases operands@.len() - index,
        {
            reveal(chain_steps);
            let next = self.compare(builder, predicate, operands[index], operands[index + 1]);
            condition = self.binary(builder, BinaryOp::And, condition, next);
            index = index + 1;
        }
        condition
    }

    /// Copies a row of rooted words into a row of words.
    fn copy_slots(&mut self, builder: usize, slots: &Vec<Operand>, elements: Operand)
        ensures
            final(self)@ == copy_slots_steps(old(self)@, builder, slots@, elements, slots@.len()),
            grows(old(self)@, final(self)@),
    {
        reveal(copy_slots_steps);
        let mut index: usize = 0;
        while index < slots.len()
            invariant
                index <= slots@.len(),
                self@ == copy_slots_steps(old(self)@, builder, slots@, elements, index as nat),
                grows(old(self)@, self@),
            decreases slots@.len() - index,
        {
            reveal(copy_slots_steps);
            let word = self.load_rooted_word(builder, slots[index]);
            let slot = self.emit_value(Op::ElementPointer { builder, base: elements, skip: 0, index });
            let _ = self.emit(Op::Store { builder, slot, value: word });
            index = index + 1;
        }
    }

    fn load_packet_args(&mut self, builder: usize, packet: Operand, kinds: &Vec<AbiValueKind>, count: usize) -> (result: Result<
        Vec<Argument>,
        CompileError,
    >)
        requires
            count <= kinds@.len(),
        ensures
            agrees_on_row(
                result,
                old(self)@,
                final(self)@,
                packet_args_steps(old(self)@, builder, packet, kinds@, count as nat),
            ),
        decreases count,
    {
        reveal(packet_args_steps);
        if count == 0 {
            let none: Vec<Argument> = Vec::new();
            assert(none@ =~= Seq::<Argument>::empty());
            return Ok(none);
        }
        let mut args = self.load_packet_args(builder, packet, kinds, count - 1)?;
        let value = self.load_values_element(builder, packet, count - 1, kinds[count - 1]);
        let argument = self.convert_argument_value(
            builder,
            &value,
            kinds[count - 1],
            "call-with-values packet arg",
        )?;
        args.push(argument);
        Ok(args)
    }

    /// Calls the consumer with several values.
    pub fn emit_call_with_values_packet_consumer(
        &mut self,
        builder: usize,
        function: FunctionRef,
        consumer: &RootedCallable,
        signature: &FunctionSignature,
        produced_slot: Operand,
    ) -> (result: Result<CodegenValue, CompileError>)
        ensures
            agrees_on(
                result,
                old(self)@,
                final(self)@,
                packet_consumer_steps(
                    old(self)@,
                    builder,
                    function,
                    consumer@,
                    signature@,
                    produced_slot,
                ),
            ),
    {
        reveal(packet_consumer_steps);
        let produced = self.load_rooted_word(builder, produced_slot);
        let required: usize = signature.required_param_kinds.len();
        if signature.rest {
            self.assert_values_length_at_least(builder, function, produced, required);
        } else {
            self.assert_values_length(builder, function, produced, required);
        }
        let mut args = self.load_packet_args(builder, produced, &signature.required_param_kinds, required)?;
        if signature.rest {
            let rest = self.call2(
                builder,
                RuntimeFunction::ValuesTailList,
                produced,
                Operand::Word(required as u64),
            );
            args.push(Argument::Int(rest));
        }
        self.emit_rooted_callable_call(builder, consumer, signature, &args)
    }

    /// Calls the consumer with a single value, where it can take one, and traps otherwise.
    pub fn emit_call_with_values_single_consumer(
        &mut self,
        builder: usize,
        consumer: &RootedCallable,
        signature: &FunctionSignature,
        produced_slot: Operand,
    ) -> (result: Result<Option<CodegenValue>, CompileError>)
        ensures
            match result {
                Ok(None) => single_consumer_steps(
                    old(self)@,
                    builder,
                    consumer@,
                    signature@,
                    produced_slot,
                ) == Ok::<(State, Option<Val>), Seq<char>>((final(self)@, None)) && grows(
                    old(self)@,
                    final(self)@,
                ),
                Ok(Some(value)) => single_consumer_steps(
                    old(self)@,
                    builder,
                    consumer@,
                    signature@,
                    produced_slot,
                ) == Ok::<(State, Option<Val>), Seq<char>>((final(self)@, Some(value@))) && grows(
                    old(self)@,
                    final(self)@,
                ),
                Err(CompileError::Codegen(message)) => single_consumer_steps(
                    old(self)@,
                    builder,
                    consumer@,
                    signature@,
                    produced_slot,
                ) == Err::<(State, Option<Val>), Seq<char>>(message@),
                Err(_) => false,
            },
    {
        reveal(single_consumer_steps);
        let required: usize = signature.required_param_kinds.len();
        if !(required <= 1 && (signature.rest || required == 1)) {
            let none: Vec<Operand> = Vec::new();
            assert(none@ =~= Seq::<Operand>::empty());
            let _ = self.emit(Op::Call { builder, target: FunctionRef::Trap, args: none });
            let _ = self.emit(Op::Unreachable { builder });
            return Ok(None);
        }
        let produced = self.load_rooted_word(builder, produced_slot);
        let mut args: Vec<Argument> = Vec::new();
        assert(args@ =~= Seq::<Argument>::empty());
        if required == 1 {
            let kind = signature.required_param_kinds[0];
            let coerced = self.word_to_codegen_value(builder, produced, kind);
            let argument = self.convert_argument_value(builder, &coerced, kind, "call-with-values single arg")?;
            args.push(argument);
            assert(args@ =~= seq![argument]);
        }
        if signature.rest {
            if required == 0 {
                let words: Vec<Operand> = vec![produced];
                assert(words@ =~= seq![produced]);
                let rest = self.build_list_word_from_words(builder, &words);
                args.push(Argument::Int(rest));
            } else {
                args.push(Argument::Int(Operand::Word(EMPTY_LIST as u64)));
            }
        }
        let value = self.emit_rooted_callable_call(builder, consumer, signature, &args)?;
        Ok(Some(value))
    }

    /// `call-with-values`, once its two arguments are there.
    fn consume_values(
        &mut self,
        builder: usize,
        function: FunctionRef,
        producer: &CodegenValue,
        producer_signature: &FunctionSignature,
        consumer: &CodegenValue,
        signature: &FunctionSignature,
    ) -> (result: Result<CodegenValue, CompileError>)
        ensures
            agrees_on(
                result,
                old(self)@,
                final(self)@,
                consume_values_steps(
                    old(self)@,
                    builder,
                    function,
                    producer@,
                    producer_signature@,
                    consumer@,
                    signature@,
                ),
            ),
    {
        reveal(consume_values_steps);
        let rooted = self.root_callable_value(builder, consumer)?;
        let none: Vec<Argument> = Vec::new();
        assert(none@ =~= Seq::<Argument>::empty());
        let produced = self.emit_callable_call(builder, producer, producer_signature, &none)?;
        let produced_word = self.value_to_word(builder, &produced);
        let produced_slot = self.root_word(builder, produced_word);
        let current = self.load_rooted_word(builder, produced_slot);
        let is_values = self.call1(builder, RuntimeFunction::IsValues, current);
        let values_block = self.append_block(function);
        let single_block = self.append_block(function);
        let cont_block = self.append_block(function);
        self.build_conditional_branch(builder, is_values, values_block, single_block);
        self.position_at_end(builder, values_block);
        let values_result = self.emit_call_with_values_packet_consumer(
            builder,
            function,
            &rooted,
            signature,
            produced_slot,
        )?;
        let values_exit = self.emit(Op::InsertBlock { builder });
        self.build_branch(builder, cont_block);
        self.position_at_end(builder, single_block);
        let single_result = self.emit_call_with_values_single_consumer(
            builder,
            &rooted,
            signature,
            produced_slot,
        )?;
        let value = match single_result {
            Some(single_result) => {
                let single_exit = self.emit(Op::InsertBlock { builder });
                self.build_branch(builder, cont_block);
                self.position_at_end(builder, cont_block);
                self.merge_branch_values(builder, &values_result, values_exit, &single_result, single_exit)?
            },
            None => {
                self.position_at_end(builder, cont_block);
                values_result
            },
        };
        self.pop_root_slots(builder, 1);
        if let RootedCallable::Closure { slot: _, signature: _ } = &rooted {
            self.pop_root_slots(builder, 1);
        }
        Ok(value)
    }

    fn load_apply_args(&mut self, builder: usize, list: Operand, kinds: &Vec<AbiValueKind>, from: usize, count: usize) -> (result: Result<
        Vec<Argument>,
        CompileError,
    >)
        requires
            count <= kinds@.len(),
        ensures
            agrees_on_row(
                result,
                old(self)@,
                final(self)@,
                apply_list_args_steps(old(self)@, builder, list, kinds@, from as nat, count as nat),
            ),
        decreases count,
    {
        reveal(apply_list_args_steps);
        if count <= from {
            let none: Vec<Argument> = Vec::new();
            assert(none@ =~= Seq::<Argument>::empty());
            return Ok(none);
        }
        let mut args = self.load_apply_args(builder, list, kinds, from, count - 1)?;
        let value = self.load_list_element(builder, list, count - 1 - from, kinds[count - 1]);
        let argument = self.convert_argument_value(builder, &value, kinds[count - 1], "apply.list.arg")?;
        args.push(argument);
        Ok(args)
    }

    /// Traps where the lists of `map` or `for-each` differ in length.
    fn check_same_lengths(&mut self, builder: usize, function: FunctionRef, lengths: &Vec<Operand>)
        ensures
            final(self)@ == same_lengths_steps(old(self)@, builder, function, lengths@, lengths@.len()),
            grows(old(self)@, final(self)@),
    {
        reveal(same_lengths_steps);
        if lengths.len() == 0 {
            return;
        }
        let mut index: usize = 1;
        while index < lengths.len()
            invariant
                1 <= index <= lengths@.len(),
                self@ == same_lengths_steps(old(self)@, builder, function, lengths@, index as nat),
                grows(old(self)@, self@),
            decreases lengths@.len() - index,
        {
            reveal(same_lengths_steps);
            let same_length = self.compare(builder, Predicate::Equal, lengths[0], lengths[index]);
            self.trap_if_false(builder, function, same_length);
            index = index + 1;
        }
    }

    fn load_iteration_args(
        &mut self,
        builder: usize,
        kinds: &Vec<AbiValueKind>,
        slots: &Vec<Operand>,
        index: Operand,
        count: usize,
    ) -> (result: Result<(Vec<Argument>, Vec<Operand>), CompileError>)
        requires
            count <= slots@.len(),
        ensures
            match result {
                Ok((args, extras)) => iteration_args_steps(
                    old(self)@,
                    builder,
                    kinds@,
                    slots@,
                    index,
                    count as nat,
                ) == Ok::<(State, (Seq<Argument>, Seq<Operand>)), Seq<char>>(
                    (final(self)@, (args@, extras@)),
                ) && grows(old(self)@, final(self)@),
                Err(CompileError::Codegen(message)) => iteration_args_steps(
                    old(self)@,
                    builder,
                    kinds@,
                    slots@,
                    index,
                    count as nat,
                ) == Err::<(State, (Seq<Argument>, Seq<Operand>)), Seq<char>>(message@),
                Err(_) => false,
            },
        decreases count,
    {
        reveal(iteration_args_steps);
        if count == 0 {
            let args: Vec<Argument> = Vec::new();
            let extras: Vec<Operand> = Vec::new();
            assert(args@ =~= Seq::<Argument>::empty());
            assert(extras@ =~= Seq::<Operand>::empty());
            return Ok((args, extras));
        }
        let (mut args, mut extras) = self.load_iteration_args(builder, kinds, slots, index, count - 1)?;
        let list = self.load_rooted_word(builder, slots[count - 1]);
        let element = self.call2(builder, RuntimeFunction::ListRef, list, index);
        if count - 1 < kinds.len() {
            let coerced = self.word_to_codegen_value(builder, element, kinds[count - 1]);
            let argument = self.convert_argument_value(
                builder,
                &coerced,
                kinds[count - 1],
                "list iteration arg",
            )?;
            args.push(argument);
        } else {
            extras.push(element);
        }
        Ok((args, extras))
    }

    /// The loop of `map` and `for-each`.
    #[verifier::rlimit(40)]
    fn compile_iteration_loop(
        &mut self,
        builder: usize,
        function: FunctionRef,
        callable: &RootedCallable,
        signature: &FunctionSignature,
        slots: &Vec<Operand>,
        lengths: &Vec<Operand>,
        collect: bool,
    ) -> (result: Result<CodegenValue, CompileError>)
        requires
            lengths@.len() >= 1,
        ensures
            agrees_on(
                result,
                old(self)@,
                final(self)@,
                iteration_loop_steps(
                    old(self)@,
                    builder,
                    function,
                    callable@,
                    signature@,
                    slots@,
                    lengths@,
                    collect,
                ),
            ),
    {
        reveal(iteration_loop_steps);
        self.check_same_lengths(builder, function, lengths);
        let index_slot = self.emit_value(Op::Alloca { builder });
        let _ = self.emit(Op::Store { builder, slot: index_slot, value: Operand::Word(0) });
        let result_slot = if collect {
            self.root_word(builder, Operand::Word(EMPTY_LIST as u64))
        } else {
            Operand::NullRaw
        };
        let cond_block = self.append_block(function);
        let body_block = self.append_block(function);
        let step_block = self.append_block(function);
        let done_block = self.append_block(function);
        self.build_branch(builder, cond_block);
        self.position_at_end(builder, cond_block);
        let index = self.load_rooted_word(builder, index_slot);
        let keep_going = self.compare(builder, Predicate::UnsignedLess, index, lengths[0]);
        self.build_conditional_branch(builder, keep_going, body_block, done_block);
        self.position_at_end(builder, body_block);
        let (mut args, extras) = self.load_iteration_args(
            builder,
            &signature.required_param_kinds,
            slots,
            index,
            slots.len(),
        )?;
        if signature.rest {
            let rest = self.build_list_word_from_words(builder, &extras);
            args.push(Argument::Int(rest));
        }
        let value = self.emit_rooted_callable_call(builder, callable, signature, &args)?;
        if collect {
            let item = self.value_to_word(builder, &value);
            let current = self.load_rooted_word(builder, result_slot);
            let list = self.cons_word(builder, item, current);
            let _ = self.emit(Op::Store { builder, slot: result_slot, value: list });
        }
        self.build_branch(builder, step_block);
        self.position_at_end(builder, step_block);
        let next = self.binary(builder, BinaryOp::Plus, index, Operand::Word(1));
        let _ = self.emit(Op::Store { builder, slot: index_slot, value: next });
        self.build_branch(builder, cond_block);
        self.position_at_end(builder, done_block);
        let result = if collect {
            let reversed = self.load_rooted_word(builder, result_slot);
            let result = self.call1(builder, RuntimeFunction::Reverse, reversed);
            self.pop_root_slots(builder, 1);
            result
        } else {
            Operand::Word(UNSPECIFIED as u64)
        };
        self.pop_root_slots(builder, slots.len());
        if let RootedCallable::Closure { slot: _, signature: _ } = callable {
            self.pop_root_slots(builder, 1);
        }
        Ok(CodegenValue::Word(result))
    }
}

/// Builtins whose arguments are expressions.
impl Compiler {
    /// The first `count` arguments, each of which must leave an integer.
    fn compile_integers(
        &mut self,
        builder: usize,
        function: FunctionRef,
        env: &Scope,
        args: &Vec<Expr>,
        count: usize,
        context: &str,
    ) -> (result: Result<Vec<Operand>, CompileError>)
        requires
            old(self)@.ready(),
            count <= args@.len(),
        ensures
            agrees_on_row(
                result,
                old(self)@,
                final(self)@,
                integers_steps(old(self)@, builder, function, env@, args@, count as nat, context@),
            ),
            result is Ok ==> result->Ok_0@.len() == count,
        decreases args@, 10nat, count,
    {
        if count == 0 {
            let none: Vec<Operand> = Vec::new();
            assert(none@ =~= Seq::<Operand>::empty());
            return Ok(none);
        }
        let mut operands = self.compile_integers(builder, function, env, args, count - 1, context)?;
        let value = self.compile_expr(builder, function, env, &args[count - 1])?;
        let word = expect_word(&value, context)?;
        let number = self.fixnum_operand(builder, function, word);
        operands.push(number);
        Ok(operands)
    }

    /// The first `count` arguments, each of which must leave a character.
    fn compile_chars(&mut self, builder: usize, function: FunctionRef, env: &Scope, args: &Vec<Expr>, count: usize) -> (result: Result<
        Vec<Operand>,
        CompileError,
    >)
        requires
            old(self)@.ready(),
            count <= args@.len(),
        ensures
            agrees_on_row(
                result,
                old(self)@,
                final(self)@,
                chars_steps(old(self)@, builder, function, env@, args@, count as nat),
            ),
            result is Ok ==> result->Ok_0@.len() == count,
        decreases args@, 10nat, count,
    {
        if count == 0 {
            let none: Vec<Operand> = Vec::new();
            assert(none@ =~= Seq::<Operand>::empty());
            return Ok(none);
        }
        let mut operands = self.compile_chars(builder, function, env, args, count - 1)?;
        let value = self.compile_expr(builder, function, env, &args[count - 1])?;
        let word = expect_word(&value, "char comparison argument")?;
        let scalar = self.char_operand(builder, function, word);
        operands.push(scalar);
        Ok(operands)
    }

    /// `+`, `-`, `*` and `/`.
    pub fn compile_numeric_builtin(
        &mut self,
        builder: usize,
        function: FunctionRef,
        env: &Scope,
        callee: &str,
        args: &Vec<Expr>,
    ) -> (result: Result<CodegenValue, CompileError>)
        requires
            old(self)@.ready(),
        ensures
            agrees_on(
                result,
                old(self)@,
                final(self)@,
                numeric_builtin_steps(old(self)@, builder, function, env@, callee@, args@),
            ),
        decreases args@, 40nat, 0nat,
    {
        let operands = self.compile_integers(builder, function, env, args, args.len(), "builtin argument")?;
        let raw = if same(callee, "+") {
            self.fold_operands(builder, BinaryOp::Plus, Operand::Word(0), &operands, 0)
        } else if same(callee, "*") {
            self.fold_operands(builder, BinaryOp::Times, Operand::Word(1), &operands, 0)
        } else if same(callee, "-") {
            if operands.len() == 0 {
                return fail("operator '-' expects at least one argument");
            }
            if operands.len() == 1 {
                self.binary(builder, BinaryOp::Minus, Operand::Word(0), operands[0])
            } else {
                self.fold_operands(builder, BinaryOp::Minus, operands[0], &operands, 1)
            }
        } else {
            if operands.len() < 2 {
                return fail("operator '/' expects at least two arguments");
            }
            self.fold_operands(builder, BinaryOp::SignedDivide, operands[0], &operands, 1)
        };
        let word = self.encode_fixnum_value(builder, raw);
        Ok(CodegenValue::Word(word))
    }

    /// `=`, `<`, `>`, `<=` and `>=`.
    pub fn compile_numeric_comparison(
        &mut self,
        builder: usize,
        function: FunctionRef,
        env: &Scope,
        callee: &str,
        args: &Vec<Expr>,
    ) -> (result: Result<CodegenValue, CompileError>)
        requires
            old(self)@.ready(),
        ensures
            agrees_on(
                result,
                old(self)@,
                final(self)@,
                numeric_comparison_steps(old(self)@, builder, function, env@, callee@, args@),
            ),
        decreases args@, 40nat, 0nat,
    {
        if args.len() < 2 {
            return fail_with(join(callee, " expects at least two arguments"));
        }
        let operands = self.compile_integers(
            builder,
            function,
            env,
            args,
            args.len(),
            "numeric comparison argument",
        )?;
        let condition = self.chain_operands(builder, predicate_of_comparison(callee), &operands);
        let word = self.tagged_bool(builder, condition);
        Ok(CodegenValue::Word(word))
    }

    /// `char=?`, `char<?`, `char>?`, `char<=?` and `char>=?`.
    pub fn compile_char_comparison(
        &mut self,
        builder: usize,
        function: FunctionRef,
        env: &Scope,
        callee: &str,
        args: &Vec<Expr>,
    ) -> (result: Result<CodegenValue, CompileError>)
        requires
            old(self)@.ready(),
        ensures
            agrees_on(
                result,
                old(self)@,
                final(self)@,
                char_comparison_steps(old(self)@, builder, function, env@, callee@, args@),
            ),
        decreases args@, 40nat, 0nat,
    {
        if args.len() < 2 {
            return fail_with(join(callee, " expects at least two arguments"));
        }
        let operands = self.compile_chars(builder, function, env, args, args.len())?;
        let condition = self.chain_operands(builder, predicate_of_char_comparison(callee), &operands);
        let word = self.tagged_bool(builder, condition);
        Ok(CodegenValue::Word(word))
    }

    fn compile_one_argument(
        &mut self,
        builder: usize,
        function: FunctionRef,
        env: &Scope,
        name: &str,
        args: &Vec<Expr>,
    ) -> (result: Result<CodegenValue, CompileError>)
        requires
            old(self)@.ready(),
        ensures
            agrees_on(
                result,
                old(self)@,
                final(self)@,
                one_argument_steps(old(self)@, builder, function, env@, name@, args@),
            ),
        decreases args@, 30nat, 0nat,
    {
        if args.len() != 1 {
            return fail_with(join(name, " expects exactly one argument"));
        }
        self.compile_expr(builder, function, env, &args[0])
    }

    fn compile_two_arguments(
        &mut self,
        builder: usize,
        function: FunctionRef,
        env: &Scope,
        name: &str,
        args: &Vec<Expr>,
    ) -> (result: Result<(CodegenValue, CodegenValue), CompileError>)
        requires
            old(self)@.ready(),
        ensures
            match result {
                Ok((first, second)) => two_arguments_steps(
                    old(self)@,
                    builder,
                    function,
                    env@,
                    name@,
                    args@,
                ) == Ok::<(State, (Val, Val)), Seq<char>>((final(self)@, (first@, second@))) && grows(
                    old(self)@,
                    final(self)@,
                ),
                Err(CompileError::Codegen(message)) => two_arguments_steps(
                    old(self)@,
                    builder,
                    function,
                    env@,
                    name@,
                    args@,
                ) == Err::<(State, (Val, Val)), Seq<char>>(message@),
                Err(_) => false,
            },
        decreases args@, 30nat, 0nat,
    {
        if args.len() != 2 {
            return fail_with(join(name, " expects exactly two arguments"));
        }
        let first = self.compile_expr(builder, function, env, &args[0])?;
        let second = self.compile_expr(builder, function, env, &args[1])?;
        Ok((first, second))
    }

    pub fn compile_cons(&mut self, builder: usize, function: FunctionRef, env: &Scope, args: &Vec<Expr>) -> (result: Result<
        CodegenValue,
        CompileError,
    >)
        requires
            old(self)@.ready(),
        ensures
            agrees_on(
                result,
                old(self)@,
                final(self)@,
                cons_steps(old(self)@, builder, function, env@, args@),
            ),
        decreases args@, 40nat, 0nat,
    {
        if args.len() != 2 {
            return fail("cons expects exactly two arguments");
        }
        let car_value = self.compile_expr(builder, function, env, &args[0])?;
        let car = self.value_to_word(builder, &car_value);
        let cdr_value = self.compile_expr(builder, function, env, &args[1])?;
        let cdr = self.value_to_word(builder, &cdr_value);
        let ptr = self.alloc_pair_rooted(builder, car, cdr);
        Ok(CodegenValue::HeapObject { ptr, kind: HeapValueKind::Pair })
    }

    fn compile_pair_target(&mut self, builder: usize, function: FunctionRef, env: &Scope, args: &Vec<Expr>) -> (result: Result<
        CodegenValue,
        CompileError,
    >)
        requires
            old(self)@.ready(),
            args@.len() == 2,
        ensures
            agrees_on(
                result,
                old(self)@,
                final(self)@,
                pair_target_steps(old(self)@, builder, function, env@, args@),
            ),
        decreases args@, 20nat, 0nat,
    {
        if let ExprKind::Variable(name) = &args[0].kind {
            if let Some(value) = env.get(name.as_str()) {
                return Ok(value.duplicate());
            }
        }
        self.compile_expr(builder, function, env, &args[0])
    }

    /// `set-car!` and `set-cdr!`.
    pub fn compile_pair_set(&mut self, builder: usize, function: FunctionRef, env: &Scope, args: &Vec<Expr>, set_car: bool) -> (result: Result<
        CodegenValue,
        CompileError,
    >)
        requires
            old(self)@.ready(),
        ensures
            agrees_on(
                result,
                old(self)@,
                final(self)@,
                pair_set_steps(old(self)@, builder, function, env@, args@, set_car),
            ),
        decreases args@, 40nat, 0nat,
    {
        reveal(pair_store_steps);
        let by_pointer = if set_car { RuntimeFunction::PairSetCarGc } else { RuntimeFunction::PairSetCdrGc };
        let by_word = if set_car { RuntimeFunction::PairSetCar } else { RuntimeFunction::PairSetCdr };
        if args.len() != 2 {
            let name = if set_car { "set-car!" } else { "set-cdr!" };
            return fail_with(join(name, " expects exactly two arguments"));
        }
        let pair = self.compile_pair_target(builder, function, env, args)?;
        let value = self.compile_expr(builder, function, env, &args[1])?;
        let word = self.value_to_word(builder, &value);
        let result = match known_pointer(&pair, HeapValueKind::Pair) {
            Some(ptr) => self.call2(builder, by_pointer, ptr, word),
            None => match &pair {
                CodegenValue::RootedWord { slot } => {
                    let pair_word = self.load_rooted_word(builder, *slot);
                    let ptr = self.emit_value(Op::IntToPtr { builder, value: pair_word });
                    self.call2(builder, by_pointer, ptr, word)
                },
                _ => {
                    let pair_word = self.value_to_word(builder, &pair);
                    self.call2(builder, by_word, pair_word, word)
                },
            },
        };
        Ok(CodegenValue::Word(result))
    }

    /// `list`: the last argument is evaluated first.
    pub fn compile_list(
        &mut self,
        builder: usize,
        function: FunctionRef,
        env: &Scope,
        args: &Vec<Expr>,
        end: usize,
        tail: CodegenValue,
    ) -> (result: Result<CodegenValue, CompileError>)
        requires
            old(self)@.ready(),
            end <= args@.len(),
        ensures
            agrees_on(
                result,
                old(self)@,
                final(self)@,
                list_steps(old(self)@, builder, function, env@, args@, end as nat, tail@),
            ),
        decreases args@, 10nat, end,
    {
        if end == 0 {
            return Ok(tail);
        }
        let car = self.compile_expr(builder, function, env, &args[end - 1])?;
        let car_word = self.value_to_word(builder, &car);
        let cdr_word = self.value_to_word(builder, &tail);
        let ptr = self.alloc_pair_rooted(builder, car_word, cdr_word);
        self.compile_list(
            builder,
            function,
            env,
            args,
            end - 1,
            CodegenValue::HeapObject { ptr, kind: HeapValueKind::Pair },
        )
    }

    fn compile_append_rest(
        &mut self,
        builder: usize,
        function: FunctionRef,
        env: &Scope,
        args: &Vec<Expr>,
        end: usize,
        tail: CodegenValue,
    ) -> (result: Result<CodegenValue, CompileError>)
        requires
            old(self)@.ready(),
            end <= args@.len(),
        ensures
            agrees_on(
                result,
                old(self)@,
                final(self)@,
                append_rest_steps(old(self)@, builder, function, env@, args@, end as nat, tail@),
            ),
        decreases args@, 10nat, end,
    {
        if end == 0 {
            return Ok(tail);
        }
        let left = self.compile_expr(builder, function, env, &args[end - 1])?;
        let result = self.compile_binary_runtime(builder, &left, &tail, RuntimeFunction::Append);
        self.compile_append_rest(builder, function, env, args, end - 1, CodegenValue::Word(result))
    }

    /// `append`: the last argument is evaluated first.
    pub fn compile_append(&mut self, builder: usize, function: FunctionRef, env: &Scope, args: &Vec<Expr>) -> (result: Result<
        CodegenValue,
        CompileError,
    >)
        requires
            old(self)@.ready(),
        ensures
            agrees_on(
                result,
                old(self)@,
                final(self)@,
                append_steps(old(self)@, builder, function, env@, args@),
            ),
        decreases args@, 40nat, 0nat,
    {
        if args.len() == 0 {
            return Ok(CodegenValue::Word(Operand::Word(EMPTY_LIST as u64)));
        }
        let last = self.compile_expr(builder, function, env, &args[args.len() - 1])?;
        self.compile_append_rest(builder, function, env, args, args.len() - 1, last)
    }

    fn compile_vector_elements(
        &mut self,
        builder: usize,
        function: FunctionRef,
        env: &Scope,
        args: &Vec<Expr>,
        elements: Operand,
        count: usize,
    ) -> (result: Result<(), CompileError>)
        requires
            old(self)@.ready(),
            count <= args@.len(),
        ensures
            agrees_plainly(
                result,
                old(self)@,
                final(self)@,
                vector_elements_steps(
                    old(self)@,
                    builder,
                    function,
                    env@,
                    args@,
                    elements,
                    count as nat,
                ),
            ),
        decreases args@, 10nat, count,
    {
        if count == 0 {
            return Ok(());
        }
        self.compile_vector_elements(builder, function, env, args, elements, count - 1)?;
        let value = self.compile_expr(builder, function, env, &args[count - 1])?;
        let word = self.value_to_word(builder, &value);
        let slot = self.emit_value(
            Op::ElementPointer { builder, base: elements, skip: 0, index: count - 1 },
        );
        let _ = self.emit(Op::Store { builder, slot, value: word });
        Ok(())
    }

    pub fn compile_vector(&mut self, builder: usize, function: FunctionRef, env: &Scope, args: &Vec<Expr>) -> (result: Result<
        CodegenValue,
        CompileError,
    >)
        requires
            old(self)@.ready(),
        ensures
            agrees_on(
                result,
                old(self)@,
                final(self)@,
                vector_steps(old(self)@, builder, function, env@, args@),
            ),
        decreases args@, 40nat, 0nat,
    {
        let count: usize = args.len();
        let elements = if count == 0 {
            Operand::NullRaw
        } else {
            let row = self.emit_value(Op::ArrayAlloca { builder, count });
            self.compile_vector_elements(builder, function, env, args, row, count)?;
            self.emit_value(Op::PointerCast { builder, value: row })
        };
        let ptr = self.call2(
            builder,
            RuntimeFunction::AllocVectorGc,
            elements,
            Operand::Word(count as u64),
        );
        Ok(CodegenValue::HeapObject { ptr, kind: HeapValueKind::Vector })
    }

    pub fn compile_vector_set(&mut self, builder: usize, function: FunctionRef, env: &Scope, args: &Vec<Expr>) -> (result: Result<
        CodegenValue,
        CompileError,
    >)
        requires
            old(self)@.ready(),
        ensures
            agrees_on(
                result,
                old(self)@,
                final(self)@,
                vector_set_steps(old(self)@, builder, function, env@, args@),
            ),
        decreases args@, 40nat, 0nat,
    {
        reveal(vector_store_steps);
        if args.len() != 3 {
            return fail("vector-set! expects exactly three arguments");
        }
        let vector = self.compile_expr(builder, function, env, &args[0])?;
        let index = self.compile_expr(builder, function, env, &args[1])?;
        let index_word = expect_word(&index, "vector-set! index argument")?;
        let place = self.fixnum_operand(builder, function, index_word);
        let element = self.compile_expr(builder, function, env, &args[2])?;
        let word = self.value_to_word(builder, &element);
        let result = match known_pointer(&vector, HeapValueKind::Vector) {
            Some(ptr) => self.call3(builder, RuntimeFunction::VectorSetGc, ptr, place, word),
            None => {
                let vector_word = self.value_to_word(builder, &vector);
                self.call3(builder, RuntimeFunction::VectorSet, vector_word, place, word)
            },
        };
        Ok(CodegenValue::Word(result))
    }

    fn compile_rooted_args(&mut self, builder: usize, function: FunctionRef, env: &Scope, args: &Vec<Expr>, count: usize) -> (result: Result<
        Vec<Operand>,
        CompileError,
    >)
        requires
            old(self)@.ready(),
            count <= args@.len(),
        ensures
            agrees_on_row(
                result,
                old(self)@,
                final(self)@,
                rooted_args_steps(old(self)@, builder, function, env@, args@, count as nat),
            ),
        decreases args@, 10nat, count,
    {
        if count == 0 {
            let none: Vec<Operand> = Vec::new();
            assert(none@ =~= Seq::<Operand>::empty());
            return Ok(none);
        }
        let mut slots = self.compile_rooted_args(builder, function, env, args, count - 1)?;
        let value = self.compile_expr(builder, function, env, &args[count - 1])?;
        let word = self.value_to_word(builder, &value);
        let slot = self.root_word(builder, word);
        slots.push(slot);
        Ok(slots)
    }

    /// `values`. A single value stands for itself.
    pub fn compile_values(&mut self, builder: usize, function: FunctionRef, env: &Scope, args: &Vec<Expr>) -> (result: Result<
        CodegenValue,
        CompileError,
    >)
        requires
            old(self)@.ready(),
        ensures
            agrees_on(
                result,
                old(self)@,
                final(self)@,
                values_steps(old(self)@, builder, function, env@, args@),
            ),
        decreases args@, 40nat, 0nat,
    {
        if args.len() == 1 {
            return self.compile_expr(builder, function, env, &args[0]);
        }
        let slots = self.compile_rooted_args(builder, function, env, args, args.len())?;
        let count: usize = slots.len();
        let values_ptr = if count == 0 {
            Operand::NullRaw
        } else {
            let elements = self.emit_value(Op::ArrayAlloca { builder, count });
            self.copy_slots(builder, &slots, elements);
            self.emit_value(Op::PointerCast { builder, value: elements })
        };
        let result = self.call2(
            builder,
            RuntimeFunction::AllocValues,
            values_ptr,
            Operand::Word(count as u64),
        );
        self.pop_root_slots(builder, count);
        Ok(CodegenValue::Word(result))
    }

    pub fn compile_call_with_values(&mut self, builder: usize, function: FunctionRef, env: &Scope, args: &Vec<Expr>) -> (result: Result<
        CodegenValue,
        CompileError,
    >)
        requires
            old(self)@.ready(),
        ensures
            agrees_on(
                result,
                old(self)@,
                final(self)@,
                call_with_values_steps(old(self)@, builder, function, env@, args@),
            ),
        decreases args@, 40nat, 0nat,
    {
        if args.len() != 2 {
            return fail("call-with-values expects exactly two arguments");
        }
        let producer = self.compile_expr(builder, function, env, &args[0])?;
        let producer_signature = match signature_of_procedure(&producer) {
            Some(signature) => signature,
            None => {
                return fail("call-with-values producer expected a function value");
            },
        };
        if producer_signature.required_param_kinds.len() != 0 {
            return fail("call-with-values producer must accept zero arguments");
        }
        let consumer = self.compile_expr(builder, function, env, &args[1])?;
        let signature = match signature_of_procedure(&consumer) {
            Some(signature) => signature,
            None => {
                return fail("call-with-values consumer expected a function value");
            },
        };
        self.consume_values(builder, function, &producer, &producer_signature, &consumer, &signature)
    }

    fn compile_words(&mut self, builder: usize, function: FunctionRef, env: &Scope, args: &Vec<Expr>, count: usize) -> (result: Result<
        Vec<Operand>,
        CompileError,
    >)
        requires
            old(self)@.ready(),
            count <= args@.len(),
        ensures
            agrees_on_row(
                result,
                old(self)@,
                final(self)@,
                words_steps(old(self)@, builder, function, env@, args@, count as nat),
            ),
        decreases args@, 10nat, count,
    {
        if count == 0 {
            let none: Vec<Operand> = Vec::new();
            assert(none@ =~= Seq::<Operand>::empty());
            return Ok(none);
        }
        let mut words = self.compile_words(builder, function, env, args, count - 1)?;
        let value = self.compile_expr(builder, function, env, &args[count - 1])?;
        let word = self.value_to_word(builder, &value);
        words.push(word);
        Ok(words)
    }

    /// `error`: raises the list of the symbol `error` and the arguments.
    pub fn compile_error_call(&mut self, builder: usize, function: FunctionRef, env: &Scope, args: &Vec<Expr>) -> (result: Result<
        CodegenValue,
        CompileError,
    >)
        requires
            old(self)@.ready(),
        ensures
            agrees_on(
                result,
                old(self)@,
                final(self)@,
                error_steps(old(self)@, builder, function, env@, args@),
            ),
        decreases args@, 40nat, 0nat,
    {
        if args.len() == 0 {
            return fail("error expects at least one argument");
        }
        let symbol = self.compile_symbol_literal(builder, "error");
        let symbol_word = self.value_to_word(builder, &symbol);
        let mut words = self.compile_words(builder, function, env, args, args.len())?;
        let ghost given = words@;
        words.insert(0, symbol_word);
        assert(words@ =~= seq![symbol_word] + given);
        let list = self.build_list_word_from_words(builder, &words);
        let result = self.call1(builder, RuntimeFunction::RtRaise, list);
        Ok(CodegenValue::Word(result))
    }

    /// The arguments that `apply` hands on.
    pub fn compile_apply_arguments(
        &mut self,
        builder: usize,
        function: FunctionRef,
        env: &Scope,
        signature: &FunctionSignature,
        args: &Vec<Expr>,
        list: Operand,
    ) -> (result: Result<Vec<Argument>, CompileError>)
        requires
            old(self)@.ready(),
            args@.len() >= 2,
        ensures
            agrees_on_row(
                result,
                old(self)@,
                final(self)@,
                apply_arguments_steps(old(self)@, builder, function, env@, signature@, args@, list),
            ),
        decreases args@, 30nat, 0nat,
    {
        let required: usize = signature.required_param_kinds.len();
        let leading: usize = args.len() - 2;
        if !signature.rest && leading > required {
            return fail_with(
                join(
                    "apply received too many leading arguments for a procedure of arity ",
                    decimal(required).as_str(),
                ),
            );
        }
        let direct: usize = if leading <= required { leading } else { required };
        let needed: usize = required - direct;
        let mut compiled = self.compile_direct_args(
            builder,
            function,
            env,
            args,
            1,
            &signature.required_param_kinds,
            direct,
            "apply.prefix",
        )?;
        if !signature.rest {
            self.assert_list_length(builder, function, list, needed);
        } else if leading <= required {
            self.assert_list_length_at_least(builder, function, list, needed);
        }
        let mut from_list = self.load_apply_args(
            builder,
            list,
            &signature.required_param_kinds,
            direct,
            required,
        )?;
        compiled.append(&mut from_list);
        if !signature.rest {
            return Ok(compiled);
        }
        let rest = if leading > required {
            self.build_prefixed_list_value(
                builder,
                function,
                env,
                args,
                required + 1,
                args.len() - 1,
                list,
            )?
        } else {
            self.list_tail_word(builder, list, needed)
        };
        compiled.push(Argument::Int(rest));
        Ok(compiled)
    }

    pub fn compile_apply(&mut self, builder: usize, function: FunctionRef, env: &Scope, args: &Vec<Expr>) -> (result: Result<
        CodegenValue,
        CompileError,
    >)
        requires
            old(self)@.ready(),
        ensures
            agrees_on(
                result,
                old(self)@,
                final(self)@,
                apply_steps(old(self)@, builder, function, env@, args@),
            ),
        decreases args@, 40nat, 0nat,
    {
        if args.len() < 2 {
            return fail("apply expects a procedure, optional leading arguments, and a final list");
        }
        let callee = self.compile_expr(builder, function, env, &args[0])?;
        let signature = match signature_of_procedure(&callee) {
            Some(signature) => signature,
            None => {
                return fail("apply target expected a function value, but a non-function was produced");
            },
        };
        let list_value = self.compile_expr(builder, function, env, &args[args.len() - 1])?;
        let list = self.value_to_word(builder, &list_value);
        let compiled = self.compile_apply_arguments(builder, function, env, &signature, args, list)?;
        self.emit_callable_call(builder, &callee, &signature, &compiled)
    }

    fn compile_iteration_lists(&mut self, builder: usize, function: FunctionRef, env: &Scope, args: &Vec<Expr>, count: usize) -> (result: Result<
        (Vec<Operand>, Vec<Operand>),
        CompileError,
    >)
        requires
            old(self)@.ready(),
            count < args@.len(),
        ensures
            match result {
                Ok((slots, lengths)) => iteration_lists_steps(
                    old(self)@,
                    builder,
                    function,
                    env@,
                    args@,
                    count as nat,
                ) == Ok::<(State, (Seq<Operand>, Seq<Operand>)), Seq<char>>(
                    (final(self)@, (slots@, lengths@)),
                ) && grows(old(self)@, final(self)@) && lengths@.len() == count,
                Err(CompileError::Codegen(message)) => iteration_lists_steps(
                    old(self)@,
                    builder,
                    function,
                    env@,
                    args@,
                    count as nat,
                ) == Err::<(State, (Seq<Operand>, Seq<Operand>)), Seq<char>>(message@),
                Err(_) => false,
            },
        decreases args@, 10nat, count,
    {
        if count == 0 {
            let slots: Vec<Operand> = Vec::new();
            let lengths: Vec<Operand> = Vec::new();
            assert(slots@ =~= Seq::<Operand>::empty());
            assert(lengths@ =~= Seq::<Operand>::empty());
            return Ok((slots, lengths));
        }
        let (mut slots, mut lengths) = self.compile_iteration_lists(builder, function, env, args, count - 1)?;
        let value = self.compile_expr(builder, function, env, &args[count])?;
        let word = self.value_to_word(builder, &value);
        let slot = self.root_word(builder, word);
        let length = self.call1(builder, RuntimeFunction::ListLength, word);
        let decoded = self.fixnum_operand(builder, function, length);
        slots.push(slot);
        lengths.push(decoded);
        Ok((slots, lengths))
    }

    /// `map`, which collects, and `for-each`, which does not.
    pub fn compile_list_iteration(&mut self, builder: usize, function: FunctionRef, env: &Scope, args: &Vec<Expr>, collect: bool) -> (result: Result<
        CodegenValue,
        CompileError,
    >)
        requires
            old(self)@.ready(),
        ensures
            agrees_on(
                result,
                old(self)@,
                final(self)@,
                list_iteration_steps(old(self)@, builder, function, env@, args@, collect),
            ),
        decreases args@, 40nat, 0nat,
    {
        let name = if collect { "map" } else { "for-each" };
        if args.len() < 2 {
            return fail_with(join(name, " expects a procedure and at least one list"));
        }
        let lists: usize = args.len() - 1;
        let callee = self.compile_expr(builder, function, env, &args[0])?;
        let signature = match signature_of_procedure(&callee) {
            Some(signature) => signature,
            None => {
                return fail_with(join(name, " target expected a function value"));
            },
        };
        if !signature.accepts(lists) {
            let required = decimal(signature.required_param_kinds.len());
            let start = join3("procedure expects ", required.as_str(), or_more_text(signature.rest));
            let middle = join3(start.as_str(), " arguments but got ", decimal(lists).as_str());
            return fail_with(join(middle.as_str(), " list(s)"));
        }
        let callable = self.root_callable_value(builder, &callee)?;
        let (slots, lengths) = self.compile_iteration_lists(builder, function, env, args, lists)?;
        self.compile_iteration_loop(builder, function, &callable, &signature, &slots, &lengths, collect)
    }

    /// A builtin that takes any number of arguments, or that has its own order of evaluation.
    fn compile_other_builtin(
        &mut self,
        builder: usize,
        function: FunctionRef,
        env: &Scope,
        name: &str,
        args: &Vec<Expr>,
    ) -> (result: Result<CodegenValue, CompileError>)
        requires
            old(self)@.ready(),
        ensures
            agrees_on(
                result,
                old(self)@,
                final(self)@,
                compile_other_builtin_steps(old(self)@, builder, function, env@, name@, args@),
            ),
        decreases args@, 45nat, 0nat,
    {
        if same(name, "+") || same(name, "-") || same(name, "*") || same(name, "/") {
            self.compile_numeric_builtin(builder, function, env, name, args)
        } else if same(name, "=") || same(name, "<") || same(name, ">") || same(name, "<=") || same(name, ">=") {
            self.compile_numeric_comparison(builder, function, env, name, args)
        } else if same(name, "char=?") || same(name, "char<?") || same(name, "char>?") || same(name, "char<=?")
            || same(name, "char>=?") {
            self.compile_char_comparison(builder, function, env, name, args)
        } else if same(name, "values") {
            self.compile_values(builder, function, env, args)
        } else if same(name, "call-with-values") {
            self.compile_call_with_values(builder, function, env, args)
        } else if same(name, "error") {
            self.compile_error_call(builder, function, env, args)
        } else if same(name, "apply") {
            self.compile_apply(builder, function, env, args)
        } else if same(name, "list") {
            self.compile_list(
                builder,
                function,
                env,
                args,
                args.len(),
                CodegenValue::Word(Operand::Word(EMPTY_LIST as u64)),
            )
        } else if same(name, "map") {
            self.compile_list_iteration(builder, function, env, args, true)
        } else if same(name, "for-each") {
            self.compile_list_iteration(builder, function, env, args, false)
        } else if same(name, "append") {
            self.compile_append(builder, function, env, args)
        } else if same(name, "cons") {
            self.compile_cons(builder, function, env, args)
        } else if same(name, "set-car!") {
            self.compile_pair_set(builder, function, env, args, true)
        } else if same(name, "set-cdr!") {
            self.compile_pair_set(builder, function, env, args, false)
        } else if same(name, "newline") {
            if args.len() != 0 {
                return fail("newline expects no arguments");
            }
            let result = self.call0(builder, RuntimeFunction::Newline);
            Ok(CodegenValue::Word(result))
        } else if same(name, "vector") {
            self.compile_vector(builder, function, env, args)
        } else {
            self.compile_vector_set(builder, function, env, args)
        }
    }

    /// The code of a call of a builtin.
    pub fn compile_builtin_call(
        &mut self,
        builder: usize,
        function: FunctionRef,
        env: &Scope,
        name: &str,
        args: &Vec<Expr>,
    ) -> (result: Result<CodegenValue, CompileError>)
        requires
            old(self)@.ready(),
            is_builtin_name(name@),
        ensures
            agrees_on(
                result,
                old(self)@,
                final(self)@,
                compile_builtin_call_steps(old(self)@, builder, function, env@, name@, args@),
            ),
        decreases args@, 50nat, 0nat,
    {
        if takes_one_argument(name) {
            let value = self.compile_one_argument(builder, function, env, name, args)?;
            self.compile_unary_builtin(builder, function, name, &value)
        } else if takes_two_arguments(name) {
            let (first, second) = self.compile_two_arguments(builder, function, env, name, args)?;
            self.compile_binary_builtin(builder, function, name, &first, &second)
        } else {
            self.compile_other_builtin(builder, function, env, name, args)
        }
    }
}

} // verus!
