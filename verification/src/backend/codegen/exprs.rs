//! Code of the core forms.
use crate::backend::abi::RuntimeFunction;
use crate::backend::builtins::is_builtin;
use crate::backend::codegen::plan::{
    accepts, assigned_in, changed_in, bind_steps, call_args_steps, calls_builtin, compile_all_steps, compile_call_steps,
    compile_delay_steps, compile_expr_steps, compile_force_steps, compile_guard_steps, compile_if_steps,
    compile_quote_steps, compile_set_steps, compile_tail_call_steps, compile_tail_expr_steps,
    direct_args_steps, force_promise_steps, guard_handler_steps, list_value_steps, literal_steps, or_more,
    parallel_bindings_steps, promise_pointer, compile_scoped_steps, compile_form_steps, compile_tail_form_steps, quote_items_steps, sequential_bindings_steps,
    string_literal_steps, symbol_literal_steps, truth_steps, variable_steps,
};
use crate::backend::codegen::state::{
    agrees_on, agrees_on_row, agrees_on_scope, agrees_plainly, grows, Argument, CodegenValue, Compiler,
    Scope,
};
use crate::backend::codegen::values::{
    const_bool, const_fixnum_checked, expect_word, fail, fail_with,
};
use crate::backend::ir::{FunctionRef, Op, Operand, Predicate};
use crate::backend::kinds::{signature_of_words, AbiValueKind, FunctionSignature, HeapValueKind};
use crate::backend::scope::{collect_mutated_names_with_initial, collect_pair_mutated_names_with_initial};
use crate::error::CompileError;
use crate::middle::hir::{binding_names, names_of_bindings, Binding, Datum, Expr, ExprKind, Formals};
use crate::names::{name_texts, Duplicate, NameSet};
use crate::runtime::layout::{EMPTY_LIST, FIXNUM_TAG, UNSPECIFIED};
use crate::runtime::value::Value;
use crate::text::{decimal, join, join3};
use vstd::prelude::*;

verus! {

broadcast use {vstd::seq_lib::group_seq_properties, crate::backend::ir::group_continues};

/// The name of the builtin that a call is one of, where the scope does not hide it.
pub fn builtin_callee<'a>(callee: &'a Expr, env: &Scope) -> (name: Option<&'a str>)
    ensures
        match name {
            Some(name) => calls_builtin(*callee, env@) == Some(name@),
            None => calls_builtin(*callee, env@) is None,
        },
{
    match &callee.kind {
        ExprKind::Variable(name) => {
            if is_builtin(name.as_str()) && !env.contains_key(name.as_str()) {
                Some(name.as_str())
            } else {
                None
            }
        },
        _ => None,
    }
}

/// The text behind the number of required arguments.
pub fn or_more_text(rest: bool) -> (text: &'static str)
    ensures
        text@ == or_more(rest),
{
    if rest {
        " or more"
    } else {
        ""
    }
}

/// Which of a row of names the body assigns to.
pub fn names_assigned_in(body: &Expr, names: &Vec<String>) -> (assigned: NameSet)
    ensures
        assigned@ == assigned_in(*body, name_texts(names@)),
{
    reveal(assigned_in);
    collect_mutated_names_with_initial(body, names)
}

/// Which of a row of names the body changes the pair of.
pub fn names_changed_in(body: &Expr, names: &Vec<String>) -> (changed: NameSet)
    ensures
        changed@ == changed_in(*body, name_texts(names@)),
{
    reveal(changed_in);
    collect_pair_mutated_names_with_initial(body, names)
}

impl FunctionSignature {
    /// Whether a procedure can be called with a number of arguments.
    pub fn accepts(&self, count: usize) -> (accepted: bool)
        ensures
            accepted == accepts(self@, count as nat),
    {
        self.required_param_kinds.len() <= count && (self.rest || count == self.required_param_kinds.len())
    }
}

impl Compiler {
    fn compile_literal(
        &mut self,
        builder: usize,
        prefix: &str,
        text: &str,
        alloc: RuntimeFunction,
        kind: HeapValueKind,
    ) -> (value: CodegenValue)
        requires
            old(self)@.ready(),
        ensures
            (final(self)@, value@) == literal_steps(old(self)@, builder, prefix@, text@, alloc, kind),
            grows(old(self)@, final(self)@),
    {
        reveal(literal_steps);
        let name = join(prefix, decimal(self.lambda_counter).as_str());
        let global = self.emit_value(Op::AddBytes { name, text: text.to_owned() });
        assert(self.lambda_counter < self.trace.len());
        self.lambda_counter = self.lambda_counter + 1;
        let pointer = self.emit_value(Op::PointerCast { builder, value: global });
        let length: usize = text.as_bytes().len();
        let ptr = self.call2(builder, alloc, pointer, Operand::Word(length as u64));
        CodegenValue::HeapObject { ptr, kind }
    }

    /// Makes a string.
    pub fn compile_string_literal(&mut self, builder: usize, value: &str) -> (result: CodegenValue)
        requires
            old(self)@.ready(),
        ensures
            (final(self)@, result@) == string_literal_steps(old(self)@, builder, value@),
            grows(old(self)@, final(self)@),
    {
        reveal(string_literal_steps);
        self.compile_literal(
            builder,
            "__string_literal_",
            value,
            RuntimeFunction::AllocStringGc,
            HeapValueKind::String,
        )
    }

    /// Makes a symbol.
    pub fn compile_symbol_literal(&mut self, builder: usize, value: &str) -> (result: CodegenValue)
        requires
            old(self)@.ready(),
        ensures
            (final(self)@, result@) == symbol_literal_steps(old(self)@, builder, value@),
            grows(old(self)@, final(self)@),
    {
        reveal(symbol_literal_steps);
        self.compile_literal(
            builder,
            "__symbol_literal_",
            value,
            RuntimeFunction::AllocSymbolGc,
            HeapValueKind::Symbol,
        )
    }

    /// Makes a quoted datum.
    pub fn compile_quote(&mut self, builder: usize, datum: &Datum) -> (result: Result<CodegenValue, CompileError>)
        requires
            old(self)@.ready(),
        ensures
            agrees_on(result, old(self)@, final(self)@, compile_quote_steps(old(self)@, builder, *datum)),
        decreases *datum, 1nat,
    {
        match datum {
            Datum::Integer(value) => Ok(CodegenValue::Word(const_fixnum_checked(*value)?)),
            Datum::Boolean(value) => Ok(CodegenValue::Word(const_bool(*value))),
            Datum::Char(value) => Ok(
                CodegenValue::Word(Operand::Word(Value::encode_char(*value).bits() as u64)),
            ),
            Datum::String(value) => Ok(self.compile_string_literal(builder, value.as_str())),
            Datum::Symbol(value) => Ok(self.compile_symbol_literal(builder, value.as_str())),
            Datum::List { items, tail } => {
                let last = match tail {
                    Some(tail) => self.compile_quote(builder, tail)?,
                    None => CodegenValue::Word(Operand::Word(EMPTY_LIST as u64)),
                };
                self.compile_quoted_items(builder, items, items.len(), last)
            },
        }
    }

    /// Puts the first `count` of a row of quoted data in front of a list.
    fn compile_quoted_items(&mut self, builder: usize, items: &Vec<Datum>, count: usize, tail: CodegenValue) -> (result: Result<
        CodegenValue,
        CompileError,
    >)
        requires
            old(self)@.ready(),
            count <= items@.len(),
        ensures
            agrees_on(
                result,
                old(self)@,
                final(self)@,
                quote_items_steps(old(self)@, builder, items@, count as nat, tail@),
            ),
        decreases items@, count,
    {
        if count == 0 {
            return Ok(tail);
        }
        let car = self.compile_quote(builder, &items[count - 1])?;
        let car_word = self.value_to_word(builder, &car);
        let cdr_word = self.value_to_word(builder, &tail);
        let ptr = self.alloc_pair_rooted(builder, car_word, cdr_word);
        self.compile_quoted_items(
            builder,
            items,
            count - 1,
            CodegenValue::HeapObject { ptr, kind: HeapValueKind::Pair },
        )
    }

    /// What a variable stands for.
    pub fn compile_variable(&mut self, builder: usize, env: &Scope, name: &str) -> (result: Result<
        CodegenValue,
        CompileError,
    >)
        ensures
            agrees_on(result, old(self)@, final(self)@, variable_steps(old(self)@, builder, env@, name@)),
    {
        reveal(variable_steps);
        if let Some(value) = env.get(name) {
            match value {
                CodegenValue::MutableBox { ptr } => {
                    let word = self.load_box_word(builder, *ptr);
                    return Ok(CodegenValue::Word(word));
                },
                CodegenValue::RootedWord { slot } => {
                    let word = self.load_rooted_word(builder, *slot);
                    return Ok(CodegenValue::Word(word));
                },
                _ => {
                    return Ok(value.duplicate());
                },
            }
        }
        if let Some(info) = self.functions.get(name) {
            return Ok(CodegenValue::Function(info.duplicate()));
        }
        if let Some(info) = self.builtin_functions.get(name) {
            return Ok(CodegenValue::Function(info.duplicate()));
        }
        fail_with(join3("undefined variable '", name, "'"))
    }

    /// Whether what an expression left counts as true.
    pub fn compile_truth(&mut self, builder: usize, value: &CodegenValue) -> (result: Result<Operand, CompileError>)
        ensures
            agrees_plainly(result, old(self)@, final(self)@, truth_steps(old(self)@, builder, value@)),
    {
        reveal(truth_steps);
        match value {
            CodegenValue::HeapObject { ptr: _, kind: _ } => Ok(Operand::Bit(true)),
            CodegenValue::Closure { ptr: _, signature: _ } => Ok(Operand::Bit(true)),
            _ => {
                let word = expect_word(value, "if condition")?;
                Ok(self.compare(builder, Predicate::NotEqual, word, const_bool(false)))
            },
        }
    }

    /// The value of a row of expressions: that of the last of the first `count`.
    pub fn compile_all(
        &mut self,
        builder: usize,
        function: FunctionRef,
        env: &Scope,
        exprs: &Vec<Expr>,
        count: usize,
    ) -> (result: Result<CodegenValue, CompileError>)
        requires
            old(self)@.ready(),
            count <= exprs@.len(),
        ensures
            agrees_on(
                result,
                old(self)@,
                final(self)@,
                compile_all_steps(old(self)@, builder, function, env@, exprs@, count as nat),
            ),
        decreases exprs@, 10nat, count,
    {
        if count == 0 {
            return Ok(CodegenValue::Word(Operand::Word(FIXNUM_TAG as u64)));
        }
        let _ = self.compile_all(builder, function, env, exprs, count - 1)?;
        self.compile_expr(builder, function, env, &exprs[count - 1])
    }

    /// The code of an expression.
    pub fn compile_expr(&mut self, builder: usize, function: FunctionRef, env: &Scope, expr: &Expr) -> (result: Result<
        CodegenValue,
        CompileError,
    >)
        requires
            old(self)@.ready(),
        ensures
            agrees_on(
                result,
                old(self)@,
                final(self)@,
                compile_expr_steps(old(self)@, builder, function, env@, *expr),
            ),
        decreases *expr, 20nat, 0nat,
    {
        if let ExprKind::Call { callee: _, args: _ } = &expr.kind {
            let value = self.compile_call(builder, function, env, expr)?;
            self.branch_on_pending_exception(builder, function);
            Ok(value)
        } else {
            self.compile_form(builder, function, env, expr)
        }
    }

    /// The code of an expression that is no call.
    pub fn compile_form(&mut self, builder: usize, function: FunctionRef, env: &Scope, expr: &Expr) -> (result: Result<
        CodegenValue,
        CompileError,
    >)
        requires
            old(self)@.ready(),
            !(expr.kind is Call),
        ensures
            agrees_on(
                result,
                old(self)@,
                final(self)@,
                compile_form_steps(old(self)@, builder, function, env@, *expr),
            ),
        decreases *expr, 19nat, 0nat,
    {
        match &expr.kind {
            ExprKind::Unspecified => Ok(CodegenValue::Word(Operand::Word(UNSPECIFIED as u64))),
            ExprKind::Integer(value) => Ok(CodegenValue::Word(const_fixnum_checked(*value)?)),
            ExprKind::Boolean(value) => Ok(CodegenValue::Word(const_bool(*value))),
            ExprKind::Char(value) => Ok(
                CodegenValue::Word(Operand::Word(Value::encode_char(*value).bits() as u64)),
            ),
            ExprKind::String(value) => Ok(self.compile_string_literal(builder, value.as_str())),
            ExprKind::Variable(name) => self.compile_variable(builder, env, name.as_str()),
            ExprKind::Assign { name, value } => self.compile_set(builder, function, env, name.as_str(), value),
            ExprKind::Begin(exprs) => self.compile_all(builder, function, env, exprs, exprs.len()),
            ExprKind::Let { bindings: _, body: _ } => self.compile_scoped(builder, function, env, expr),
            ExprKind::LetStar { bindings: _, body: _ } => self.compile_scoped(builder, function, env, expr),
            ExprKind::LetRec { bindings: _, body: _ } => self.compile_scoped(builder, function, env, expr),
            ExprKind::Guard { name: _, handler: _, body: _ } => self.compile_guard(builder, function, env, expr),
            ExprKind::Delay(inner) => self.compile_delay(builder, env, inner),
            ExprKind::Force(inner) => self.compile_force(builder, function, env, inner),
            ExprKind::If { condition: _, then_branch: _, else_branch: _ } => self.compile_if(
                builder,
                function,
                env,
                expr,
            ),
            ExprKind::Lambda { formals, body } => self.compile_lambda(builder, env, formals, body),
            ExprKind::Quote(datum) => self.compile_quote(builder, datum),
            ExprKind::Call { callee: _, args: _ } => fail(""),
        }
    }

    /// The code of a form that binds names for its body.
    pub fn compile_scoped(&mut self, builder: usize, function: FunctionRef, env: &Scope, expr: &Expr) -> (result: Result<
        CodegenValue,
        CompileError,
    >)
        requires
            old(self)@.ready(),
            expr.kind is Let || expr.kind is LetStar || expr.kind is LetRec,
        ensures
            agrees_on(
                result,
                old(self)@,
                final(self)@,
                compile_scoped_steps(old(self)@, builder, function, env@, *expr),
            ),
        decreases *expr, 15nat, 0nat,
    {
        match &expr.kind {
            ExprKind::Let { bindings, body } => {
                let (scoped, rooted) = self.compile_parallel_bindings(builder, function, env, bindings, body)?;
                let value = self.compile_expr(builder, function, &scoped, body)?;
                self.pop_root_slots(builder, rooted);
                Ok(value)
            },
            ExprKind::LetStar { bindings, body } => {
                let (scoped, rooted) = self.compile_sequential_bindings(builder, function, env, bindings, body)?;
                let value = self.compile_expr(builder, function, &scoped, body)?;
                self.pop_root_slots(builder, rooted);
                Ok(value)
            },
            ExprKind::LetRec { bindings, body } => {
                let bound = self.compile_recursive_bindings(builder, env, bindings)?;
                let mut scoped = env.duplicate_map();
                scoped.extend(&bound);
                self.compile_expr(builder, function, &scoped, body)
            },
            _ => fail(""),
        }
    }

    /// The code of a conditional.
    pub fn compile_if(&mut self, builder: usize, function: FunctionRef, env: &Scope, expr: &Expr) -> (result: Result<
        CodegenValue,
        CompileError,
    >)
        requires
            old(self)@.ready(),
            expr.kind is If,
        ensures
            agrees_on(
                result,
                old(self)@,
                final(self)@,
                compile_if_steps(old(self)@, builder, function, env@, *expr),
            ),
        decreases *expr, 15nat, 0nat,
    {
        match &expr.kind {
            ExprKind::If { condition, then_branch, else_branch } => {
                let value = self.compile_expr(builder, function, env, condition)?;
                let predicate = self.compile_truth(builder, &value)?;
                let then_block = self.append_block(function);
                let else_block = self.append_block(function);
                let merge_block = self.append_block(function);
                self.build_conditional_branch(builder, predicate, then_block, else_block);
                self.position_at_end(builder, then_block);
                let then_value = self.compile_expr(builder, function, env, then_branch)?;
                self.build_branch(builder, merge_block);
                let then_exit = self.emit(Op::InsertBlock { builder });
                self.position_at_end(builder, else_block);
                let else_value = self.compile_expr(builder, function, env, else_branch)?;
                self.build_branch(builder, merge_block);
                let else_exit = self.emit(Op::InsertBlock { builder });
                self.position_at_end(builder, merge_block);
                self.merge_branch_values(builder, &then_value, then_exit, &else_value, else_exit)
            },
            _ => fail(""),
        }
    }

    /// The code of an assignment.
    pub fn compile_set(&mut self, builder: usize, function: FunctionRef, env: &Scope, name: &str, value: &Expr) -> (result: Result<
        CodegenValue,
        CompileError,
    >)
        requires
            old(self)@.ready(),
        ensures
            agrees_on(
                result,
                old(self)@,
                final(self)@,
                compile_set_steps(old(self)@, builder, function, env@, name@, *value),
            ),
        decreases *value, 21nat, 0nat,
    {
        match env.get(name) {
            None => fail_with(join3("set! target '", name, "' is undefined")),
            Some(CodegenValue::MutableBox { ptr }) => {
                let cell = *ptr;
                let compiled = self.compile_expr(builder, function, env, value)?;
                let word = self.value_to_word(builder, &compiled);
                let result = self.call2(builder, RuntimeFunction::BoxSetGc, cell, word);
                Ok(CodegenValue::Word(result))
            },
            Some(_) => fail_with(
                join3("set! target '", name, "' is immutable in the current implementation"),
            ),
        }
    }

    /// Binds a name to a value, and counts the slots that were rooted for it.
    pub fn bind_name(
        &mut self,
        builder: usize,
        env: &mut Scope,
        rooted: usize,
        name: &String,
        value: CodegenValue,
        assigned: &NameSet,
        changed: &NameSet,
    ) -> (count: usize)
        requires
            rooted <= old(self)@.trace.len(),
        ensures
            (final(self)@, (final(env)@, count as nat)) == bind_steps(
                old(self)@,
                builder,
                old(env)@,
                rooted as nat,
                name@,
                value@,
                assigned@,
                changed@,
            ),
            grows(old(self)@, final(self)@),
            count - rooted <= final(self)@.trace.len() - old(self)@.trace.len(),
    {
        reveal(bind_steps);
        if assigned.contains(name.as_str()) {
            let cell = self.box_value(builder, &value);
            env.insert(name.clone(), cell);
            rooted
        } else if changed.contains(name.as_str()) {
            let word = self.value_to_word(builder, &value);
            let slot = self.root_word(builder, word);
            env.insert(name.clone(), CodegenValue::RootedWord { slot });
            assert(rooted < self.trace.len());
            rooted + 1
        } else {
            env.insert(name.clone(), value);
            rooted
        }
    }

    /// The scope of the body of a `let`.
    pub fn compile_parallel_bindings(
        &mut self,
        builder: usize,
        function: FunctionRef,
        env: &Scope,
        bindings: &Vec<Binding>,
        body: &Expr,
    ) -> (result: Result<(Scope, usize), CompileError>)
        requires
            old(self)@.ready(),
        ensures
            agrees_on_scope(
                result,
                old(self)@,
                final(self)@,
                parallel_bindings_steps(
                    old(self)@,
                    builder,
                    function,
                    env@,
                    bindings@,
                    bindings@.len(),
                    *body,
                ),
            ),
        decreases bindings@, 15nat, 0nat,
    {
        let names = names_of_bindings(bindings);
        let assigned = names_assigned_in(body, &names);
        let changed = names_changed_in(body, &names);
        self.bind_in_parallel(builder, function, env, bindings, bindings.len(), body, &assigned, &changed)
    }

    fn bind_in_parallel(
        &mut self,
        builder: usize,
        function: FunctionRef,
        env: &Scope,
        bindings: &Vec<Binding>,
        count: usize,
        body: &Expr,
        assigned: &NameSet,
        changed: &NameSet,
    ) -> (result: Result<(Scope, usize), CompileError>)
        requires
            old(self)@.ready(),
            count <= bindings@.len(),
            assigned@ == assigned_in(*body, binding_names(bindings@)),
            changed@ == changed_in(*body, binding_names(bindings@)),
        ensures
            agrees_on_scope(
                result,
                old(self)@,
                final(self)@,
                parallel_bindings_steps(
                    old(self)@,
                    builder,
                    function,
                    env@,
                    bindings@,
                    count as nat,
                    *body,
                ),
            ),
        decreases bindings@, 10nat, count,
    {
        if count == 0 {
            return Ok((env.duplicate_map(), 0));
        }
        let (mut scoped, rooted) = self.bind_in_parallel(
            builder,
            function,
            env,
            bindings,
            count - 1,
            body,
            assigned,
            changed,
        )?;
        let value = self.compile_expr(builder, function, env, &bindings[count - 1].value)?;
        let total: usize = self.bind_name(
            builder,
            &mut scoped,
            rooted,
            &bindings[count - 1].name,
            value,
            assigned,
            changed,
        );
        Ok((scoped, total))
    }

    /// The scope of the body of a `let*`.
    pub fn compile_sequential_bindings(
        &mut self,
        builder: usize,
        function: FunctionRef,
        env: &Scope,
        bindings: &Vec<Binding>,
        body: &Expr,
    ) -> (result: Result<(Scope, usize), CompileError>)
        requires
            old(self)@.ready(),
        ensures
            agrees_on_scope(
                result,
                old(self)@,
                final(self)@,
                sequential_bindings_steps(
                    old(self)@,
                    builder,
                    function,
                    env@,
                    bindings@,
                    bindings@.len(),
                    *body,
                ),
            ),
        decreases bindings@, 15nat, 0nat,
    {
        let names = names_of_bindings(bindings);
        let assigned = names_assigned_in(body, &names);
        let changed = names_changed_in(body, &names);
        self.bind_in_sequence(builder, function, env, bindings, bindings.len(), body, &assigned, &changed)
    }

    fn bind_in_sequence(
        &mut self,
        builder: usize,
        function: FunctionRef,
        env: &Scope,
        bindings: &Vec<Binding>,
        count: usize,
        body: &Expr,
        assigned: &NameSet,
        changed: &NameSet,
    ) -> (result: Result<(Scope, usize), CompileError>)
        requires
            old(self)@.ready(),
            count <= bindings@.len(),
            assigned@ == assigned_in(*body, binding_names(bindings@)),
            changed@ == changed_in(*body, binding_names(bindings@)),
        ensures
            agrees_on_scope(
                result,
                old(self)@,
                final(self)@,
                sequential_bindings_steps(
                    old(self)@,
                    builder,
                    function,
                    env@,
                    bindings@,
                    count as nat,
                    *body,
                ),
            ),
        decreases bindings@, 10nat, count,
    {
        if count == 0 {
            return Ok((env.duplicate_map(), 0));
        }
        let (mut scoped, rooted) = self.bind_in_sequence(
            builder,
            function,
            env,
            bindings,
            count - 1,
            body,
            assigned,
            changed,
        )?;
        let value = self.compile_expr(builder, function, &scoped, &bindings[count - 1].value)?;
        let total: usize = self.bind_name(
            builder,
            &mut scoped,
            rooted,
            &bindings[count - 1].name,
            value,
            assigned,
            changed,
        );
        Ok((scoped, total))
    }

    /// Opens the handler of a `guard`.
    fn open_guard_handler(&mut self, builder: usize, env: &Scope, handler_block: usize, name: &String) -> (guarded: Scope)
        ensures
            (final(self)@, guarded@) == guard_handler_steps(old(self)@, builder, env@, handler_block, name@),
            grows(old(self)@, final(self)@),
    {
        reveal(guard_handler_steps);
        self.position_at_end(builder, handler_block);
        let exception = self.call0(builder, RuntimeFunction::RtTakePendingException);
        let mut guarded = env.duplicate_map();
        guarded.insert(name.clone(), CodegenValue::Word(exception));
        guarded
    }

    /// The code of a `guard`.
    pub fn compile_guard(&mut self, builder: usize, function: FunctionRef, env: &Scope, expr: &Expr) -> (result: Result<
        CodegenValue,
        CompileError,
    >)
        requires
            old(self)@.ready(),
            expr.kind is Guard,
        ensures
            agrees_on(
                result,
                old(self)@,
                final(self)@,
                compile_guard_steps(old(self)@, builder, function, env@, *expr),
            ),
        decreases *expr, 15nat, 0nat,
    {
        match &expr.kind {
            ExprKind::Guard { name, handler, body } => {
                let body_block = self.append_block(function);
                let handler_block = self.append_block(function);
                let merge_block = self.append_block(function);
                self.build_branch(builder, body_block);
                self.position_at_end(builder, body_block);
                let ghost outer = self@.targets;
                self.exception_targets.push(handler_block);
                let body_value = self.compile_expr(builder, function, env, body)?;
                let _ = self.exception_targets.pop();
                assert(self.exception_targets@ =~= outer);
                self.build_branch(builder, merge_block);
                let body_exit = self.emit(Op::InsertBlock { builder });
                let guarded = self.open_guard_handler(builder, env, handler_block, name);
                let handler_value = self.compile_expr(builder, function, &guarded, handler)?;
                self.build_branch(builder, merge_block);
                let handler_exit = self.emit(Op::InsertBlock { builder });
                self.position_at_end(builder, merge_block);
                self.merge_branch_values(builder, &body_value, body_exit, &handler_value, handler_exit)
            },
            _ => fail(""),
        }
    }

    /// The code of a `delay`: a promise that holds a procedure without parameters.
    pub fn compile_delay(&mut self, builder: usize, env: &Scope, inner: &Expr) -> (result: Result<
        CodegenValue,
        CompileError,
    >)
        requires
            old(self)@.ready(),
        ensures
            agrees_on(result, old(self)@, final(self)@, compile_delay_steps(old(self)@, builder, env@, *inner)),
        decreases *inner, 40nat, 0nat,
    {
        let formals = Formals { required: Vec::new(), rest: None };
        assert(formals@.required =~= Seq::<Seq<char>>::empty());
        let thunk = match self.compile_lambda(builder, env, &formals, inner)? {
            CodegenValue::Function(info) => self.allocate_placeholder_closure(
                builder,
                info.wrapper,
                &info.signature,
                0,
            ),
            other => other,
        };
        let thunk_word = self.value_to_word(builder, &thunk);
        let ptr = self.call1(builder, RuntimeFunction::AllocPromiseGc, thunk_word);
        Ok(CodegenValue::HeapObject { ptr, kind: HeapValueKind::Promise })
    }

    /// The code of a `force`.
    pub fn compile_force(&mut self, builder: usize, function: FunctionRef, env: &Scope, inner: &Expr) -> (result: Result<
        CodegenValue,
        CompileError,
    >)
        requires
            old(self)@.ready(),
        ensures
            agrees_on(
                result,
                old(self)@,
                final(self)@,
                compile_force_steps(old(self)@, builder, function, env@, *inner),
            ),
        decreases *inner, 21nat, 0nat,
    {
        let promise = self.compile_expr(builder, function, env, inner)?;
        if let CodegenValue::HeapObject { ptr, kind } = &promise {
            if *kind == HeapValueKind::Promise {
                assert(promise_pointer(promise@) == Some(*ptr));
                return self.compile_force_promise(
                    builder,
                    function,
                    *ptr,
                    RuntimeFunction::PromiseForcedGc,
                    RuntimeFunction::PromiseValueGc,
                    RuntimeFunction::PromiseResolveGc,
                );
            }
        }
        let word = expect_word(&promise, "force argument")?;
        self.compile_force_promise(
            builder,
            function,
            word,
            RuntimeFunction::PromiseForced,
            RuntimeFunction::PromiseValue,
            RuntimeFunction::PromiseResolve,
        )
    }

    /// Forces a promise: takes its value where it has one, and runs its procedure otherwise.
    fn compile_force_promise(
        &mut self,
        builder: usize,
        function: FunctionRef,
        promise: Operand,
        is_forced: RuntimeFunction,
        value_of: RuntimeFunction,
        resolve: RuntimeFunction,
    ) -> (result: Result<CodegenValue, CompileError>)
        ensures
            agrees_on(
                result,
                old(self)@,
                final(self)@,
                force_promise_steps(old(self)@, builder, function, promise, is_forced, value_of, resolve),
            ),
    {
        reveal(force_promise_steps);
        let forced = self.call1(builder, is_forced, promise);
        let forced_block = self.append_block(function);
        let evaluate_block = self.append_block(function);
        let merge_block = self.append_block(function);
        self.build_conditional_branch(builder, forced, forced_block, evaluate_block);
        self.position_at_end(builder, forced_block);
        let forced_value = self.call1(builder, value_of, promise);
        self.build_branch(builder, merge_block);
        let forced_exit = self.emit(Op::InsertBlock { builder });
        self.position_at_end(builder, evaluate_block);
        let thunk_word = self.call1(builder, value_of, promise);
        let thunk_ptr = self.emit_value(Op::IntToPtr { builder, value: thunk_word });
        let signature = signature_of_words(0, false);
        let thunk = CodegenValue::Closure { ptr: thunk_ptr, signature: signature.duplicate() };
        let none: Vec<Argument> = Vec::new();
        assert(none@ =~= Seq::<Argument>::empty());
        let result = self.emit_callable_call(builder, &thunk, &signature, &none)?;
        self.branch_on_pending_exception(builder, function);
        let word = expect_word(&result, "promise force result")?;
        let resolved = self.call2(builder, resolve, promise, word);
        self.build_branch(builder, merge_block);
        let evaluate_exit = self.emit(Op::InsertBlock { builder });
        self.position_at_end(builder, merge_block);
        let value = self.phi_word(builder, forced_value, forced_exit, resolved, evaluate_exit);
        Ok(CodegenValue::Word(value))
    }

    /// The first `count` arguments of a call, each as the procedure takes it.
    pub fn compile_direct_args(
        &mut self,
        builder: usize,
        function: FunctionRef,
        env: &Scope,
        args: &Vec<Expr>,
        skip: usize,
        kinds: &Vec<AbiValueKind>,
        count: usize,
        context: &str,
    ) -> (result: Result<Vec<Argument>, CompileError>)
        requires
            old(self)@.ready(),
            count <= kinds@.len(),
            skip + count <= args@.len(),
        ensures
            agrees_on_row(
                result,
                old(self)@,
                final(self)@,
                direct_args_steps(
                    old(self)@,
                    builder,
                    function,
                    env@,
                    args@,
                    skip as nat,
                    kinds@,
                    count as nat,
                    context@,
                ),
            ),
        decreases args@, 10nat, count,
    {
        if count == 0 {
            let none: Vec<Argument> = Vec::new();
            assert(none@ =~= Seq::<Argument>::empty());
            return Ok(none);
        }
        let mut compiled = self.compile_direct_args(
            builder,
            function,
            env,
            args,
            skip,
            kinds,
            count - 1,
            context,
        )?;
        assert(skip + count <= args.len());
        let index: usize = skip + (count - 1);
        let value = self.compile_expr(builder, function, env, &args[index])?;
        let argument = self.convert_argument_value(builder, &value, kinds[count - 1], context)?;
        compiled.push(argument);
        Ok(compiled)
    }

    /// Puts the values of the arguments from `start` up to `end` in front of a list.
    pub fn build_prefixed_list_value(
        &mut self,
        builder: usize,
        function: FunctionRef,
        env: &Scope,
        args: &Vec<Expr>,
        start: usize,
        end: usize,
        tail: Operand,
    ) -> (result: Result<Operand, CompileError>)
        requires
            old(self)@.ready(),
            end <= args@.len(),
        ensures
            agrees_plainly(
                result,
                old(self)@,
                final(self)@,
                list_value_steps(
                    old(self)@,
                    builder,
                    function,
                    env@,
                    args@,
                    start as nat,
                    end as nat,
                    tail,
                ),
            ),
        decreases args@, 10nat, end,
    {
        if end <= start {
            return Ok(tail);
        }
        let value = self.compile_expr(builder, function, env, &args[end - 1])?;
        let car = self.value_to_word(builder, &value);
        let list = self.cons_word(builder, car, tail);
        self.build_prefixed_list_value(builder, function, env, args, start, end - 1, list)
    }

    /// The arguments of a call of a procedure.
    pub fn compile_call_args(
        &mut self,
        builder: usize,
        function: FunctionRef,
        env: &Scope,
        signature: &FunctionSignature,
        args: &Vec<Expr>,
    ) -> (result: Result<Vec<Argument>, CompileError>)
        requires
            old(self)@.ready(),
        ensures
            agrees_on_row(
                result,
                old(self)@,
                final(self)@,
                call_args_steps(old(self)@, builder, function, env@, signature@, args@),
            ),
        decreases args@, 20nat, 0nat,
    {
        let required: usize = signature.required_param_kinds.len();
        if !signature.accepts(args.len()) {
            let start = join3("procedure expects ", decimal(required).as_str(), or_more_text(signature.rest));
            return fail_with(join3(start.as_str(), " arguments but got ", decimal(args.len()).as_str()));
        }
        let mut compiled = self.compile_direct_args(
            builder,
            function,
            env,
            args,
            0,
            &signature.required_param_kinds,
            required,
            "procedure.argument",
        )?;
        if signature.rest {
            let rest = self.build_prefixed_list_value(
                builder,
                function,
                env,
                args,
                required,
                args.len(),
                Operand::Word(EMPTY_LIST as u64),
            )?;
            compiled.push(Argument::Int(rest));
        }
        Ok(compiled)
    }

    /// The code of a call.
    pub fn compile_call(&mut self, builder: usize, function: FunctionRef, env: &Scope, expr: &Expr) -> (result: Result<
        CodegenValue,
        CompileError,
    >)
        requires
            old(self)@.ready(),
            expr.kind is Call,
        ensures
            agrees_on(
                result,
                old(self)@,
                final(self)@,
                compile_call_steps(old(self)@, builder, function, env@, *expr),
            ),
        decreases *expr, 15nat, 0nat,
    {
        match &expr.kind {
            ExprKind::Call { callee, args } => {
                if let Some(name) = builtin_callee(callee, env) {
                    return self.compile_builtin_call(builder, function, env, name, args);
                }
                let callee_value = self.compile_expr(builder, function, env, callee)?;
                let (resolved, signature) = self.resolve_callable_value(builder, &callee_value, args.len())?;
                let compiled = self.compile_call_args(builder, function, env, &signature, args)?;
                self.emit_callable_call(builder, &resolved, &signature, &compiled)
            },
            _ => fail(""),
        }
    }

    /// The code of a call whose value is that of the procedure it stands in.
    pub fn compile_tail_call(
        &mut self,
        builder: usize,
        function: FunctionRef,
        current: &FunctionSignature,
        env: &Scope,
        expr: &Expr,
        cleanup_roots: usize,
    ) -> (result: Result<(), CompileError>)
        requires
            old(self)@.ready(),
            expr.kind is Call,
        ensures
            agrees_plainly(
                result,
                old(self)@,
                final(self)@,
                compile_tail_call_steps(
                    old(self)@,
                    builder,
                    function,
                    current@,
                    env@,
                    *expr,
                    cleanup_roots as nat,
                ),
            ),
        decreases *expr, 25nat, 0nat,
    {
        match &expr.kind {
            ExprKind::Call { callee, args } => {
                if let Some(name) = builtin_callee(callee, env) {
                    let value = self.compile_builtin_call(builder, function, env, name, args)?;
                    return self.tail_return_value(builder, cleanup_roots, current.return_kind, &value);
                }
                let callee_value = self.compile_expr(builder, function, env, callee)?;
                let (resolved, signature) = self.resolve_callable_value(builder, &callee_value, args.len())?;
                let compiled = self.compile_call_args(builder, function, env, &signature, args)?;
                let args_list = self.build_scheme_args_list(builder, &signature, &compiled)?;
                self.emit_tail_request(
                    builder,
                    current.return_kind,
                    &resolved,
                    &signature,
                    args_list,
                    cleanup_roots,
                )
            },
            _ => fail(""),
        }
    }

    /// The code of an expression whose value is that of the procedure it stands in.
    pub fn compile_tail_expr(
        &mut self,
        builder: usize,
        function: FunctionRef,
        current: &FunctionSignature,
        env: &Scope,
        expr: &Expr,
        cleanup_roots: usize,
    ) -> (result: Result<(), CompileError>)
        requires
            old(self)@.ready(),
            cleanup_roots <= old(self)@.trace.len(),
        ensures
            agrees_plainly(
                result,
                old(self)@,
                final(self)@,
                compile_tail_expr_steps(
                    old(self)@,
                    builder,
                    function,
                    current@,
                    env@,
                    *expr,
                    cleanup_roots as nat,
                ),
            ),
        decreases *expr, 30nat, 0nat,
    {
        if let ExprKind::Call { callee: _, args: _ } = &expr.kind {
            self.compile_tail_call(builder, function, current, env, expr, cleanup_roots)
        } else {
            self.compile_tail_form(builder, function, current, env, expr, cleanup_roots)
        }
    }

    /// The same for an expression that is no call.
    fn compile_tail_form(
        &mut self,
        builder: usize,
        function: FunctionRef,
        current: &FunctionSignature,
        env: &Scope,
        expr: &Expr,
        cleanup_roots: usize,
    ) -> (result: Result<(), CompileError>)
        requires
            old(self)@.ready(),
            !(expr.kind is Call),
            cleanup_roots <= old(self)@.trace.len(),
        ensures
            agrees_plainly(
                result,
                old(self)@,
                final(self)@,
                compile_tail_form_steps(
                    old(self)@,
                    builder,
                    function,
                    current@,
                    env@,
                    *expr,
                    cleanup_roots as nat,
                ),
            ),
        decreases *expr, 29nat, 0nat,
    {
        match &expr.kind {
            ExprKind::Begin(exprs) => {
                if exprs.len() == 0 {
                    let nothing = CodegenValue::Word(Operand::Word(UNSPECIFIED as u64));
                    return self.tail_return_value(builder, cleanup_roots, current.return_kind, &nothing);
                }
                let _ = self.compile_all(builder, function, env, exprs, exprs.len() - 1)?;
                self.compile_tail_expr(
                    builder,
                    function,
                    current,
                    env,
                    &exprs[exprs.len() - 1],
                    cleanup_roots,
                )
            },
            ExprKind::Let { bindings, body } => {
                let (scoped, rooted) = self.compile_parallel_bindings(builder, function, env, bindings, body)?;
                assert(cleanup_roots + rooted <= self.trace.len());
                self.compile_tail_expr(builder, function, current, &scoped, body, cleanup_roots + rooted)
            },
            ExprKind::LetStar { bindings, body } => {
                let (scoped, rooted) = self.compile_sequential_bindings(builder, function, env, bindings, body)?;
                assert(cleanup_roots + rooted <= self.trace.len());
                self.compile_tail_expr(builder, function, current, &scoped, body, cleanup_roots + rooted)
            },
            ExprKind::If { condition, then_branch, else_branch } => {
                let value = self.compile_expr(builder, function, env, condition)?;
                let predicate = self.compile_truth(builder, &value)?;
                let then_block = self.append_block(function);
                let else_block = self.append_block(function);
                self.build_conditional_branch(builder, predicate, then_block, else_block);
                self.position_at_end(builder, then_block);
                self.compile_tail_expr(builder, function, current, env, then_branch, cleanup_roots)?;
                self.position_at_end(builder, else_block);
                self.compile_tail_expr(builder, function, current, env, else_branch, cleanup_roots)
            },
            ExprKind::Guard { name, handler, body } => {
                let body_block = self.append_block(function);
                let handler_block = self.append_block(function);
                self.build_branch(builder, body_block);
                self.position_at_end(builder, body_block);
                let ghost outer = self@.targets;
                self.exception_targets.push(handler_block);
                self.compile_tail_expr(builder, function, current, env, body, cleanup_roots)?;
                let _ = self.exception_targets.pop();
                assert(self.exception_targets@ =~= outer);
                let guarded = self.open_guard_handler(builder, env, handler_block, name);
                self.compile_tail_expr(builder, function, current, &guarded, handler, cleanup_roots)
            },
            _ => {
                let value = self.compile_expr(builder, function, env, expr)?;
                self.tail_return_value(builder, cleanup_roots, current.return_kind, &value)
            },
        }
    }
}

} // verus!
