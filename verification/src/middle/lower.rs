//! Core forms from syntax trees without macros.
use crate::error::{CompileError, Problem};
use crate::expand::forms::{is_symbol, is_the_symbol, list_items, list_tail, symbol_of, symbol_value};
use crate::frontend::ast::{self, forms_of, lemma_list_form, Form, FormKind};
use crate::middle::meaning::{
    binding_values, datum_data, expr_core, first_cores, first_data, item_core, lemma_first_cores,
    lemma_first_data, lemma_first_values, row_cores, row_data, row_items, Core, CoreItem, Data, LetKind,
};
use crate::middle::hir::{
    binding_names, Binding, Datum, Expr, ExprKind, Formals, Params, Procedure, Program, TopLevel,
};
use crate::names::name_texts;
use crate::text::{join, same};
use vstd::prelude::*;

verus! {

broadcast use vstd::seq_lib::group_seq_properties;

/// The data that a quoted form stands for; a quote within it is a list of the word and the data.
pub open spec fn quoted(form: Form) -> Data
    decreases form, 0nat,
{
    match form.kind {
        FormKind::Integer(value) => Data::Integer(value),
        FormKind::Boolean(value) => Data::Boolean(value),
        FormKind::Char(value) => Data::Char(value),
        FormKind::Text(value) => Data::Text(value),
        FormKind::Symbol(name) => Data::Symbol(name),
        FormKind::Quote(inner) => Data::List {
            items: seq![Data::Symbol("quote"@), quoted(*inner)],
            tail: None,
        },
        FormKind::List { items, tail } => Data::List {
            items: first_quoted(items, items.len()),
            tail: match tail {
                Some(tail) => Some(Box::new(quoted(*tail))),
                None => None,
            },
        },
    }
}

/// The data that the first `count` of a row of forms stand for.
pub open spec fn first_quoted(forms: Seq<Form>, count: nat) -> Seq<Data>
    decreases forms, count,
{
    if count == 0 || count > forms.len() {
        Seq::empty()
    } else {
        first_quoted(forms, (count - 1) as nat).push(quoted(forms[count - 1]))
    }
}

/// The names of a row of parameters from one on, behind those before it.
pub open spec fn parameter_names(items: Seq<Form>, index: nat, names: Seq<Seq<char>>) -> Result<Seq<Seq<char>>, Problem>
    decreases items.len() - index,
{
    if index >= items.len() {
        Ok(names)
    } else {
        match items[index as int].kind {
            FormKind::Symbol(name) => parameter_names(items, index + 1, names.push(name)),
            _ => Err(Problem::Lower("parameter must be an identifier"@)),
        }
    }
}

/// A parameter list, from one item of its form on.
pub open spec fn parameters(form: Form, start: nat) -> Result<Params, Problem> {
    match form.kind {
        FormKind::Symbol(name) => Ok(Params { required: Seq::empty(), rest: Some(name) }),
        FormKind::List { items, tail } => match parameter_names(items, start, Seq::empty()) {
            Err(problem) => Err(problem),
            Ok(required) => match tail {
                None => Ok(Params { required, rest: None }),
                Some(tail) => match tail.kind {
                    FormKind::Symbol(name) => Ok(Params { required, rest: Some(name) }),
                    _ => Err(Problem::Lower("rest parameter must be an identifier"@)),
                },
            },
        },
        _ => Err(Problem::Lower("parameters must be an identifier or a parameter list"@)),
    }
}

/// The kind of binding form that a word starts.
pub open spec fn let_kind(keyword: Seq<char>) -> Option<LetKind> {
    if keyword == "let"@ {
        Some(LetKind::Parallel)
    } else if keyword == "let*"@ {
        Some(LetKind::Sequential)
    } else if keyword == "letrec"@ {
        Some(LetKind::Recursive)
    } else {
        None
    }
}

/// The core form of an expression.
pub open spec fn lowered(form: Form) -> Result<Core, Problem>
    decreases form, 30nat, 0nat,
{
    match form.kind {
        FormKind::Integer(value) => Ok(Core::Integer(value)),
        FormKind::Boolean(value) => Ok(Core::Boolean(value)),
        FormKind::Char(value) => Ok(Core::Char(value)),
        FormKind::Text(value) => Ok(Core::Text(value)),
        FormKind::Symbol(name) => Ok(Core::Variable(name)),
        FormKind::Quote(inner) => Ok(Core::Quote(quoted(*inner))),
        FormKind::List { items, tail } => if tail is Some {
            Err(Problem::Lower("dotted list is not an expression"@))
        } else if items.len() == 0 {
            Err(Problem::Lower("empty list is not an expression"@))
        } else {
            match symbol_of(items[0]) {
                Some(keyword) => lowered_keyword(form, keyword),
                None => lowered_call(form),
            }
        },
    }
}

/// The core form of a list that starts with a word.
pub open spec fn lowered_keyword(form: Form, keyword: Seq<char>) -> Result<Core, Problem>
    decreases form, 25nat, 0nat,
{
    let items = list_items(form);
    if keyword == "quote"@ {
        if items.len() == 2 {
            Ok(Core::Quote(quoted(items[1])))
        } else {
            Err(Problem::Lower("quote expects exactly one datum"@))
        }
    } else if keyword == "if"@ {
        lowered_if(form)
    } else if keyword == "begin"@ {
        if items.len() == 1 {
            Ok(Core::Unspecified)
        } else {
            lowered_body(form, 1)
        }
    } else if keyword == "lambda"@ {
        lowered_lambda(form)
    } else if let_kind(keyword) is Some {
        lowered_let(form, let_kind(keyword)->0)
    } else if keyword == "set!"@ {
        lowered_set(form)
    } else if keyword == "delay"@ {
        lowered_single(form, keyword)
    } else if keyword == "force"@ {
        lowered_single(form, keyword)
    } else if keyword == "guard"@ {
        lowered_guard(form)
    } else if keyword == "define"@ {
        Err(Problem::Lower("define is only valid at the top level"@))
    } else {
        lowered_call(form)
    }
}

/// The core forms of the items of a list from one on, behind those before it.
pub open spec fn lowered_items(form: Form, index: nat, lowered_before: Seq<Core>) -> Result<Seq<Core>, Problem>
    decreases form, 10nat, list_items(form).len() - index,
{
    let items = list_items(form);
    if index >= items.len() {
        Ok(lowered_before)
    } else {
        match lowered(items[index as int]) {
            Err(problem) => Err(problem),
            Ok(core) => lowered_items(form, index + 1, lowered_before.push(core)),
        }
    }
}

/// The core form of the items of a list from one on, evaluated in order for the value of the last.
pub open spec fn lowered_body(form: Form, start: nat) -> Result<Core, Problem>
    decreases form, 20nat, 0nat,
{
    match lowered_items(form, start, Seq::empty()) {
        Err(problem) => Err(problem),
        Ok(cores) => if cores.len() == 0 {
            Err(Problem::Lower("body must not be empty"@))
        } else if cores.len() == 1 {
            Ok(cores[0])
        } else {
            Ok(Core::Begin(cores))
        },
    }
}

/// The core form of a call.
pub open spec fn lowered_call(form: Form) -> Result<Core, Problem>
    decreases form, 20nat, 0nat,
{
    let items = list_items(form);
    if items.len() == 0 {
        Err(Problem::Lower("empty list is not an expression"@))
    } else {
        match lowered(items[0]) {
            Err(problem) => Err(problem),
            Ok(callee) => match lowered_items(form, 1, Seq::empty()) {
                Err(problem) => Err(problem),
                Ok(args) => Ok(Core::Call { callee: Box::new(callee), args }),
            },
        }
    }
}

/// The core form of a conditional; without a second branch its value is unspecified there.
pub open spec fn lowered_if(form: Form) -> Result<Core, Problem>
    decreases form, 20nat, 0nat,
{
    let items = list_items(form);
    if items.len() != 3 && items.len() != 4 {
        Err(Problem::Lower("if expects a condition and one or two branches"@))
    } else {
        match lowered(items[1]) {
            Err(problem) => Err(problem),
            Ok(condition) => match lowered(items[2]) {
                Err(problem) => Err(problem),
                Ok(then_branch) => if items.len() == 3 {
                    Ok(
                        Core::If {
                            condition: Box::new(condition),
                            then_branch: Box::new(then_branch),
                            else_branch: Box::new(Core::Unspecified),
                        },
                    )
                } else {
                    match lowered(items[3]) {
                        Err(problem) => Err(problem),
                        Ok(else_branch) => Ok(
                            Core::If {
                                condition: Box::new(condition),
                                then_branch: Box::new(then_branch),
                                else_branch: Box::new(else_branch),
                            },
                        ),
                    }
                },
            },
        }
    }
}

/// The core form of a procedure.
pub open spec fn lowered_lambda(form: Form) -> Result<Core, Problem>
    decreases form, 22nat, 0nat,
{
    let items = list_items(form);
    if items.len() < 3 {
        Err(Problem::Lower("lambda expects parameters and a body"@))
    } else {
        match parameters(items[1], 0) {
            Err(problem) => Err(problem),
            Ok(formals) => match lowered_body(form, 2) {
                Err(problem) => Err(problem),
                Ok(body) => Ok(Core::Lambda { formals, body: Box::new(body) }),
            },
        }
    }
}

/// The name and the form of the value of a binding.
pub open spec fn binding_parts(form: Form) -> Option<(Seq<char>, Form)> {
    match form.kind {
        FormKind::List { items, tail: None } => if items.len() == 2 && items[0].kind is Symbol {
            Some((symbol_of(items[0])->0, items[1]))
        } else {
            None
        },
        _ => None,
    }
}

/// The bindings of a list from one on, behind those before it.
pub open spec fn lowered_bindings(form: Form, index: nat, names: Seq<Seq<char>>, values: Seq<Core>) -> Result<
    (Seq<Seq<char>>, Seq<Core>),
    Problem,
>
    decreases form, 10nat, list_items(form).len() - index,
{
    let items = list_items(form);
    if index >= items.len() {
        Ok((names, values))
    } else {
        match binding_parts(items[index as int]) {
            None => Err(Problem::Lower("binding must hold an identifier and a value"@)),
            Some((name, value)) => match lowered(list_items(items[index as int])[1]) {
                Err(problem) => Err(problem),
                Ok(core) => lowered_bindings(form, index + 1, names.push(name), values.push(core)),
            },
        }
    }
}

/// The core form of an expression with local bindings.
pub open spec fn lowered_let(form: Form, kind: LetKind) -> Result<Core, Problem>
    decreases form, 22nat, 0nat,
{
    let items = list_items(form);
    if items.len() < 3 {
        Err(Problem::Lower("let expects bindings and a body"@))
    } else if !(items[1].kind is List) || list_tail(items[1]) is Some {
        Err(Problem::Lower("bindings must be a list"@))
    } else {
        match lowered_bindings(items[1], 0, Seq::empty(), Seq::empty()) {
            Err(problem) => Err(problem),
            Ok((names, values)) => match lowered_body(form, 2) {
                Err(problem) => Err(problem),
                Ok(body) => Ok(Core::Let { kind, names, values, body: Box::new(body) }),
            },
        }
    }
}

/// The core form of an assignment.
pub open spec fn lowered_set(form: Form) -> Result<Core, Problem>
    decreases form, 20nat, 0nat,
{
    let items = list_items(form);
    if items.len() != 3 || symbol_of(items[1]) is None {
        Err(Problem::Lower("set! expects an identifier and a value"@))
    } else {
        match lowered(items[2]) {
            Err(problem) => Err(problem),
            Ok(value) => Ok(Core::Assign { name: symbol_of(items[1])->0, value: Box::new(value) }),
        }
    }
}

/// The core form of a promise, or of what a promise stands for.
pub open spec fn lowered_single(form: Form, keyword: Seq<char>) -> Result<Core, Problem>
    decreases form, 20nat, 0nat,
{
    let items = list_items(form);
    if items.len() != 2 {
        Err(Problem::Lower(keyword + " expects exactly one expression"@))
    } else {
        match lowered(items[1]) {
            Err(problem) => Err(problem),
            Ok(inner) => if keyword == "delay"@ {
                Ok(Core::Delay(Box::new(inner)))
            } else {
                Ok(Core::Force(Box::new(inner)))
            },
        }
    }
}

/// What is done with what was raised and is called `name`: the first clause from one on whose
/// test is met decides; where there is none it is raised again.
pub open spec fn lowered_clauses(form: Form, index: nat, name: Seq<char>) -> Result<Core, Problem>
    decreases form, 10nat, list_items(form).len() - index,
{
    let items = list_items(form);
    if index >= items.len() {
        Ok(
            Core::Call {
                callee: Box::new(Core::Variable("raise"@)),
                args: seq![Core::Variable(name)],
            },
        )
    } else {
        let clause = items[index as int];
        if list_items(clause).len() < 2 || list_tail(clause) is Some {
            Err(Problem::Lower("guard clause must hold a test and a body"@))
        } else if is_the_symbol(list_items(clause)[0], "else"@) {
            if index + 1 == items.len() {
                lowered_body(clause, 1)
            } else {
                Err(Problem::Lower("else must be the last guard clause"@))
            }
        } else {
            match lowered(list_items(clause)[0]) {
                Err(problem) => Err(problem),
                Ok(condition) => match lowered_body(clause, 1) {
                    Err(problem) => Err(problem),
                    Ok(then_branch) => match lowered_clauses(form, index + 1, name) {
                        Err(problem) => Err(problem),
                        Ok(else_branch) => Ok(
                            Core::If {
                                condition: Box::new(condition),
                                then_branch: Box::new(then_branch),
                                else_branch: Box::new(else_branch),
                            },
                        ),
                    },
                },
            }
        }
    }
}

/// The core form of an expression that handles what is raised in it.
pub open spec fn lowered_guard(form: Form) -> Result<Core, Problem>
    decreases form, 22nat, 0nat,
{
    let items = list_items(form);
    if items.len() < 3 {
        Err(Problem::Lower("guard expects clauses and a body"@))
    } else if list_items(items[1]).len() == 0 || list_tail(items[1]) is Some || symbol_of(
        list_items(items[1])[0],
    ) is None {
        Err(Problem::Lower("guard clauses must start with an identifier"@))
    } else {
        let name = symbol_of(list_items(items[1])[0])->0;
        match lowered_clauses(items[1], 1, name) {
            Err(problem) => Err(problem),
            Ok(handler) => match lowered_body(form, 2) {
                Err(problem) => Err(problem),
                Ok(body) => Ok(Core::Guard { name, handler: Box::new(handler), body: Box::new(body) }),
            },
        }
    }
}

/// The core form of a definition.
pub open spec fn lowered_definition(form: Form) -> Result<CoreItem, Problem> {
    let items = list_items(form);
    if items.len() < 3 {
        Err(Problem::Lower("define expects a target and a value"@))
    } else {
        match items[1].kind {
            FormKind::Symbol(name) => if items.len() != 3 {
                Err(Problem::Lower("define of an identifier expects exactly one value"@))
            } else {
                match lowered(items[2]) {
                    Err(problem) => Err(problem),
                    Ok(value) => Ok(CoreItem::Definition { name, value }),
                }
            },
            FormKind::List { items: signature, tail } => if signature.len() == 0 || symbol_of(
                signature[0],
            ) is None {
                Err(Problem::Lower("define target must start with an identifier"@))
            } else {
                match parameters(items[1], 1) {
                    Err(problem) => Err(problem),
                    Ok(formals) => match lowered_body(form, 2) {
                        Err(problem) => Err(problem),
                        Ok(body) => Ok(
                            CoreItem::Procedure { name: symbol_of(signature[0])->0, formals, body },
                        ),
                    },
                }
            },
            _ => Err(Problem::Lower("define target must be an identifier or a parameter list"@)),
        }
    }
}

/// The core form of a form at the top level.
pub open spec fn lowered_item(form: Form) -> Result<CoreItem, Problem> {
    if list_tail(form) is None && list_items(form).len() > 0 && is_the_symbol(list_items(form)[0], "define"@) {
        lowered_definition(form)
    } else {
        match lowered(form) {
            Err(problem) => Err(problem),
            Ok(core) => Ok(CoreItem::Expression(core)),
        }
    }
}

/// The core forms of a program from one form on, behind those before it.
pub open spec fn lowered_program(forms: Seq<Form>, index: nat, before: Seq<CoreItem>) -> Result<Seq<CoreItem>, Problem>
    decreases forms.len() - index,
{
    if index >= forms.len() {
        Ok(before)
    } else {
        match lowered_item(forms[index as int]) {
            Err(problem) => Err(problem),
            Ok(item) => lowered_program(forms, index + 1, before.push(item)),
        }
    }
}

/// Whether lowering did what is expected of it.
pub open spec fn lowered_as(result: Result<Expr, CompileError>, expected: Result<Core, Problem>) -> bool {
    match result {
        Ok(expr) => expected == Ok::<Core, Problem>(expr_core(expr)),
        Err(error) => expected == Err::<Core, Problem>(error@),
    }
}

fn lower_error<T>(message: &str) -> (result: Result<T, CompileError>)
    ensures
        result is Err,
        result->Err_0@ == Problem::Lower(message@),
{
    Err(CompileError::Lower(message.to_owned()))
}

/// The data that a quoted form stands for.
fn lower_datum(form: &ast::Expr) -> (datum: Datum)
    ensures
        datum_data(datum) == quoted(form@),
    decreases *form,
{
    proof {
        lemma_list_form(*form);
    }
    match &form.kind {
        ast::ExprKind::Integer(value) => Datum::Integer(*value),
        ast::ExprKind::Boolean(value) => Datum::Boolean(*value),
        ast::ExprKind::Char(value) => Datum::Char(*value),
        ast::ExprKind::String(value) => Datum::String(value.clone()),
        ast::ExprKind::Symbol(value) => Datum::Symbol(value.clone()),
        ast::ExprKind::Quote(inner) => {
            let items: Vec<Datum> = vec![Datum::Symbol("quote".to_owned()), lower_datum(inner)];
            let datum = Datum::List { items, tail: None };
            proof {
                lemma_first_data(items@, 2);
                assert(first_data(items@, 2) =~= seq![Data::Symbol("quote"@), quoted(inner@)]);
            }
            datum
        },
        ast::ExprKind::List { items, tail } => {
            let mut row: Vec<Datum> = Vec::new();
            let mut index: usize = 0;
            while index < items.len()
                invariant
                    index <= items@.len(),
                    form.kind == (ast::ExprKind::List { items: *items, tail: *tail }),
                    row_data(row@) == first_quoted(forms_of(items@), index as nat),
                decreases items@.len() - index,
            {
                assert(forms_of(items@)[index as int] == items@[index as int]@);
                let ghost before = row@;
                assert(decreases_to!(*form => form.kind->List_items@[index as int]));
                row.push(lower_datum(&items[index]));
                assert(row_data(row@) =~= row_data(before).push(quoted(items@[index as int]@)));
                index = index + 1;
            }
            let tail = match tail {
                Some(tail) => Some(Box::new(lower_datum(tail))),
                None => None,
            };
            proof {
                lemma_first_data(row@, row@.len());
                assert(row_data(row@).subrange(0, row@.len() as int) =~= row_data(row@));
                assert(row_data(row@).len() == row@.len());
            }
            Datum::List { items: row, tail }
        },
    }
}

fn lower_parameters(form: &ast::Expr, start: usize) -> (result: Result<Formals, CompileError>)
    ensures
        match result {
            Ok(formals) => parameters(form@, start as nat) == Ok::<Params, Problem>(formals@),
            Err(error) => parameters(form@, start as nat) == Err::<Params, Problem>(error@),
        },
{
    proof {
        lemma_list_form(*form);
    }
    match &form.kind {
        ast::ExprKind::Symbol(name) => {
            let required: Vec<String> = Vec::new();
            assert(name_texts(required@) =~= Seq::<Seq<char>>::empty());
            Ok(Formals { required, rest: Some(name.clone()) })
        },
        ast::ExprKind::List { items, tail } => {
            let mut required: Vec<String> = Vec::new();
            let mut index: usize = start;
            assert(name_texts(required@) =~= Seq::<Seq<char>>::empty());
            while index < items.len()
                invariant
                    parameter_names(forms_of(items@), start as nat, Seq::empty()) == parameter_names(
                        forms_of(items@),
                        index as nat,
                        name_texts(required@),
                    ),
                    form@.kind is List,
                    list_items(form@) == forms_of(items@),
                decreases items@.len() - index,
            {
                assert(forms_of(items@)[index as int] == items@[index as int]@);
                match &items[index].kind {
                    ast::ExprKind::Symbol(name) => {
                        let ghost before = name_texts(required@);
                        required.push(name.clone());
                        assert(name_texts(required@) =~= before.push(name@));
                    },
                    _ => {
                        return lower_error("parameter must be an identifier");
                    },
                }
                index = index + 1;
            }
            match tail {
                None => Ok(Formals { required, rest: None }),
                Some(tail) => match &tail.kind {
                    ast::ExprKind::Symbol(name) => Ok(Formals { required, rest: Some(name.clone()) }),
                    _ => lower_error("rest parameter must be an identifier"),
                },
            }
        },
        _ => lower_error("parameters must be an identifier or a parameter list"),
    }
}

/// The core form of an expression.
pub fn lower_expr(form: &ast::Expr) -> (result: Result<Expr, CompileError>)
    ensures
        lowered_as(result, lowered(form@)),
    decreases *form, 30nat, 0nat,
{
    proof {
        lemma_list_form(*form);
    }
    match &form.kind {
        ast::ExprKind::Integer(value) => Ok(Expr { kind: ExprKind::Integer(*value) }),
        ast::ExprKind::Boolean(value) => Ok(Expr { kind: ExprKind::Boolean(*value) }),
        ast::ExprKind::Char(value) => Ok(Expr { kind: ExprKind::Char(*value) }),
        ast::ExprKind::String(value) => Ok(Expr { kind: ExprKind::String(value.clone()) }),
        ast::ExprKind::Symbol(name) => Ok(Expr { kind: ExprKind::Variable(name.clone()) }),
        ast::ExprKind::Quote(inner) => Ok(Expr { kind: ExprKind::Quote(lower_datum(inner)) }),
        ast::ExprKind::List { items, tail } => {
            if tail.is_some() {
                return lower_error("dotted list is not an expression");
            }
            if items.len() == 0 {
                return lower_error("empty list is not an expression");
            }
            assert(forms_of(items@)[0] == items@[0]@);
            match symbol_value(&items[0]) {
                Some(keyword) => lower_keyword(form, keyword),
                None => lower_call(form),
            }
        },
    }
}

fn lower_keyword(form: &ast::Expr, keyword: &str) -> (result: Result<Expr, CompileError>)
    requires
        form.kind is List,
        list_items(form@).len() > 0,
    ensures
        lowered_as(result, lowered_keyword(form@, keyword@)),
    decreases *form, 25nat, 0nat,
{
    proof {
        lemma_list_form(*form);
    }
    if let ast::ExprKind::List { items, tail: _ } = &form.kind {
        if same(keyword, "quote") {
            if items.len() == 2 {
                assert(forms_of(items@)[1] == items@[1]@);
                return Ok(Expr { kind: ExprKind::Quote(lower_datum(&items[1])) });
            }
            return lower_error("quote expects exactly one datum");
        }
        if same(keyword, "if") {
            return lower_if(form);
        }
        if same(keyword, "begin") {
            if items.len() == 1 {
                return Ok(Expr { kind: ExprKind::Unspecified });
            }
            return lower_body(form, 1);
        }
        if same(keyword, "lambda") {
            return lower_lambda(form);
        }
        if same(keyword, "let") {
            return lower_let(form, LetKind::Parallel);
        }
        if same(keyword, "let*") {
            return lower_let(form, LetKind::Sequential);
        }
        if same(keyword, "letrec") {
            return lower_let(form, LetKind::Recursive);
        }
        if same(keyword, "set!") {
            return lower_set(form);
        }
        if same(keyword, "delay") {
            return lower_single(form, keyword);
        }
        if same(keyword, "force") {
            return lower_single(form, keyword);
        }
        if same(keyword, "guard") {
            return lower_guard(form);
        }
        if same(keyword, "define") {
            return lower_error("define is only valid at the top level");
        }
    }
    lower_call(form)
}

fn lower_items(form: &ast::Expr, start: usize) -> (result: Result<Vec<Expr>, CompileError>)
    requires
        form.kind is List,
    ensures
        match result {
            Ok(exprs) => lowered_items(form@, start as nat, Seq::empty()) == Ok::<Seq<Core>, Problem>(
                row_cores(exprs@),
            ),
            Err(error) => lowered_items(form@, start as nat, Seq::empty()) == Err::<Seq<Core>, Problem>(error@),
        },
    decreases *form, 10nat, 0nat,
{
    proof {
        lemma_list_form(*form);
    }
    let mut exprs: Vec<Expr> = Vec::new();
    assert(row_cores(exprs@) =~= Seq::<Core>::empty());
    if let ast::ExprKind::List { items, tail } = &form.kind {
        let mut index: usize = start;
        while index < items.len()
            invariant
                form.kind == (ast::ExprKind::List { items: *items, tail: *tail }),
                list_items(form@) == forms_of(items@),
                lowered_items(form@, start as nat, Seq::empty()) == lowered_items(
                    form@,
                    index as nat,
                    row_cores(exprs@),
                ),
            decreases items@.len() - index,
        {
            assert(forms_of(items@)[index as int] == items@[index as int]@);
            let expr = lower_expr(&items[index])?;
            let ghost before = row_cores(exprs@);
            let ghost core = expr_core(expr);
            exprs.push(expr);
            assert(row_cores(exprs@) =~= before.push(core));
            index = index + 1;
        }
    }
    Ok(exprs)
}

fn lower_body(form: &ast::Expr, start: usize) -> (result: Result<Expr, CompileError>)
    requires
        form.kind is List,
    ensures
        lowered_as(result, lowered_body(form@, start as nat)),
    decreases *form, 20nat, 0nat,
{
    let mut exprs = lower_items(form, start)?;
    let ghost cores = row_cores(exprs@);
    assert(cores.len() == exprs@.len());
    if exprs.len() == 0 {
        return lower_error("body must not be empty");
    }
    if exprs.len() == 1 {
        let first = exprs.remove(0);
        assert(expr_core(first) == cores[0]);
        return Ok(first);
    }
    proof {
        lemma_first_cores(exprs@, exprs@.len());
        assert(cores.subrange(0, exprs@.len() as int) =~= cores);
    }
    Ok(Expr { kind: ExprKind::Begin(exprs) })
}

fn lower_call(form: &ast::Expr) -> (result: Result<Expr, CompileError>)
    requires
        form.kind is List,
    ensures
        lowered_as(result, lowered_call(form@)),
    decreases *form, 20nat, 0nat,
{
    proof {
        lemma_list_form(*form);
    }
    if let ast::ExprKind::List { items, tail: _ } = &form.kind {
        if items.len() > 0 {
            assert(forms_of(items@)[0] == items@[0]@);
            let callee = lower_expr(&items[0])?;
            let args = lower_items(form, 1)?;
            proof {
                lemma_first_cores(args@, args@.len());
                assert(row_cores(args@).subrange(0, args@.len() as int) =~= row_cores(args@));
            }
            return Ok(Expr { kind: ExprKind::Call { callee: Box::new(callee), args } });
        }
    }
    lower_error("empty list is not an expression")
}

fn lower_if(form: &ast::Expr) -> (result: Result<Expr, CompileError>)
    requires
        form.kind is List,
    ensures
        lowered_as(result, lowered_if(form@)),
    decreases *form, 20nat, 0nat,
{
    proof {
        lemma_list_form(*form);
    }
    if let ast::ExprKind::List { items, tail: _ } = &form.kind {
        if items.len() == 3 || items.len() == 4 {
            assert(forms_of(items@)[1] == items@[1]@);
            assert(forms_of(items@)[2] == items@[2]@);
            let condition = Box::new(lower_expr(&items[1])?);
            let then_branch = Box::new(lower_expr(&items[2])?);
            let else_branch = if items.len() == 4 {
                assert(forms_of(items@)[3] == items@[3]@);
                Box::new(lower_expr(&items[3])?)
            } else {
                let nothing = Expr { kind: ExprKind::Unspecified };
                assert(expr_core(nothing) == Core::Unspecified);
                Box::new(nothing)
            };
            return Ok(Expr { kind: ExprKind::If { condition, then_branch, else_branch } });
        }
    }
    lower_error("if expects a condition and one or two branches")
}

fn lower_lambda(form: &ast::Expr) -> (result: Result<Expr, CompileError>)
    requires
        form.kind is List,
    ensures
        lowered_as(result, lowered_lambda(form@)),
    decreases *form, 22nat, 0nat,
{
    proof {
        lemma_list_form(*form);
    }
    if let ast::ExprKind::List { items, tail: _ } = &form.kind {
        if items.len() >= 3 {
            assert(forms_of(items@)[1] == items@[1]@);
            let formals = lower_parameters(&items[1], 0)?;
            let body = lower_body(form, 2)?;
            return Ok(Expr { kind: ExprKind::Lambda { formals, body: Box::new(body) } });
        }
    }
    lower_error("lambda expects parameters and a body")
}

fn lower_bindings(form: &ast::Expr) -> (result: Result<Vec<Binding>, CompileError>)
    requires
        form.kind is List,
    ensures
        match result {
            Ok(bindings) => lowered_bindings(form@, 0, Seq::empty(), Seq::empty()) == Ok::<
                (Seq<Seq<char>>, Seq<Core>),
                Problem,
            >((binding_names(bindings@), binding_values(bindings@))),
            Err(error) => lowered_bindings(form@, 0, Seq::empty(), Seq::empty()) == Err::<
                (Seq<Seq<char>>, Seq<Core>),
                Problem,
            >(error@),
        },
    decreases *form, 10nat, 0nat,
{
    proof {
        lemma_list_form(*form);
    }
    let mut bindings: Vec<Binding> = Vec::new();
    assert(binding_names(bindings@) =~= Seq::<Seq<char>>::empty());
    assert(binding_values(bindings@) =~= Seq::<Core>::empty());
    if let ast::ExprKind::List { items, tail } = &form.kind {
        let mut index: usize = 0;
        while index < items.len()
            invariant
                form.kind == (ast::ExprKind::List { items: *items, tail: *tail }),
                list_items(form@) == forms_of(items@),
                lowered_bindings(form@, 0, Seq::empty(), Seq::empty()) == lowered_bindings(
                    form@,
                    index as nat,
                    binding_names(bindings@),
                    binding_values(bindings@),
                ),
            decreases items@.len() - index,
        {
            let item = &items[index];
            assert(forms_of(items@)[index as int] == item@);
            proof {
                lemma_list_form(*item);
            }
            match &item.kind {
                ast::ExprKind::List { items: parts, tail: None } if parts.len() == 2 => {
                    assert(forms_of(parts@)[0] == parts@[0]@);
                    assert(forms_of(parts@)[1] == parts@[1]@);
                    match &parts[0].kind {
                        ast::ExprKind::Symbol(name) => {
                            let value = lower_expr(&parts[1])?;
                            let ghost names = binding_names(bindings@);
                            let ghost values = binding_values(bindings@);
                            let ghost core = expr_core(value);
                            bindings.push(Binding { name: name.clone(), value });
                            assert(binding_names(bindings@) =~= names.push(name@));
                            assert(binding_values(bindings@) =~= values.push(core));
                        },
                        _ => {
                            return lower_error("binding must hold an identifier and a value");
                        },
                    }
                },
                _ => {
                    return lower_error("binding must hold an identifier and a value");
                },
            }
            index = index + 1;
        }
    }
    Ok(bindings)
}

fn lower_let(form: &ast::Expr, kind: LetKind) -> (result: Result<Expr, CompileError>)
    requires
        form.kind is List,
    ensures
        lowered_as(result, lowered_let(form@, kind)),
    decreases *form, 22nat, 0nat,
{
    proof {
        lemma_list_form(*form);
    }
    if let ast::ExprKind::List { items, tail: _ } = &form.kind {
        if items.len() >= 3 {
            assert(forms_of(items@)[1] == items@[1]@);
            proof {
                lemma_list_form(items@[1]);
            }
            match &items[1].kind {
                ast::ExprKind::List { items: _, tail: None } => {},
                _ => {
                    return lower_error("bindings must be a list");
                },
            }
            let bindings = lower_bindings(&items[1])?;
            let body = Box::new(lower_body(form, 2)?);
            proof {
                lemma_first_values(bindings@, bindings@.len());
                assert(binding_values(bindings@).subrange(0, bindings@.len() as int) =~= binding_values(
                    bindings@,
                ));
            }
            let kind = match kind {
                LetKind::Parallel => ExprKind::Let { bindings, body },
                LetKind::Sequential => ExprKind::LetStar { bindings, body },
                LetKind::Recursive => ExprKind::LetRec { bindings, body },
            };
            return Ok(Expr { kind });
        }
    }
    lower_error("let expects bindings and a body")
}

fn lower_set(form: &ast::Expr) -> (result: Result<Expr, CompileError>)
    requires
        form.kind is List,
    ensures
        lowered_as(result, lowered_set(form@)),
    decreases *form, 20nat, 0nat,
{
    proof {
        lemma_list_form(*form);
    }
    if let ast::ExprKind::List { items, tail: _ } = &form.kind {
        if items.len() == 3 {
            assert(forms_of(items@)[1] == items@[1]@);
            assert(forms_of(items@)[2] == items@[2]@);
            if let Some(name) = symbol_value(&items[1]) {
                let value = lower_expr(&items[2])?;
                return Ok(
                    Expr { kind: ExprKind::Assign { name: name.to_owned(), value: Box::new(value) } },
                );
            }
        }
    }
    lower_error("set! expects an identifier and a value")
}

fn lower_single(form: &ast::Expr, keyword: &str) -> (result: Result<Expr, CompileError>)
    requires
        form.kind is List,
    ensures
        lowered_as(result, lowered_single(form@, keyword@)),
    decreases *form, 20nat, 0nat,
{
    proof {
        lemma_list_form(*form);
    }
    if let ast::ExprKind::List { items, tail: _ } = &form.kind {
        if items.len() == 2 {
            assert(forms_of(items@)[1] == items@[1]@);
            let inner = Box::new(lower_expr(&items[1])?);
            if same(keyword, "delay") {
                return Ok(Expr { kind: ExprKind::Delay(inner) });
            }
            return Ok(Expr { kind: ExprKind::Force(inner) });
        }
    }
    Err(CompileError::Lower(join(keyword, " expects exactly one expression")))
}

fn lower_clauses(form: &ast::Expr, index: usize, name: &str) -> (result: Result<Expr, CompileError>)
    requires
        form.kind is List,
        index <= list_items(form@).len(),
    ensures
        lowered_as(result, lowered_clauses(form@, index as nat, name@)),
    decreases *form, 10nat, list_items(form@).len() - index,
{
    proof {
        lemma_list_form(*form);
    }
    if let ast::ExprKind::List { items, tail: _ } = &form.kind {
        if index < items.len() {
            let clause = &items[index];
            assert(forms_of(items@)[index as int] == clause@);
            proof {
                lemma_list_form(*clause);
            }
            match &clause.kind {
                ast::ExprKind::List { items: parts, tail: None } if parts.len() >= 2 => {
                    assert(forms_of(parts@)[0] == parts@[0]@);
                    if is_symbol(&parts[0], "else") {
                        if index + 1 == items.len() {
                            return lower_body(clause, 1);
                        }
                        return lower_error("else must be the last guard clause");
                    }
                    let condition = Box::new(lower_expr(&parts[0])?);
                    let then_branch = Box::new(lower_body(clause, 1)?);
                    let else_branch = Box::new(lower_clauses(form, index + 1, name)?);
                    return Ok(Expr { kind: ExprKind::If { condition, then_branch, else_branch } });
                },
                _ => {
                    return lower_error("guard clause must hold a test and a body");
                },
            }
        }
    }
    let raise = Expr { kind: ExprKind::Variable("raise".to_owned()) };
    let args: Vec<Expr> = vec![Expr { kind: ExprKind::Variable(name.to_owned()) }];
    proof {
        assert(expr_core(raise) == Core::Variable("raise"@));
        assert(expr_core(args@[0]) == Core::Variable(name@));
        lemma_first_cores(args@, 1);
        assert(first_cores(args@, 1) =~= seq![Core::Variable(name@)]);
    }
    Ok(Expr { kind: ExprKind::Call { callee: Box::new(raise), args } })
}

fn lower_guard(form: &ast::Expr) -> (result: Result<Expr, CompileError>)
    requires
        form.kind is List,
    ensures
        lowered_as(result, lowered_guard(form@)),
    decreases *form, 22nat, 0nat,
{
    proof {
        lemma_list_form(*form);
    }
    if let ast::ExprKind::List { items, tail: _ } = &form.kind {
        if items.len() >= 3 {
            assert(forms_of(items@)[1] == items@[1]@);
            proof {
                lemma_list_form(items@[1]);
            }
            match &items[1].kind {
                ast::ExprKind::List { items: parts, tail: None } if parts.len() > 0 => {
                    assert(forms_of(parts@)[0] == parts@[0]@);
                    match symbol_value(&parts[0]) {
                        Some(name) => {
                            let handler = Box::new(lower_clauses(&items[1], 1, name)?);
                            let body = Box::new(lower_body(form, 2)?);
                            return Ok(
                                Expr { kind: ExprKind::Guard { name: name.to_owned(), handler, body } },
                            );
                        },
                        None => {},
                    }
                },
                _ => {},
            }
            return lower_error("guard clauses must start with an identifier");
        }
    }
    lower_error("guard expects clauses and a body")
}

/// Whether lowering a form at the top level did what is expected of it.
pub open spec fn item_lowered_as(result: Result<TopLevel, CompileError>, expected: Result<CoreItem, Problem>) -> bool {
    match result {
        Ok(item) => expected == Ok::<CoreItem, Problem>(item_core(item)),
        Err(error) => expected == Err::<CoreItem, Problem>(error@),
    }
}

fn lower_definition(form: &ast::Expr) -> (result: Result<TopLevel, CompileError>)
    requires
        form.kind is List,
    ensures
        item_lowered_as(result, lowered_definition(form@)),
{
    proof {
        lemma_list_form(*form);
    }
    if let ast::ExprKind::List { items, tail: _ } = &form.kind {
        if items.len() >= 3 {
            assert(forms_of(items@)[1] == items@[1]@);
            assert(forms_of(items@)[2] == items@[2]@);
            proof {
                lemma_list_form(items@[1]);
            }
            match &items[1].kind {
                ast::ExprKind::Symbol(name) => {
                    if items.len() != 3 {
                        return lower_error("define of an identifier expects exactly one value");
                    }
                    let value = lower_expr(&items[2])?;
                    return Ok(TopLevel::Definition { name: name.clone(), value });
                },
                ast::ExprKind::List { items: signature, tail: _ } => {
                    if signature.len() > 0 {
                        assert(forms_of(signature@)[0] == signature@[0]@);
                        if let Some(name) = symbol_value(&signature[0]) {
                            let formals = lower_parameters(&items[1], 1)?;
                            let body = lower_body(form, 2)?;
                            return Ok(
                                TopLevel::Procedure(Procedure { name: name.to_owned(), formals, body }),
                            );
                        }
                    }
                    return lower_error("define target must start with an identifier");
                },
                _ => {
                    return lower_error("define target must be an identifier or a parameter list");
                },
            }
        }
    }
    lower_error("define expects a target and a value")
}

fn lower_item(form: &ast::Expr) -> (result: Result<TopLevel, CompileError>)
    ensures
        item_lowered_as(result, lowered_item(form@)),
{
    proof {
        lemma_list_form(*form);
    }
    match &form.kind {
        ast::ExprKind::List { items, tail: None } if items.len() > 0 => {
            assert(forms_of(items@)[0] == items@[0]@);
            if is_symbol(&items[0], "define") {
                return lower_definition(form);
            }
        },
        _ => {},
    }
    let expr = lower_expr(form)?;
    Ok(TopLevel::Expression(expr))
}

/// The core forms of a program.
pub fn lower_program(program: &ast::Program) -> (result: Result<Program, CompileError>)
    ensures
        match result {
            Ok(lowered) => lowered_program(forms_of(program.forms@), 0, Seq::empty()) == Ok::<
                Seq<CoreItem>,
                Problem,
            >(row_items(lowered.items@)),
            Err(error) => lowered_program(forms_of(program.forms@), 0, Seq::empty()) == Err::<
                Seq<CoreItem>,
                Problem,
            >(error@),
        },
{
    let mut items: Vec<TopLevel> = Vec::new();
    let mut index: usize = 0;
    assert(row_items(items@) =~= Seq::<CoreItem>::empty());
    while index < program.forms.len()
        invariant
            index <= program.forms@.len(),
            lowered_program(forms_of(program.forms@), 0, Seq::empty()) == lowered_program(
                forms_of(program.forms@),
                index as nat,
                row_items(items@),
            ),
        decreases program.forms@.len() - index,
    {
        assert(forms_of(program.forms@)[index as int] == program.forms@[index as int]@);
        let item = lower_item(&program.forms[index])?;
        let ghost before = row_items(items@);
        let ghost core = item_core(item);
        items.push(item);
        assert(row_items(items@) =~= before.push(core));
        index = index + 1;
    }
    Ok(Program { items })
}

} // verus!
