//! Taking syntax trees apart and putting them together.
use crate::error::{CompileError, Problem};
use crate::frontend::ast::{expr_form, forms_of, lemma_list_form, Expr, ExprKind, Form, FormKind, Span};
use crate::names::Duplicate;
use crate::text::{join, same};
use vstd::prelude::*;

verus! {

broadcast use vstd::seq_lib::group_seq_properties;

/// The meaning of a tail.
pub open spec fn tail_form(tail: Option<Box<Expr>>) -> Option<Box<Form>> {
    match tail {
        Some(tail) => Some(Box::new(expr_form(*tail))),
        None => None,
    }
}

/// The name of a symbol.
pub open spec fn symbol_of(form: Form) -> Option<Seq<char>> {
    match form.kind {
        FormKind::Symbol(name) => Some(name),
        _ => None,
    }
}

/// Whether a form is the symbol of the given name.
pub open spec fn is_the_symbol(form: Form, name: Seq<char>) -> bool {
    form.kind == FormKind::Symbol(name)
}

/// The items of a list that has no tail.
pub open spec fn proper_items(form: Form) -> Option<Seq<Form>> {
    match form.kind {
        FormKind::List { items, tail: None } => Some(items),
        _ => None,
    }
}

/// The items of a list; other forms have none.
pub open spec fn list_items(form: Form) -> Seq<Form> {
    match form.kind {
        FormKind::List { items, tail } => items,
        _ => Seq::empty(),
    }
}

/// The tail of a list that has one.
pub open spec fn list_tail(form: Form) -> Option<Box<Form>> {
    match form.kind {
        FormKind::List { items, tail } => tail,
        _ => None,
    }
}

/// The name of a symbol that must be one.
pub open spec fn required_symbol(form: Form, context: Seq<char>) -> Result<Seq<char>, Problem> {
    match form.kind {
        FormKind::Symbol(name) => Ok(name),
        _ => Err(Problem::Expand(context + " must be an identifier"@)),
    }
}

/// A symbol.
pub open spec fn symbol_form(name: Seq<char>, span: Span) -> Form {
    Form { kind: FormKind::Symbol(name), span }
}

/// A list without a tail.
pub open spec fn list_form(items: Seq<Form>, span: Span) -> Form {
    Form { kind: FormKind::List { items, tail: None }, span }
}

/// A list that may have a tail.
pub open spec fn dotted_form(items: Seq<Form>, tail: Option<Box<Form>>, span: Span) -> Form {
    Form { kind: FormKind::List { items, tail }, span }
}

/// A definition of one name as another.
pub open spec fn alias_form(alias: Seq<char>, internal: Seq<char>, span: Span) -> Form {
    list_form(seq![symbol_form("define"@, span), symbol_form(alias, span), symbol_form(internal, span)], span)
}

/// A failure of expansion.
pub fn expand_error<T>(message: &str) -> (result: Result<T, CompileError>)
    ensures
        result is Err,
        result->Err_0@ == Problem::Expand(message@),
{
    Err(CompileError::Expand(message.to_owned()))
}

/// A failure of expansion with a message that was put together.
pub fn expand_error_with<T>(message: String) -> (result: Result<T, CompileError>)
    ensures
        result is Err,
        result->Err_0@ == Problem::Expand(message@),
{
    Err(CompileError::Expand(message))
}

/// The items of a list that has no tail.
pub fn as_proper_list(expr: &Expr) -> (items: Option<&Vec<Expr>>)
    ensures
        match items {
            Some(items) => proper_items(expr@) == Some(forms_of(items@)) && expr.kind == (ExprKind::List {
                items: *items,
                tail: None,
            }),
            None => proper_items(expr@) is None,
        },
{
    proof {
        lemma_list_form(*expr);
    }
    match &expr.kind {
        ExprKind::List { items, tail: None } => Some(items),
        _ => None,
    }
}

/// The name of a symbol.
pub fn symbol_value(expr: &Expr) -> (name: Option<&str>)
    ensures
        match name {
            Some(name) => symbol_of(expr@) == Some(name@),
            None => symbol_of(expr@) is None,
        },
{
    match &expr.kind {
        ExprKind::Symbol(name) => Some(name.as_str()),
        _ => None,
    }
}

/// Whether a form is the symbol of the given name.
pub fn is_symbol(expr: &Expr, name: &str) -> (result: bool)
    ensures
        result == is_the_symbol(expr@, name@),
{
    match &expr.kind {
        ExprKind::Symbol(symbol) => same(symbol.as_str(), name),
        _ => false,
    }
}

/// The name of a symbol that must be one.
pub fn symbol_name(expr: &Expr, context: &str) -> (result: Result<String, CompileError>)
    ensures
        match result {
            Ok(name) => required_symbol(expr@, context@) == Ok::<Seq<char>, Problem>(name@),
            Err(error) => required_symbol(expr@, context@) == Err::<Seq<char>, Problem>(error@),
        },
{
    match &expr.kind {
        ExprKind::Symbol(name) => Ok(name.clone()),
        _ => expand_error_with(join(context, " must be an identifier")),
    }
}

/// A symbol.
pub fn symbol_expr(name: &str, span: Span) -> (expr: Expr)
    ensures
        expr@ == symbol_form(name@, span),
{
    Expr { kind: ExprKind::Symbol(name.to_owned()), span }
}

/// A list without a tail.
pub fn list_expr(items: Vec<Expr>, span: Span) -> (expr: Expr)
    ensures
        expr@ == list_form(forms_of(items@), span),
{
    let expr = Expr { kind: ExprKind::List { items, tail: None }, span };
    proof {
        lemma_list_form(expr);
    }
    expr
}

/// A list that may have a tail.
pub fn dotted_expr(items: Vec<Expr>, tail: Option<Box<Expr>>, span: Span) -> (expr: Expr)
    ensures
        expr@ == dotted_form(forms_of(items@), tail_form(tail), span),
{
    let expr = Expr { kind: ExprKind::List { items, tail }, span };
    proof {
        lemma_list_form(expr);
    }
    expr
}

/// A definition of one name as another.
pub fn make_alias_definition(alias: &str, internal: &str, span: Span) -> (expr: Expr)
    ensures
        expr@ == alias_form(alias@, internal@, span),
{
    let items: Vec<Expr> = vec![
        symbol_expr("define", span),
        symbol_expr(alias, span),
        symbol_expr(internal, span),
    ];
    assert(forms_of(items@) =~= seq![
        symbol_form("define"@, span),
        symbol_form(alias@, span),
        symbol_form(internal@, span),
    ]);
    list_expr(items, span)
}

/// A copy of a form.
pub fn clone_expr(expr: &Expr) -> (copy: Expr)
    ensures
        copy@ == expr@,
    decreases *expr, 0nat,
{
    let kind = match &expr.kind {
        ExprKind::Integer(value) => ExprKind::Integer(*value),
        ExprKind::Boolean(value) => ExprKind::Boolean(*value),
        ExprKind::Char(value) => ExprKind::Char(*value),
        ExprKind::String(value) => ExprKind::String(value.clone()),
        ExprKind::Symbol(value) => ExprKind::Symbol(value.clone()),
        ExprKind::Quote(inner) => ExprKind::Quote(Box::new(clone_expr(inner))),
        ExprKind::List { items, tail } => {
            let copies = clone_exprs(items, 0);
            let copied_tail = match tail {
                Some(tail) => Some(Box::new(clone_expr(tail))),
                None => None,
            };
            proof {
                assert(forms_of(items@).subrange(0, items@.len() as int) =~= forms_of(items@));
            }
            ExprKind::List { items: copies, tail: copied_tail }
        },
    };
    let copy = Expr { kind, span: expr.span };
    proof {
        lemma_list_form(*expr);
        lemma_list_form(copy);
    }
    copy
}

/// Copies of a row of forms from a place on.
pub fn clone_exprs(exprs: &Vec<Expr>, start: usize) -> (copies: Vec<Expr>)
    requires
        start <= exprs@.len(),
    ensures
        forms_of(copies@) == forms_of(exprs@).subrange(start as int, exprs@.len() as int),
    decreases exprs@, 1nat,
{
    let mut copies: Vec<Expr> = Vec::new();
    let mut index: usize = start;
    assert(forms_of(copies@) =~= forms_of(exprs@).subrange(start as int, start as int));
    while index < exprs.len()
        invariant
            start <= index <= exprs@.len(),
            forms_of(copies@) == forms_of(exprs@).subrange(start as int, index as int),
        decreases exprs@.len() - index,
    {
        let ghost before = forms_of(copies@);
        let copy = clone_expr(&exprs[index]);
        copies.push(copy);
        assert(forms_of(copies@) =~= before.push(copy@));
        assert(forms_of(exprs@).subrange(start as int, index + 1) =~= forms_of(exprs@).subrange(
            start as int,
            index as int,
        ).push(forms_of(exprs@)[index as int]));
        index = index + 1;
    }
    copies
}

/// A copy of a tail.
pub fn clone_tail(tail: &Option<Box<Expr>>) -> (copy: Option<Box<Expr>>)
    ensures
        tail_form(copy) == tail_form(*tail),
{
    match tail {
        Some(tail) => Some(Box::new(clone_expr(tail))),
        None => None,
    }
}

impl Duplicate for Expr {
    fn duplicate(&self) -> (copy: Self) {
        clone_expr(self)
    }
}

/// Whether two forms are the same, at the same place.
pub fn same_expr(left: &Expr, right: &Expr) -> (equal: bool)
    ensures
        equal == (left@ == right@),
    decreases *left, 0nat,
{
    proof {
        lemma_list_form(*left);
        lemma_list_form(*right);
    }
    if left.span != right.span {
        return false;
    }
    match (&left.kind, &right.kind) {
        (ExprKind::Integer(a), ExprKind::Integer(b)) => *a == *b,
        (ExprKind::Boolean(a), ExprKind::Boolean(b)) => *a == *b,
        (ExprKind::Char(a), ExprKind::Char(b)) => *a == *b,
        (ExprKind::String(a), ExprKind::String(b)) => same(a.as_str(), b.as_str()),
        (ExprKind::Symbol(a), ExprKind::Symbol(b)) => same(a.as_str(), b.as_str()),
        (ExprKind::Quote(a), ExprKind::Quote(b)) => same_expr(a, b),
        (ExprKind::List { items: a, tail: a_tail }, ExprKind::List { items: b, tail: b_tail }) => {
            if !same_exprs(a, b) {
                return false;
            }
            match (a_tail, b_tail) {
                (Some(a_tail), Some(b_tail)) => same_expr(a_tail, b_tail),
                (None, None) => true,
                _ => false,
            }
        },
        _ => false,
    }
}

fn same_exprs(left: &Vec<Expr>, right: &Vec<Expr>) -> (equal: bool)
    ensures
        equal == (forms_of(left@) == forms_of(right@)),
    decreases left@, 1nat,
{
    if left.len() != right.len() {
        assert(forms_of(left@).len() != forms_of(right@).len());
        return false;
    }
    let mut index: usize = 0;
    while index < left.len()
        invariant
            index <= left@.len(),
            left@.len() == right@.len(),
            forall|i: int| 0 <= i < index ==> forms_of(left@)[i] == forms_of(right@)[i],
        decreases left@.len() - index,
    {
        if !same_expr(&left[index], &right[index]) {
            assert(forms_of(left@)[index as int] != forms_of(right@)[index as int]);
            return false;
        }
        index = index + 1;
    }
    assert(forms_of(left@) =~= forms_of(right@));
    true
}

/// A row of forms.
pub struct ExprRow {
    pub items: Vec<Expr>,
}

impl View for ExprRow {
    type V = Seq<Form>;

    open spec fn view(&self) -> Seq<Form> {
        forms_of(self.items@)
    }
}

impl Duplicate for ExprRow {
    fn duplicate(&self) -> (copy: Self) {
        let items = clone_exprs(&self.items, 0);
        assert(forms_of(self.items@).subrange(0, self.items@.len() as int) =~= forms_of(self.items@));
        ExprRow { items }
    }
}

/// `first` with all of `rest` behind it.
pub fn prepend(first: Expr, rest: Vec<Expr>) -> (row: Vec<Expr>)
    ensures
        forms_of(row@) == seq![first@] + forms_of(rest@),
{
    let mut row = rest;
    row.insert(0, first);
    assert(forms_of(row@) =~= seq![first@] + forms_of(rest@));
    row
}

/// Two forms with all of `rest` behind them.
pub fn prepend_two(first: Expr, second: Expr, rest: Vec<Expr>) -> (row: Vec<Expr>)
    ensures
        forms_of(row@) == seq![first@, second@] + forms_of(rest@),
{
    let row = prepend(first, prepend(second, rest));
    assert(forms_of(row@) =~= seq![first@, second@] + forms_of(rest@));
    row
}

} // verus!
