//! What core forms mean, as contracts speak of them.
use crate::middle::hir::{binding_names, Binding, Datum, Expr, ExprKind, Params, TopLevel};
use vstd::prelude::*;

verus! {

broadcast use vstd::seq_lib::group_seq_properties;

/// In which order bindings see each other.
#[derive(Clone, Copy, PartialEq, Eq, Structural)]
pub enum LetKind {
    /// No binding sees another.
    Parallel,
    /// Each binding sees those before it.
    Sequential,
    /// Each binding sees all of them.
    Recursive,
}

/// The meaning of an `Expr`.
pub enum Core {
    Unspecified,
    Integer(i64),
    Boolean(bool),
    Char(char),
    Text(Seq<char>),
    Variable(Seq<char>),
    Assign { name: Seq<char>, value: Box<Core> },
    Begin(Seq<Core>),
    Let { kind: LetKind, names: Seq<Seq<char>>, values: Seq<Core>, body: Box<Core> },
    Guard { name: Seq<char>, handler: Box<Core>, body: Box<Core> },
    Delay(Box<Core>),
    Force(Box<Core>),
    If { condition: Box<Core>, then_branch: Box<Core>, else_branch: Box<Core> },
    Call { callee: Box<Core>, args: Seq<Core> },
    Lambda { formals: Params, body: Box<Core> },
    Quote(Data),
}

/// The meaning of a `Datum`.
pub enum Data {
    Integer(i64),
    Boolean(bool),
    Char(char),
    Text(Seq<char>),
    Symbol(Seq<char>),
    List { items: Seq<Data>, tail: Option<Box<Data>> },
}

/// The meaning of a `TopLevel`.
pub enum CoreItem {
    Definition { name: Seq<char>, value: Core },
    Procedure { name: Seq<char>, formals: Params, body: Core },
    Expression(Core),
}

/// The meaning of quoted data.
pub open spec fn datum_data(datum: Datum) -> Data
    decreases datum, 0nat,
{
    match datum {
        Datum::Integer(value) => Data::Integer(value),
        Datum::Boolean(value) => Data::Boolean(value),
        Datum::Char(value) => Data::Char(value),
        Datum::String(value) => Data::Text(value@),
        Datum::Symbol(value) => Data::Symbol(value@),
        Datum::List { items, tail } => Data::List {
            items: first_data(items@, items@.len()),
            tail: match tail {
                Some(tail) => Some(Box::new(datum_data(*tail))),
                None => None,
            },
        },
    }
}

/// The meaning of the first `count` of a row of data.
pub open spec fn first_data(row: Seq<Datum>, count: nat) -> Seq<Data>
    decreases row, count,
{
    if count == 0 || count > row.len() {
        Seq::empty()
    } else {
        first_data(row, (count - 1) as nat).push(datum_data(row[count - 1]))
    }
}

/// The meaning of a row of data.
pub open spec fn row_data(row: Seq<Datum>) -> Seq<Data> {
    row.map_values(|datum: Datum| datum_data(datum))
}

/// The meaning of a core form.
pub open spec fn expr_core(expr: Expr) -> Core
    decreases expr, 0nat,
{
    match expr.kind {
        ExprKind::Unspecified => Core::Unspecified,
        ExprKind::Integer(value) => Core::Integer(value),
        ExprKind::Boolean(value) => Core::Boolean(value),
        ExprKind::Char(value) => Core::Char(value),
        ExprKind::String(value) => Core::Text(value@),
        ExprKind::Variable(name) => Core::Variable(name@),
        ExprKind::Assign { name, value } => Core::Assign { name: name@, value: Box::new(expr_core(*value)) },
        ExprKind::Begin(exprs) => Core::Begin(first_cores(exprs@, exprs@.len())),
        ExprKind::Let { bindings, body } => Core::Let {
            kind: LetKind::Parallel,
            names: binding_names(bindings@),
            values: first_values(bindings@, bindings@.len()),
            body: Box::new(expr_core(*body)),
        },
        ExprKind::LetStar { bindings, body } => Core::Let {
            kind: LetKind::Sequential,
            names: binding_names(bindings@),
            values: first_values(bindings@, bindings@.len()),
            body: Box::new(expr_core(*body)),
        },
        ExprKind::LetRec { bindings, body } => Core::Let {
            kind: LetKind::Recursive,
            names: binding_names(bindings@),
            values: first_values(bindings@, bindings@.len()),
            body: Box::new(expr_core(*body)),
        },
        ExprKind::Guard { name, handler, body } => Core::Guard {
            name: name@,
            handler: Box::new(expr_core(*handler)),
            body: Box::new(expr_core(*body)),
        },
        ExprKind::Delay(inner) => Core::Delay(Box::new(expr_core(*inner))),
        ExprKind::Force(inner) => Core::Force(Box::new(expr_core(*inner))),
        ExprKind::If { condition, then_branch, else_branch } => Core::If {
            condition: Box::new(expr_core(*condition)),
            then_branch: Box::new(expr_core(*then_branch)),
            else_branch: Box::new(expr_core(*else_branch)),
        },
        ExprKind::Call { callee, args } => Core::Call {
            callee: Box::new(expr_core(*callee)),
            args: first_cores(args@, args@.len()),
        },
        ExprKind::Lambda { formals, body } => Core::Lambda {
            formals: formals@,
            body: Box::new(expr_core(*body)),
        },
        ExprKind::Quote(datum) => Core::Quote(datum_data(datum)),
    }
}

/// The meaning of the first `count` of a row of core forms.
pub open spec fn first_cores(exprs: Seq<Expr>, count: nat) -> Seq<Core>
    decreases exprs, count,
{
    if count == 0 || count > exprs.len() {
        Seq::empty()
    } else {
        first_cores(exprs, (count - 1) as nat).push(expr_core(exprs[count - 1]))
    }
}

/// The meaning of the first `count` values of a row of bindings.
pub open spec fn first_values(bindings: Seq<Binding>, count: nat) -> Seq<Core>
    decreases bindings, count,
{
    if count == 0 || count > bindings.len() {
        Seq::empty()
    } else {
        first_values(bindings, (count - 1) as nat).push(expr_core(bindings[count - 1].value))
    }
}

/// The meaning of a row of core forms.
pub open spec fn row_cores(exprs: Seq<Expr>) -> Seq<Core> {
    exprs.map_values(|expr: Expr| expr_core(expr))
}

/// The meaning of the values of a row of bindings.
pub open spec fn binding_values(bindings: Seq<Binding>) -> Seq<Core> {
    bindings.map_values(|binding: Binding| expr_core(binding.value))
}

/// The meaning of a top-level item.
pub open spec fn item_core(item: TopLevel) -> CoreItem {
    match item {
        TopLevel::Definition { name, value } => CoreItem::Definition { name: name@, value: expr_core(value) },
        TopLevel::Procedure(procedure) => CoreItem::Procedure {
            name: procedure.name@,
            formals: procedure.formals@,
            body: expr_core(procedure.body),
        },
        TopLevel::Expression(expr) => CoreItem::Expression(expr_core(expr)),
    }
}

/// The meaning of a row of top-level items.
pub open spec fn row_items(items: Seq<TopLevel>) -> Seq<CoreItem> {
    items.map_values(|item: TopLevel| item_core(item))
}

/// The meaning of a row of data is that of its elements.
pub proof fn lemma_first_data(row: Seq<Datum>, count: nat)
    requires
        count <= row.len(),
    ensures
        first_data(row, count) == row_data(row).subrange(0, count as int),
    decreases count,
{
    if count > 0 {
        lemma_first_data(row, (count - 1) as nat);
    }
    assert(first_data(row, count) =~= row_data(row).subrange(0, count as int));
}

/// The meaning of a row of core forms is that of its elements.
pub proof fn lemma_first_cores(exprs: Seq<Expr>, count: nat)
    requires
        count <= exprs.len(),
    ensures
        first_cores(exprs, count) == row_cores(exprs).subrange(0, count as int),
    decreases count,
{
    if count > 0 {
        lemma_first_cores(exprs, (count - 1) as nat);
    }
    assert(first_cores(exprs, count) =~= row_cores(exprs).subrange(0, count as int));
}

/// The meaning of the values of a row of bindings is that of each.
pub proof fn lemma_first_values(bindings: Seq<Binding>, count: nat)
    requires
        count <= bindings.len(),
    ensures
        first_values(bindings, count) == binding_values(bindings).subrange(0, count as int),
    decreases count,
{
    if count > 0 {
        lemma_first_values(bindings, (count - 1) as nat);
    }
    assert(first_values(bindings, count) =~= binding_values(bindings).subrange(0, count as int));
}

} // verus!
