//! Syntax trees, and where their parts stand in the source.
use vstd::prelude::*;

verus! {

broadcast use vstd::seq_lib::group_seq_properties;

/// A range of bytes of the source.
#[derive(Clone, Copy, Debug, PartialEq, Eq, Structural)]
pub struct Span {
    pub start: usize,
    pub end: usize,
}

/// The smallest range that holds two ranges.
pub open spec fn merged(left: Span, right: Span) -> Span {
    Span {
        start: if left.start <= right.start { left.start } else { right.start },
        end: if left.end >= right.end { left.end } else { right.end },
    }
}

impl Span {
    /// The smallest range that holds two ranges.
    pub fn merge(self, other: Span) -> (span: Span)
        ensures
            span == merged(self, other),
    {
        Span {
            start: if self.start <= other.start { self.start } else { other.start },
            end: if self.end >= other.end { self.end } else { other.end },
        }
    }
}

impl Default for Span {
    /// The empty range at the start of the source.
    fn default() -> (span: Span)
        ensures
            span == (Span { start: 0, end: 0 }),
    {
        Span { start: 0, end: 0 }
    }
}

/// A program: its forms in the order of the source.
#[derive(Debug)]
pub struct Program {
    pub forms: Vec<Expr>,
}

/// A form and where it stands.
#[derive(Debug)]
pub struct Expr {
    pub kind: ExprKind,
    pub span: Span,
}

/// A form. A list with a tail is a dotted list.
#[derive(Debug)]
pub enum ExprKind {
    Integer(i64),
    Boolean(bool),
    Char(char),
    String(String),
    Symbol(String),
    Quote(Box<Expr>),
    List { items: Vec<Expr>, tail: Option<Box<Expr>> },
}

/// The meaning of an `Expr`.
pub struct Form {
    pub kind: FormKind,
    pub span: Span,
}

/// The meaning of an `ExprKind`.
pub enum FormKind {
    Integer(i64),
    Boolean(bool),
    Char(char),
    Text(Seq<char>),
    Symbol(Seq<char>),
    Quote(Box<Form>),
    List { items: Seq<Form>, tail: Option<Box<Form>> },
}

/// The meaning of a form.
pub open spec fn expr_form(expr: Expr) -> Form
    decreases expr, 0nat,
{
    Form {
        kind: match expr.kind {
            ExprKind::Integer(value) => FormKind::Integer(value),
            ExprKind::Boolean(value) => FormKind::Boolean(value),
            ExprKind::Char(value) => FormKind::Char(value),
            ExprKind::String(value) => FormKind::Text(value@),
            ExprKind::Symbol(value) => FormKind::Symbol(value@),
            ExprKind::Quote(inner) => FormKind::Quote(Box::new(expr_form(*inner))),
            ExprKind::List { items, tail } => FormKind::List {
                items: first_forms(items@, items@.len()),
                tail: match tail {
                    Some(tail) => Some(Box::new(expr_form(*tail))),
                    None => None,
                },
            },
        },
        span: expr.span,
    }
}

/// The meaning of the first `count` of a row of forms.
pub open spec fn first_forms(exprs: Seq<Expr>, count: nat) -> Seq<Form>
    decreases exprs, count,
{
    if count == 0 || count > exprs.len() {
        Seq::empty()
    } else {
        first_forms(exprs, (count - 1) as nat).push(expr_form(exprs[count - 1]))
    }
}

/// The meaning of a row of forms.
pub open spec fn forms_of(exprs: Seq<Expr>) -> Seq<Form> {
    exprs.map_values(|expr: Expr| expr_form(expr))
}

impl View for Expr {
    type V = Form;

    open spec fn view(&self) -> Form {
        expr_form(*self)
    }
}

/// The meaning of a row of forms is that of its forms.
pub broadcast proof fn lemma_first_forms(exprs: Seq<Expr>, count: nat)
    requires
        count <= exprs.len(),
    ensures
        #[trigger] first_forms(exprs, count) == forms_of(exprs).subrange(0, count as int),
    decreases count,
{
    if count > 0 {
        lemma_first_forms(exprs, (count - 1) as nat);
    }
    assert(first_forms(exprs, count) =~= forms_of(exprs).subrange(0, count as int));
}

/// The meaning of a list.
pub proof fn lemma_list_form(expr: Expr)
    ensures
        match expr.kind {
            ExprKind::List { items, tail } => expr_form(expr).kind == (FormKind::List {
                items: forms_of(items@),
                tail: match tail {
                    Some(tail) => Some(Box::new(expr_form(*tail))),
                    None => None,
                },
            }),
            _ => true,
        },
{
    if let ExprKind::List { items, tail } = expr.kind {
        lemma_first_forms(items@, items@.len());
        assert(forms_of(items@).subrange(0, items@.len() as int) =~= forms_of(items@));
    }
}

} // verus!
