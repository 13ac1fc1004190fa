//! Core forms: what a program is made of once macros are gone.
use crate::names::{clone_names, name_texts};
use vstd::prelude::*;

verus! {

broadcast use vstd::seq_lib::group_seq_properties;

/// A program: its top-level items in the order of the source.
pub struct Program {
    pub items: Vec<TopLevel>,
}

pub enum TopLevel {
    Definition { name: String, value: Expr },
    Procedure(Procedure),
    Expression(Expr),
}

/// A named procedure at the top level.
pub struct Procedure {
    pub name: String,
    pub formals: Formals,
    pub body: Expr,
}

/// The parameters of a procedure: those that every call must supply, and the one that takes
/// the list of all further arguments.
pub struct Formals {
    pub required: Vec<String>,
    pub rest: Option<String>,
}

/// A name and the expression that gives its value.
pub struct Binding {
    pub name: String,
    pub value: Expr,
}

pub struct Expr {
    pub kind: ExprKind,
}

pub enum ExprKind {
    Unspecified,
    Integer(i64),
    Boolean(bool),
    Char(char),
    String(String),
    Variable(String),
    Assign { name: String, value: Box<Expr> },
    Begin(Vec<Expr>),
    Let { bindings: Vec<Binding>, body: Box<Expr> },
    LetStar { bindings: Vec<Binding>, body: Box<Expr> },
    LetRec { bindings: Vec<Binding>, body: Box<Expr> },
    Guard { name: String, handler: Box<Expr>, body: Box<Expr> },
    Delay(Box<Expr>),
    Force(Box<Expr>),
    If { condition: Box<Expr>, then_branch: Box<Expr>, else_branch: Box<Expr> },
    Call { callee: Box<Expr>, args: Vec<Expr> },
    Lambda { formals: Formals, body: Box<Expr> },
    Quote(Datum),
}

/// Quoted data. A list with a tail is a dotted list.
pub enum Datum {
    Integer(i64),
    Boolean(bool),
    Char(char),
    String(String),
    Symbol(String),
    List { items: Vec<Datum>, tail: Option<Box<Datum>> },
}

/// The meaning of a parameter list.
pub struct Params {
    pub required: Seq<Seq<char>>,
    pub rest: Option<Seq<char>>,
}

impl View for Formals {
    type V = Params;

    open spec fn view(&self) -> Params {
        Params {
            required: name_texts(self.required@),
            rest: match self.rest {
                Some(rest) => Some(rest@),
                None => None,
            },
        }
    }
}

/// The names that a parameter list binds, the rest parameter last.
pub open spec fn formal_names(formals: Params) -> Seq<Seq<char>> {
    match formals.rest {
        Some(rest) => formals.required.push(rest),
        None => formals.required,
    }
}

/// The names of a row of bindings.
pub open spec fn binding_names(bindings: Seq<Binding>) -> Seq<Seq<char>> {
    bindings.map_values(|binding: Binding| binding.name@)
}

impl Formals {
    /// The names that the parameter list binds, the rest parameter last.
    pub fn all_names(&self) -> (names: Vec<String>)
        ensures
            name_texts(names@) == formal_names(self@),
    {
        let mut names = clone_names(&self.required);
        match &self.rest {
            Some(rest) => {
                names.push(rest.clone());
                assert(name_texts(names@) =~= formal_names(self@));
            },
            None => {},
        }
        names
    }
}

/// The names of a row of bindings.
pub fn names_of_bindings(bindings: &Vec<Binding>) -> (names: Vec<String>)
    ensures
        name_texts(names@) == binding_names(bindings@),
{
    let mut names: Vec<String> = Vec::new();
    let mut index: usize = 0;
    while index < bindings.len()
        invariant
            index <= bindings@.len(),
            name_texts(names@) == binding_names(bindings@.subrange(0, index as int)),
        decreases bindings@.len() - index,
    {
        let ghost texts = name_texts(names@);
        names.push(bindings[index].name.clone());
        assert(name_texts(names@) =~= texts.push(bindings@[index as int].name@));
        assert(binding_names(bindings@.subrange(0, index + 1)) =~= binding_names(
            bindings@.subrange(0, index as int),
        ).push(bindings@[index as int].name@));
        index = index + 1;
    }
    assert(bindings@.subrange(0, bindings@.len() as int) =~= bindings@);
    names
}

} // verus!
