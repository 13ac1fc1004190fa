//! How expansion can end, and where its new names come from.
use crate::error::{CompileError, Problem};
use crate::frontend::ast::{forms_of, Expr, Form};
use crate::names::name_texts;
use crate::text::{decimal, decimal_text, join, join3};
use vstd::prelude::*;

verus! {

broadcast use vstd::seq_lib::group_seq_properties;

/// Why expansion stopped before its end.
#[derive(Debug)]
pub enum Halt {
    /// The program is wrong.
    Failed(CompileError),
    /// Macros expand to macros more often than was allowed, or there are no new names left.
    Exhausted,
    /// It must be known first what the file of a library holds.
    Needs(Vec<String>),
}

/// The meaning of a `Halt`.
pub enum Stop {
    Failed(Problem),
    Exhausted,
    Needs(Seq<Seq<char>>),
}

impl View for Halt {
    type V = Stop;

    open spec fn view(&self) -> Stop {
        match *self {
            Halt::Failed(error) => Stop::Failed(error@),
            Halt::Exhausted => Stop::Exhausted,
            Halt::Needs(name) => Stop::Needs(name_texts(name@)),
        }
    }
}

/// What expansion leads to: how many new names have been given out, and a result.
pub type Growth<T> = Result<(nat, T), Stop>;

/// Whether a function did what is expected of it.
pub open spec fn grown<V: View>(result: Result<V, Halt>, after: nat, expected: Growth<V::V>) -> bool {
    match result {
        Ok(value) => expected == Ok::<(nat, V::V), Stop>((after, value@)),
        Err(halt) => expected == Err::<(nat, V::V), Stop>(halt@),
    }
}

/// The same for a row of forms.
pub open spec fn grown_row(result: Result<Vec<Expr>, Halt>, after: nat, expected: Growth<Seq<Form>>) -> bool {
    match result {
        Ok(row) => expected == Ok::<(nat, Seq<Form>), Stop>((after, forms_of(row@))),
        Err(halt) => expected == Err::<(nat, Seq<Form>), Stop>(halt@),
    }
}

/// A failure as a reason to stop.
pub fn halted<T>(result: Result<T, CompileError>) -> (lifted: Result<T, Halt>)
    ensures
        match result {
            Ok(value) => lifted == Ok::<T, Halt>(value),
            Err(error) => lifted is Err && lifted->Err_0@ == Stop::Failed(error@),
        },
{
    match result {
        Ok(value) => Ok(value),
        Err(error) => Err(Halt::Failed(error)),
    }
}

/// A new name, made from a prefix, a name and the number of the new name.
#[verifier::opaque]
pub open spec fn fresh_name(prefix: Seq<char>, base: Seq<char>, counter: nat) -> Growth<Seq<char>> {
    if counter >= usize::MAX {
        Err(Stop::Exhausted)
    } else {
        Ok((counter + 1, prefix + base + "_"@ + decimal_text(counter)))
    }
}

/// The source of new names.
pub struct NameSource {
    pub counter: usize,
}

impl View for NameSource {
    type V = nat;

    open spec fn view(&self) -> nat {
        self.counter as nat
    }
}

impl NameSource {
    fn next(&mut self, prefix: &str, base: &str) -> (result: Result<String, Halt>)
        ensures
            grown(result, final(self)@, fresh_name(prefix@, base@, old(self)@)),
    {
        reveal(fresh_name);
        if self.counter == usize::MAX {
            return Err(Halt::Exhausted);
        }
        let number = decimal(self.counter);
        let start = join3(prefix, base, "_");
        let name = join(start.as_str(), number.as_str());
        self.counter = self.counter + 1;
        Ok(name)
    }

    /// The new name of a binder that a template introduces.
    pub fn next_macro_gensym(&mut self, base: &str) -> (result: Result<String, Halt>)
        ensures
            grown(result, final(self)@, fresh_name("__macro_"@, base@, old(self)@)),
    {
        self.next("__macro_", base)
    }

    /// The new name under which a template refers to a definition.
    pub fn next_macro_reference_name(&mut self, base: &str) -> (result: Result<String, Halt>)
        ensures
            grown(result, final(self)@, fresh_name("__macro_ref_"@, base@, old(self)@)),
    {
        self.next("__macro_ref_", base)
    }
}

} // verus!
