//! Errors of the compiler.
use crate::text::{join, join3};
use vstd::prelude::*;

verus! {

/// What can go wrong between a source file and a compiled module.
#[derive(Debug)]
pub enum CompileError {
    Io { path: Option<String>, message: String },
    Usage(String),
    Lex(String),
    Parse(String),
    Expand(String),
    Lower(String),
    Codegen(String),
    Thread(String),
}

/// The meaning of a `CompileError`.
pub enum Problem {
    Io { path: Option<Seq<char>>, message: Seq<char> },
    Usage(Seq<char>),
    Lex(Seq<char>),
    Parse(Seq<char>),
    Expand(Seq<char>),
    Lower(Seq<char>),
    Codegen(Seq<char>),
    Thread(Seq<char>),
}

/// The characters of a path that may be missing.
pub open spec fn path_text(path: Option<String>) -> Option<Seq<char>> {
    match path {
        Some(path) => Some(path@),
        None => None,
    }
}

impl View for CompileError {
    type V = Problem;

    open spec fn view(&self) -> Problem {
        match *self {
            CompileError::Io { path, message } => Problem::Io { path: path_text(path), message: message@ },
            CompileError::Usage(message) => Problem::Usage(message@),
            CompileError::Lex(message) => Problem::Lex(message@),
            CompileError::Parse(message) => Problem::Parse(message@),
            CompileError::Expand(message) => Problem::Expand(message@),
            CompileError::Lower(message) => Problem::Lower(message@),
            CompileError::Codegen(message) => Problem::Codegen(message@),
            CompileError::Thread(message) => Problem::Thread(message@),
        }
    }
}

/// The text in which an error is shown.
pub open spec fn problem_text(problem: Problem) -> Seq<char> {
    match problem {
        Problem::Io { path, message } => match path {
            Some(path) => "io error for "@ + path + ": "@ + message,
            None => "io error: "@ + message,
        },
        Problem::Usage(message) => "usage error: "@ + message,
        Problem::Lex(message) => "lex error: "@ + message,
        Problem::Parse(message) => "parse error: "@ + message,
        Problem::Expand(message) => "expand error: "@ + message,
        Problem::Lower(message) => "lowering error: "@ + message,
        Problem::Codegen(message) => "codegen error: "@ + message,
        Problem::Thread(message) => "thread error: "@ + message,
    }
}

impl CompileError {
    /// An error of the system, with the path it is about where there is one.
    pub fn io(path: Option<String>, message: String) -> (error: CompileError)
        ensures
            error@ == (Problem::Io { path: path_text(path), message: message@ }),
    {
        CompileError::Io { path, message }
    }

    /// The text in which the error is shown.
    pub fn text(&self) -> (text: String)
        ensures
            text@ == problem_text(self@),
    {
        match self {
            CompileError::Io { path, message } => match path {
                Some(path) => {
                    let start = join3("io error for ", path.as_str(), ": ");
                    join(start.as_str(), message.as_str())
                },
                None => join("io error: ", message.as_str()),
            },
            CompileError::Usage(message) => join("usage error: ", message.as_str()),
            CompileError::Lex(message) => join("lex error: ", message.as_str()),
            CompileError::Parse(message) => join("parse error: ", message.as_str()),
            CompileError::Expand(message) => join("expand error: ", message.as_str()),
            CompileError::Lower(message) => join("lowering error: ", message.as_str()),
            CompileError::Codegen(message) => join("codegen error: ", message.as_str()),
            CompileError::Thread(message) => join("thread error: ", message.as_str()),
        }
    }
}

} // verus!
