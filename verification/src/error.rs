//! The ways in which lexing, parsing, resolution and evaluation end early.

use vstd::prelude::*;

verus! {

/// A runtime error or a syntax error, with its message. A `return` is no error:
/// the evaluator carries it as work of its own kind, and it ends at the call
/// that it leaves.
pub enum Error {
    Runtime(String),
    Syntax(String),
}

/// The mathematical value of an [`Error`].
pub enum SpecError {
    Runtime(Seq<char>),
    Syntax(Seq<char>),
}

impl View for Error {
    type V = SpecError;

    open spec fn view(&self) -> SpecError {
        match self {
            Error::Runtime(message) => SpecError::Runtime(message@),
            Error::Syntax(message) => SpecError::Syntax(message@),
        }
    }
}

impl Clone for Error {
    fn clone(&self) -> (copy: Self)
        ensures
            copy@ == self@,
    {
        match self {
            Error::Runtime(message) => Error::Runtime(message.clone()),
            Error::Syntax(message) => Error::Syntax(message.clone()),
        }
    }
}

} // verus!
