//! The error type shared by the store and the front-end entry points.

use vstd::prelude::*;

use crate::ast::Clause;
use crate::ast::clause_eq;

verus! {

/// Why an operation on the knowledge base or a parse failed.
#[derive(Debug)]
pub enum Error {
    /// The clause handed to a retraction is not present in the store.
    NoSuchClause(Clause),
    /// The source text is not a well-formed program or statement; the
    /// payload describes the position of the failure.
    Parse(String),
}

impl Clone for Error {
    fn clone(&self) -> (r: Self)
        ensures
            r.deep_view() == self.deep_view(),
    {
        match self {
            Error::NoSuchClause(c) => Error::NoSuchClause(c.clone()),
            Error::Parse(msg) => Error::Parse(msg.clone()),
        }
    }
}

/// The mathematical value of an error.
#[verifier::ext_equal]
pub enum ErrorV {
    NoSuchClause(crate::ast::ClauseV),
    Parse(Seq<char>),
}

impl DeepView for Error {
    type V = ErrorV;

    open spec fn deep_view(&self) -> ErrorV {
        match self {
            Error::NoSuchClause(c) => ErrorV::NoSuchClause(c.deep_view()),
            Error::Parse(msg) => ErrorV::Parse(msg@),
        }
    }
}

impl PartialEq for Error {
    fn eq(&self, other: &Error) -> (r: bool) {
        match (self, other) {
            (Error::NoSuchClause(a), Error::NoSuchClause(b)) => clause_eq(a, b),
            (Error::Parse(a), Error::Parse(b)) => *a == *b,
            _ => false,
        }
    }
}

impl vstd::std_specs::cmp::PartialEqSpecImpl for Error {
    open spec fn obeys_eq_spec() -> bool {
        true
    }

    open spec fn eq_spec(&self, other: &Error) -> bool {
        self.deep_view() == other.deep_view()
    }
}

} // verus!
