//! Why an evaluation stopped before its chain was exhausted.

use vstd::prelude::*;
use crate::value::Sym;

verus! {

/// A failure that ends an evaluation. None is retried.
#[derive(Debug, PartialEq, Eq)]
pub enum EvalError {
    /// An expression or statement named a variable that no earlier clause
    /// bound.
    Unbound(Sym),
    /// A statement assigned to a variable that was bound without `mut`.
    Immutable(Sym),
    /// A guard, or an operand of a logical operator, was not a boolean.
    NotBoolean,
    /// An operand of an ordering comparison was not an integer.
    NotInteger,
    /// The source of a generator was not a list.
    NotIterable,
    /// A pattern that had to match did not.
    Mismatch,
    /// A fallback gave up, with this message.
    Aborted(String),
}

impl EvalError {
    /// An independent copy.
    pub fn duplicate(&self) -> (r: EvalError)
        ensures
            r == *self,
    {
        match self {
            EvalError::Unbound(n) => EvalError::Unbound(*n),
            EvalError::Immutable(n) => EvalError::Immutable(*n),
            EvalError::NotBoolean => EvalError::NotBoolean,
            EvalError::NotInteger => EvalError::NotInteger,
            EvalError::NotIterable => EvalError::NotIterable,
            EvalError::Mismatch => EvalError::Mismatch,
            EvalError::Aborted(m) => EvalError::Aborted(m.clone()),
        }
    }
}

impl Clone for EvalError {
    fn clone(&self) -> (r: Self)
        ensures
            r == *self,
    {
        self.duplicate()
    }
}

} // verus!
