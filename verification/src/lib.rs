//! List comprehensions as data: an ordered chain of clauses with a head
//! expression, evaluated eagerly into a vector or lazily, one value per
//! resume.
//!
//! `trace` says what a chain means. `eager` and `cursor` are the two
//! evaluators, both proved against it; `lazy` runs a producer as a
//! coroutine; `scoping` checks names before anything is evaluated; `laws`
//! states what holds of every comprehension.

pub mod binding;
pub mod clause;
pub mod cursor;
pub mod eager;
pub mod error;
pub mod expr;
pub mod laws;
pub mod lazy;
pub mod pattern;
pub mod scope;
pub mod scoping;
pub mod soundness;
pub mod trace;
pub mod value;

pub use crate::clause::{Clause, Comprehension, Fallback, GroupMode, Member, Members, Statement};
pub use crate::cursor::{lazy, Cursor, Phase, Step};
pub use crate::eager::eager;
pub use crate::error::EvalError;
pub use crate::expr::Expr;
pub use crate::lazy::{IntoIter, LazyComp, Outlet};
pub use crate::pattern::{FieldPatterns, Kind, Pattern};
pub use crate::value::{Sym, Value};
