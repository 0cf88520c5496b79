//! Expressions: what a clause evaluates in the environment built so far.

use vstd::prelude::*;
use crate::error::EvalError;
use crate::scope::{Slot, fetch, lookup};
use crate::value::{Sym, Value, same};

verus! {

/// An expression over the variables in scope.
#[derive(Debug, PartialEq, Eq)]
pub enum Expr {
    Const(Value),
    Var(Sym),
    Pair(Box<Expr>, Box<Expr>),
    /// The list of the first operand in front of the second.
    Cons(Box<Expr>, Box<Expr>),
    Equal(Box<Expr>, Box<Expr>),
    Differ(Box<Expr>, Box<Expr>),
    Less(Box<Expr>, Box<Expr>),
    Not(Box<Expr>),
    /// Conjunction; the right operand is evaluated only if the left is true.
    Both(Box<Expr>, Box<Expr>),
}

/// What `e` evaluates to in `env`. Operands are evaluated left to right and
/// the first failure is the result.
pub open spec fn expr_value(e: Expr, env: Seq<Slot>) -> Result<Value, EvalError>
    decreases e,
{
    match e {
        Expr::Const(v) => Ok(v),
        Expr::Var(n) => lookup(env, n),
        Expr::Pair(a, b) => match expr_value(*a, env) {
            Ok(x) => match expr_value(*b, env) {
                Ok(y) => Ok(Value::Pair(Box::new(x), Box::new(y))),
                Err(f) => Err(f),
            },
            Err(f) => Err(f),
        },
        Expr::Cons(a, b) => match expr_value(*a, env) {
            Ok(x) => match expr_value(*b, env) {
                Ok(y) => Ok(Value::Cons(Box::new(x), Box::new(y))),
                Err(f) => Err(f),
            },
            Err(f) => Err(f),
        },
        Expr::Equal(a, b) => match expr_value(*a, env) {
            Ok(x) => match expr_value(*b, env) {
                Ok(y) => Ok(Value::Bool(same(x, y))),
                Err(f) => Err(f),
            },
            Err(f) => Err(f),
        },
        Expr::Differ(a, b) => match expr_value(*a, env) {
            Ok(x) => match expr_value(*b, env) {
                Ok(y) => Ok(Value::Bool(!same(x, y))),
                Err(f) => Err(f),
            },
            Err(f) => Err(f),
        },
        Expr::Less(a, b) => match expr_value(*a, env) {
            Ok(x) => match expr_value(*b, env) {
                Ok(y) => match (x, y) {
                    (Value::Int(m), Value::Int(n)) => Ok(Value::Bool(m < n)),
                    _ => Err(EvalError::NotInteger),
                },
                Err(f) => Err(f),
            },
            Err(f) => Err(f),
        },
        Expr::Not(a) => match expr_value(*a, env) {
            Ok(Value::Bool(b)) => Ok(Value::Bool(!b)),
            Ok(_) => Err(EvalError::NotBoolean),
            Err(f) => Err(f),
        },
        Expr::Both(a, b) => match expr_value(*a, env) {
            Ok(Value::Bool(x)) => if x {
                match expr_value(*b, env) {
                    Ok(Value::Bool(y)) => Ok(Value::Bool(y)),
                    Ok(_) => Err(EvalError::NotBoolean),
                    Err(f) => Err(f),
                }
            } else {
                Ok(Value::Bool(false))
            },
            Ok(_) => Err(EvalError::NotBoolean),
            Err(f) => Err(f),
        },
    }
}

/// What a predicate decides in `env`: its value, which must be a boolean.
pub open spec fn truth(e: Expr, env: Seq<Slot>) -> Result<bool, EvalError> {
    match expr_value(e, env) {
        Ok(Value::Bool(b)) => Ok(b),
        Ok(_) => Err(EvalError::NotBoolean),
        Err(f) => Err(f),
    }
}

/// Evaluates an expression.
pub fn evaluate(e: &Expr, env: &Vec<Slot>) -> (r: Result<Value, EvalError>)
    ensures
        r == expr_value(*e, env@),
    decreases *e,
{
    match e {
        Expr::Const(v) => Ok(v.duplicate()),
        Expr::Var(n) => fetch(env, *n),
        Expr::Pair(a, b) => {
            let x = evaluate(a, env)?;
            let y = evaluate(b, env)?;
            Ok(Value::Pair(Box::new(x), Box::new(y)))
        },
        Expr::Cons(a, b) => {
            let x = evaluate(a, env)?;
            let y = evaluate(b, env)?;
            Ok(Value::Cons(Box::new(x), Box::new(y)))
        },
        Expr::Equal(a, b) => {
            let x = evaluate(a, env)?;
            let y = evaluate(b, env)?;
            Ok(Value::Bool(x.equals(&y)))
        },
        Expr::Differ(a, b) => {
            let x = evaluate(a, env)?;
            let y = evaluate(b, env)?;
            Ok(Value::Bool(!x.equals(&y)))
        },
        Expr::Less(a, b) => {
            let x = evaluate(a, env)?;
            let y = evaluate(b, env)?;
            match (x, y) {
                (Value::Int(m), Value::Int(n)) => Ok(Value::Bool(m < n)),
                _ => Err(EvalError::NotInteger),
            }
        },
        Expr::Not(a) => match evaluate(a, env)? {
            Value::Bool(b) => Ok(Value::Bool(!b)),
            _ => Err(EvalError::NotBoolean),
        },
        Expr::Both(a, b) => match evaluate(a, env)? {
            Value::Bool(x) => if x {
                match evaluate(b, env)? {
                    Value::Bool(y) => Ok(Value::Bool(y)),
                    _ => Err(EvalError::NotBoolean),
                }
            } else {
                Ok(Value::Bool(false))
            },
            _ => Err(EvalError::NotBoolean),
        },
    }
}

/// Decides a predicate.
pub fn decide(e: &Expr, env: &Vec<Slot>) -> (r: Result<bool, EvalError>)
    ensures
        r == truth(*e, env@),
{
    match evaluate(e, env)? {
        Value::Bool(b) => Ok(b),
        _ => Err(EvalError::NotBoolean),
    }
}

impl Expr {
    /// A deep, independent copy.
    pub fn duplicate(&self) -> (r: Expr)
        ensures
            r == *self,
        decreases *self,
    {
        match self {
            Expr::Const(v) => Expr::Const(v.duplicate()),
            Expr::Var(n) => Expr::Var(*n),
            Expr::Pair(a, b) => Expr::Pair(Box::new(a.duplicate()), Box::new(b.duplicate())),
            Expr::Cons(a, b) => Expr::Cons(Box::new(a.duplicate()), Box::new(b.duplicate())),
            Expr::Equal(a, b) => Expr::Equal(Box::new(a.duplicate()), Box::new(b.duplicate())),
            Expr::Differ(a, b) => Expr::Differ(Box::new(a.duplicate()), Box::new(b.duplicate())),
            Expr::Less(a, b) => Expr::Less(Box::new(a.duplicate()), Box::new(b.duplicate())),
            Expr::Not(a) => Expr::Not(Box::new(a.duplicate())),
            Expr::Both(a, b) => Expr::Both(Box::new(a.duplicate()), Box::new(b.duplicate())),
        }
    }
}

impl Clone for Expr {
    fn clone(&self) -> (r: Self)
        ensures
            r == *self,
    {
        self.duplicate()
    }
}

/// The list expression of the elements `s`, in order, in front of `tail`.
pub open spec fn list_expr_onto(s: Seq<Expr>, tail: Expr) -> Expr
    decreases s.len(),
{
    if s.len() == 0 {
        tail
    } else {
        list_expr_onto(s.drop_last(), Expr::Cons(Box::new(s.last()), Box::new(tail)))
    }
}

impl Expr {
    /// The expression that evaluates the given elements, in order, into a
    /// list.
    pub fn list(elements: Vec<Expr>) -> (r: Expr)
        ensures
            r == list_expr_onto(elements@, Expr::Const(Value::Nil)),
    {
        let mut elements = elements;
        let ghost all = elements@;
        let mut r = Expr::Const(Value::Nil);
        while elements.len() > 0
            invariant
                list_expr_onto(elements@, r) == list_expr_onto(all, Expr::Const(Value::Nil)),
            decreases elements.len(),
        {
            let last = elements.pop().unwrap();
            r = Expr::Cons(Box::new(last), Box::new(r));
        }
        r
    }

    /// The pair expression of two expressions.
    pub fn pair(first: Expr, second: Expr) -> (r: Expr)
        ensures
            r == Expr::Pair(Box::new(first), Box::new(second)),
    {
        Expr::Pair(Box::new(first), Box::new(second))
    }
}

} // verus!
