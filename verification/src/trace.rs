//! What a chain means: the values it produces, in order, and how it ends.
//!
//! `walk` is the nesting that a chain stands for, written as a function of
//! the position in the chain and the environment. Both evaluators are proved
//! against it.

use vstd::prelude::*;
use crate::clause::{Clause, Comprehension, Fallback, Members, Statement};
use crate::error::EvalError;
use crate::expr::{Expr, expr_value, truth};
use crate::pattern::{Pattern, pattern_binds};
use crate::scope::{Slot, assigned, cut};
use crate::value::{Value, is_list};

verus! {

/// Why an evaluation ended before its chain was exhausted.
#[derive(Debug, PartialEq, Eq)]
pub enum Halt {
    /// A fallback stopped it.
    Stopped,
    /// It failed.
    Failed(EvalError),
}

/// The course of an evaluation, or of a part of one.
pub struct Trace {
    /// The values produced, in order.
    pub out: Seq<Value>,
    /// The environment at the end, where the part ran to its end.
    pub env: Seq<Slot>,
    /// Why it ended early, if it did.
    pub halt: Option<Halt>,
    /// How many clause visits, element steps and head evaluations it took.
    pub steps: nat,
}

/// What a clause that binds, filters or assigns does to the environment.
pub enum Bound {
    /// The rest of the chain runs in this environment.
    Extended(Seq<Slot>),
    /// The rest of the chain does not run: this fallback is taken.
    Diverted(Fallback, Seq<Slot>),
    /// The evaluation fails.
    Failed(EvalError),
}

/// One bind: evaluate, match, and extend the environment, or take the
/// fallback, or fail where there is none.
pub open spec fn bind_outcome(
    pattern: Pattern,
    mutable: bool,
    init: Expr,
    otherwise: Option<Fallback>,
    env: Seq<Slot>,
) -> Bound {
    match expr_value(init, env) {
        Ok(v) => match pattern_binds(pattern, v, mutable) {
            Some(slots) => Bound::Extended(env + slots),
            None => match otherwise {
                Some(fallback) => Bound::Diverted(fallback, env),
                None => Bound::Failed(EvalError::Mismatch),
            },
        },
        Err(e) => Bound::Failed(e),
    }
}

/// A group of binds, top to bottom. `force` makes every member mutable;
/// fallbacks count only where the group is `refutable`.
pub open spec fn group_outcome(ms: Members, force: bool, refutable: bool, env: Seq<Slot>) -> Bound
    decreases ms,
{
    match ms {
        Members::End => Bound::Extended(env),
        Members::Then(m, next) => match bind_outcome(
            m.pattern,
            m.mutable || force,
            m.init,
            if refutable {
                m.otherwise
            } else {
                None
            },
            env,
        ) {
            Bound::Extended(longer) => group_outcome(*next, force, refutable, longer),
            other => other,
        },
    }
}

/// A statement.
pub open spec fn statement_outcome(s: Statement, env: Seq<Slot>) -> Bound {
    match s {
        Statement::Assign(name, e) => match expr_value(e, env) {
            Ok(v) => match assigned(env, name, v) {
                Ok(changed) => Bound::Extended(changed),
                Err(f) => Bound::Failed(f),
            },
            Err(f) => Bound::Failed(f),
        },
    }
}

/// Any clause but a generator. A guard that does not hold skips.
pub open spec fn clause_outcome(c: Clause, env: Seq<Slot>) -> Bound {
    match c {
        Clause::Generate(_, _) => Bound::Extended(env),
        Clause::Guard(p) => match truth(p, env) {
            Ok(holds) => if holds {
                Bound::Extended(env)
            } else {
                Bound::Diverted(Fallback::Skip, env)
            },
            Err(f) => Bound::Failed(f),
        },
        Clause::Bind(p, mutable, e) => bind_outcome(p, mutable, e, None, env),
        Clause::BindGroup(ms, mode) => group_outcome(*ms, mode is ForceMutable, false, env),
        Clause::BindOrElse(p, e, fallback) => bind_outcome(p, false, e, Some(fallback), env),
        Clause::BindGroupOrElse(ms, mode) => group_outcome(*ms, mode is ForceMutable, true, env),
        Clause::RawStatement(s) => statement_outcome(s, env),
    }
}

/// One step that produces nothing and goes on.
pub open spec fn idle(env: Seq<Slot>) -> Trace {
    Trace { out: Seq::empty(), env: env, halt: None, steps: 1 }
}

/// One step that ends the evaluation.
pub open spec fn halted(h: Halt, env: Seq<Slot>) -> Trace {
    Trace { out: Seq::empty(), env: env, halt: Some(h), steps: 1 }
}

/// Taking a fallback.
pub open spec fn diverted(f: Fallback, env: Seq<Slot>) -> Trace {
    match f {
        Fallback::Skip => idle(env),
        Fallback::Stop => halted(Halt::Stopped, env),
        Fallback::Abort(message) => halted(Halt::Failed(EvalError::Aborted(message)), env),
    }
}

/// `t` after one more step.
pub open spec fn delayed(t: Trace) -> Trace {
    Trace { out: t.out, env: t.env, halt: t.halt, steps: t.steps + 1 }
}

/// `t`, and then `u` if `t` ran to its end.
pub open spec fn join(t: Trace, u: Trace) -> Trace {
    if t.halt is None {
        Trace { out: t.out + u.out, env: u.env, halt: u.halt, steps: t.steps + u.steps }
    } else {
        t
    }
}

/// The chain from clause `at` on, in `env`: each clause in turn, and the head
/// expression once per combination that reaches the end.
pub open spec fn walk(chain: Seq<Clause>, head: Expr, at: int, env: Seq<Slot>) -> Trace
    decreases 2 * (chain.len() - at) + 1, Value::Unit,
{
    if 0 <= at < chain.len() {
        match chain[at] {
            Clause::Generate(_, source) => match expr_value(source, env) {
                Ok(v) => if is_list(v) {
                    delayed(sweep(chain, head, at, v, env.len() as int, env))
                } else {
                    halted(Halt::Failed(EvalError::NotIterable), env)
                },
                Err(f) => halted(Halt::Failed(f), env),
            },
            c => match clause_outcome(c, env) {
                Bound::Extended(next) => delayed(walk(chain, head, at + 1, next)),
                Bound::Diverted(f, left) => diverted(f, left),
                Bound::Failed(f) => halted(Halt::Failed(f), env),
            },
        }
    } else {
        match expr_value(head, env) {
            Ok(v) => Trace { out: seq![v], env: env, halt: None, steps: 1 },
            Err(f) => halted(Halt::Failed(f), env),
        }
    }
}

/// The loop of the generator at clause `at` over the elements `rest` that
/// are still to come. Each turn starts from the environment cut back to
/// `height`, its height when the loop was entered.
pub open spec fn sweep(
    chain: Seq<Clause>,
    head: Expr,
    at: int,
    rest: Value,
    height: int,
    env: Seq<Slot>,
) -> Trace
    decreases 2 * (chain.len() - at), rest,
{
    let base = cut(env, height);
    if 0 <= at < chain.len() {
        match (chain[at], rest) {
            (Clause::Generate(p, _), Value::Cons(first, others)) => match pattern_binds(
                p,
                *first,
                false,
            ) {
                Some(slots) => {
                    let inner = walk(chain, head, at + 1, base + slots);
                    delayed(join(inner, sweep(chain, head, at, *others, height, inner.env)))
                },
                None => halted(Halt::Failed(EvalError::Mismatch), base),
            },
            _ => idle(base),
        }
    } else {
        idle(base)
    }
}

/// What an evaluation that produced `out` and ended with `halt` amounts to:
/// the failure, if it failed, and otherwise everything it produced.
pub open spec fn amounts_to(out: Seq<Value>, halt: Option<Halt>) -> Result<Seq<Value>, EvalError> {
    match halt {
        Some(Halt::Failed(e)) => Err(e),
        _ => Ok(out),
    }
}

impl Comprehension {
    /// The course of a full evaluation, from an empty environment.
    pub open spec fn trace(&self) -> Trace {
        walk(self.chain@, self.head, 0, Seq::empty())
    }

    /// What a full evaluation amounts to.
    pub open spec fn result(&self) -> Result<Seq<Value>, EvalError> {
        amounts_to(self.trace().out, self.trace().halt)
    }
}

} // verus!
