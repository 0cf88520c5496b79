//! Running one clause against the environment.

use vstd::prelude::*;
use crate::clause::{Clause, Fallback, GroupMode, Members, Statement};
use crate::error::EvalError;
use crate::expr::{Expr, decide, evaluate};
use crate::pattern::{Pattern, match_pattern};
use crate::scope::{Slot, assign};
use crate::trace::{Bound, bind_outcome, clause_outcome, group_outcome, statement_outcome};

verus! {

/// What running a clause decided.
#[derive(Debug, PartialEq, Eq)]
pub enum Verdict {
    /// Go on with the next clause.
    Proceed,
    /// Take this fallback.
    Divert(Fallback),
    /// Fail the evaluation.
    Fail(EvalError),
}

/// Whether what a clause did to the environment, and what it decided, is
/// what `b` says.
pub open spec fn enacts(b: Bound, verdict: Verdict, env: Seq<Slot>) -> bool {
    match b {
        Bound::Extended(next) => verdict is Proceed && env == next,
        Bound::Diverted(f, left) => verdict == Verdict::Divert(f) && env == left,
        Bound::Failed(e) => verdict == Verdict::Fail(e),
    }
}

/// Runs one bind.
pub fn bind(
    pattern: &Pattern,
    mutable: bool,
    init: &Expr,
    otherwise: Option<&Fallback>,
    env: &mut Vec<Slot>,
) -> (verdict: Verdict)
    ensures
        enacts(
            bind_outcome(
                *pattern,
                mutable,
                *init,
                match otherwise {
                    Some(f) => Some(*f),
                    None => None,
                },
                old(env)@,
            ),
            verdict,
            final(env)@,
        ),
{
    match evaluate(init, env) {
        Ok(v) => match match_pattern(pattern, &v, mutable) {
            Some(mut slots) => {
                env.append(&mut slots);
                Verdict::Proceed
            },
            None => match otherwise {
                Some(f) => Verdict::Divert(f.duplicate()),
                None => Verdict::Fail(EvalError::Mismatch),
            },
        },
        Err(e) => Verdict::Fail(e),
    }
}

/// Runs a group of binds, top to bottom.
pub fn bind_group(ms: &Members, force: bool, refutable: bool, env: &mut Vec<Slot>) -> (verdict:
    Verdict)
    ensures
        enacts(group_outcome(*ms, force, refutable, old(env)@), verdict, final(env)@),
    decreases *ms,
{
    match ms {
        Members::End => Verdict::Proceed,
        Members::Then(m, next) => {
            let otherwise = if refutable {
                m.otherwise.as_ref()
            } else {
                None
            };
            match bind(&m.pattern, m.mutable || force, &m.init, otherwise, env) {
                Verdict::Proceed => bind_group(next, force, refutable, env),
                other => other,
            }
        },
    }
}

/// Runs a statement.
pub fn run_statement(s: &Statement, env: &mut Vec<Slot>) -> (verdict: Verdict)
    ensures
        enacts(statement_outcome(*s, old(env)@), verdict, final(env)@),
{
    match s {
        Statement::Assign(name, e) => match evaluate(e, env) {
            Ok(v) => match assign(env, *name, v) {
                Ok(()) => Verdict::Proceed,
                Err(f) => Verdict::Fail(f),
            },
            Err(f) => Verdict::Fail(f),
        },
    }
}

/// Runs any clause but a generator, which it passes over.
pub fn run_clause(c: &Clause, env: &mut Vec<Slot>) -> (verdict: Verdict)
    ensures
        enacts(clause_outcome(*c, old(env)@), verdict, final(env)@),
{
    match c {
        Clause::Generate(_, _) => Verdict::Proceed,
        Clause::Guard(p) => match decide(p, env) {
            Ok(holds) => if holds {
                Verdict::Proceed
            } else {
                Verdict::Divert(Fallback::Skip)
            },
            Err(f) => Verdict::Fail(f),
        },
        Clause::Bind(p, mutable, e) => bind(p, *mutable, e, None, env),
        Clause::BindGroup(ms, mode) => bind_group(
            ms,
            matches!(mode, GroupMode::ForceMutable),
            false,
            env,
        ),
        Clause::BindOrElse(p, e, fallback) => bind(p, false, e, Some(fallback), env),
        Clause::BindGroupOrElse(ms, mode) => bind_group(
            ms,
            matches!(mode, GroupMode::ForceMutable),
            true,
            env,
        ),
        Clause::RawStatement(s) => run_statement(s, env),
    }
}

} // verus!
