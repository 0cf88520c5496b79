//! Why a well-scoped comprehension never fails on an unbound name.

use vstd::prelude::*;
use crate::clause::{Clause, Fallback, Members, Statement};
use crate::error::EvalError;
use crate::expr::{Expr, expr_value};
use crate::pattern::{FieldPatterns, Pattern, field_value, fields_bind, pattern_binds};
use crate::scope::{Slot, cut, lemma_position_bounds};
use crate::scoping::{
    clause_scope, closed, field_names, members_scope, pattern_names, scoped_from,
};
use crate::trace::{Bound, Halt, bind_outcome, clause_outcome, group_outcome, sweep, walk};
use crate::value::{Sym, Value};

verus! {

/// Whether `env` binds exactly the names of `scope`, slot by slot.
pub open spec fn binds(env: Seq<Slot>, scope: Seq<Sym>) -> bool {
    &&& env.len() == scope.len()
    &&& forall|i: int| 0 <= i < env.len() ==> (#[trigger] env[i]).name == scope[i]
}

/// Whether `later` still holds the slots of `env`, under the same names.
pub open spec fn keeps(env: Seq<Slot>, later: Seq<Slot>) -> bool {
    &&& later.len() >= env.len()
    &&& forall|i: int| 0 <= i < env.len() ==> (#[trigger] later[i]).name == env[i].name
}

/// Whether an evaluation ended on an unbound name.
pub open spec fn unbound(h: Option<Halt>) -> bool {
    h matches Some(Halt::Failed(EvalError::Unbound(_)))
}

/// A match binds the names of its pattern, in order.
pub proof fn lemma_pattern_binds_names(p: Pattern, v: Value, mutable: bool)
    requires
        pattern_binds(p, v, mutable) is Some,
    ensures
        binds(pattern_binds(p, v, mutable)->0, pattern_names(p)),
    decreases p,
{
    match p {
        Pattern::Destructure { fields, .. } => {
            lemma_fields_bind_names(*fields, *v->Record_1, mutable);
        },
        _ => {},
    }
}

/// The listed fields bind the names of their patterns, in order.
pub proof fn lemma_fields_bind_names(fs: FieldPatterns, payload: Value, mutable: bool)
    requires
        fields_bind(fs, payload, mutable) is Some,
    ensures
        binds(fields_bind(fs, payload, mutable)->0, field_names(fs)),
    decreases fs,
{
    match fs {
        FieldPatterns::End => {},
        FieldPatterns::Field(name, sub, next) => {
            let v = field_value(payload, name)->0;
            lemma_pattern_binds_names(*sub, v, mutable);
            lemma_fields_bind_names(*next, payload, mutable);
        },
    }
}

/// An expression whose variables are all bound does not fail on an unbound
/// name.
pub proof fn lemma_closed_is_bound(e: Expr, env: Seq<Slot>, scope: Seq<Sym>)
    requires
        binds(env, scope),
        closed(e, scope),
    ensures
        !(expr_value(e, env) matches Err(EvalError::Unbound(_))),
    decreases e,
{
    match e {
        Expr::Const(_) => {},
        Expr::Var(n) => {
            lemma_position_bounds(env, n);
            let i = choose|i: int| 0 <= i < scope.len() && scope[i] == n;
            assert(env[i].name == n);
        },
        Expr::Pair(a, b) => {
            lemma_closed_is_bound(*a, env, scope);
            lemma_closed_is_bound(*b, env, scope);
        },
        Expr::Cons(a, b) => {
            lemma_closed_is_bound(*a, env, scope);
            lemma_closed_is_bound(*b, env, scope);
        },
        Expr::Equal(a, b) => {
            lemma_closed_is_bound(*a, env, scope);
            lemma_closed_is_bound(*b, env, scope);
        },
        Expr::Differ(a, b) => {
            lemma_closed_is_bound(*a, env, scope);
            lemma_closed_is_bound(*b, env, scope);
        },
        Expr::Less(a, b) => {
            lemma_closed_is_bound(*a, env, scope);
            lemma_closed_is_bound(*b, env, scope);
        },
        Expr::Not(a) => {
            lemma_closed_is_bound(*a, env, scope);
        },
        Expr::Both(a, b) => {
            lemma_closed_is_bound(*a, env, scope);
            lemma_closed_is_bound(*b, env, scope);
        },
    }
}

/// Whether what a clause did respects the static scope `next` that the
/// check computed for the clauses after it.
pub open spec fn respects(b: Bound, env: Seq<Slot>, next: Seq<Sym>) -> bool {
    match b {
        Bound::Extended(longer) => binds(longer, next) && keeps(env, longer),
        Bound::Diverted(_, left) => keeps(env, left),
        Bound::Failed(e) => !(e is Unbound),
    }
}

/// A checked bind respects the scope computed for it.
pub proof fn lemma_bind_respects(
    p: Pattern,
    mutable: bool,
    init: Expr,
    otherwise: Option<Fallback>,
    env: Seq<Slot>,
    scope: Seq<Sym>,
)
    requires
        binds(env, scope),
        closed(init, scope),
    ensures
        respects(bind_outcome(p, mutable, init, otherwise, env), env, scope + pattern_names(p)),
{
    lemma_closed_is_bound(init, env, scope);
    if expr_value(init, env) is Ok {
        let v = expr_value(init, env)->Ok_0;
        if pattern_binds(p, v, mutable) is Some {
            lemma_pattern_binds_names(p, v, mutable);
        }
    }
}

/// A checked group respects the scope computed for it.
pub proof fn lemma_group_respects(
    ms: Members,
    force: bool,
    refutable: bool,
    env: Seq<Slot>,
    scope: Seq<Sym>,
)
    requires
        binds(env, scope),
        members_scope(ms, scope) is Some,
    ensures
        respects(group_outcome(ms, force, refutable, env), env, members_scope(ms, scope)->0),
    decreases ms,
{
    match ms {
        Members::End => {},
        Members::Then(m, next) => {
            let otherwise = if refutable {
                m.otherwise
            } else {
                None
            };
            lemma_bind_respects(m.pattern, m.mutable || force, m.init, otherwise, env, scope);
            match bind_outcome(m.pattern, m.mutable || force, m.init, otherwise, env) {
                Bound::Extended(longer) => {
                    lemma_group_respects(
                        *next,
                        force,
                        refutable,
                        longer,
                        scope + pattern_names(m.pattern),
                    );
                },
                _ => {},
            }
        },
    }
}

/// A checked clause respects the scope computed for it.
pub proof fn lemma_clause_respects(c: Clause, env: Seq<Slot>, scope: Seq<Sym>)
    requires
        !(c is Generate),
        binds(env, scope),
        clause_scope(c, scope) is Some,
    ensures
        respects(clause_outcome(c, env), env, clause_scope(c, scope)->0),
{
    match c {
        Clause::Generate(_, _) => {},
        Clause::Guard(e) => {
            lemma_closed_is_bound(e, env, scope);
        },
        Clause::Bind(p, mutable, e) => {
            lemma_bind_respects(p, mutable, e, None, env, scope);
        },
        Clause::BindGroup(ms, mode) => {
            lemma_group_respects(*ms, mode is ForceMutable, false, env, scope);
        },
        Clause::BindOrElse(p, e, f) => {
            lemma_bind_respects(p, false, e, Some(f), env, scope);
        },
        Clause::BindGroupOrElse(ms, mode) => {
            lemma_group_respects(*ms, mode is ForceMutable, true, env, scope);
        },
        Clause::RawStatement(Statement::Assign(n, e)) => {
            lemma_closed_is_bound(e, env, scope);
            lemma_position_bounds(env, n);
            let i = choose|i: int| 0 <= i < scope.len() && scope[i] == n;
            assert(env[i].name == n);
        },
    }
}

/// Whatever a clause does, it keeps the slots that were there.
pub proof fn lemma_clause_keeps(c: Clause, env: Seq<Slot>)
    ensures
        match clause_outcome(c, env) {
            Bound::Extended(longer) => keeps(env, longer),
            Bound::Diverted(_, left) => keeps(env, left),
            Bound::Failed(_) => true,
        },
{
    match c {
        Clause::BindGroup(ms, mode) => {
            lemma_group_keeps(*ms, mode is ForceMutable, false, env);
        },
        Clause::BindGroupOrElse(ms, mode) => {
            lemma_group_keeps(*ms, mode is ForceMutable, true, env);
        },
        Clause::RawStatement(Statement::Assign(n, _)) => {
            lemma_position_bounds(env, n);
        },
        _ => {},
    }
}

/// Whatever a group does, it keeps the slots that were there.
pub proof fn lemma_group_keeps(ms: Members, force: bool, refutable: bool, env: Seq<Slot>)
    ensures
        match group_outcome(ms, force, refutable, env) {
            Bound::Extended(longer) => keeps(env, longer),
            Bound::Diverted(_, left) => keeps(env, left),
            Bound::Failed(_) => true,
        },
    decreases ms,
{
    match ms {
        Members::End => {},
        Members::Then(m, next) => {
            let otherwise = if refutable {
                m.otherwise
            } else {
                None
            };
            match bind_outcome(m.pattern, m.mutable || force, m.init, otherwise, env) {
                Bound::Extended(longer) => {
                    lemma_group_keeps(*next, force, refutable, longer);
                },
                _ => {},
            }
        },
    }
}

/// Running a chain keeps the slots that were there: it binds above them and
/// assigns to them, and never renames or drops one.
pub proof fn lemma_walk_keeps(chain: Seq<Clause>, head: Expr, at: int, env: Seq<Slot>)
    requires
        0 <= at,
    ensures
        keeps(env, walk(chain, head, at, env).env),
    decreases 2 * (chain.len() - at) + 1, Value::Unit,
{
    if at < chain.len() {
        match chain[at] {
            Clause::Generate(_, source) => match expr_value(source, env) {
                Ok(v) => {
                    lemma_sweep_keeps(chain, head, at, v, env.len() as int, env);
                },
                Err(_) => {},
            },
            c => {
                lemma_clause_keeps(c, env);
                match clause_outcome(c, env) {
                    Bound::Extended(longer) => {
                        lemma_walk_keeps(chain, head, at + 1, longer);
                    },
                    _ => {},
                }
            },
        }
    }
}

/// The loop of a generator keeps the slots below its height.
pub proof fn lemma_sweep_keeps(
    chain: Seq<Clause>,
    head: Expr,
    at: int,
    rest: Value,
    height: int,
    env: Seq<Slot>,
)
    requires
        0 <= at,
        0 <= height <= env.len(),
    ensures
        keeps(cut(env, height), sweep(chain, head, at, rest, height, env).env),
    decreases 2 * (chain.len() - at), rest,
{
    let base = cut(env, height);
    if at < chain.len() {
        match (chain[at], rest) {
            (Clause::Generate(p, _), Value::Cons(first, others)) => match pattern_binds(
                p,
                *first,
                false,
            ) {
                Some(slots) => {
                    lemma_walk_keeps(chain, head, at + 1, base + slots);
                    let inner = walk(chain, head, at + 1, base + slots);
                    assert forall|i: int| 0 <= i < height implies (#[trigger] inner.env[i]).name
                        == base[i].name by {
                        assert((base + slots)[i] == base[i]);
                    }
                    lemma_sweep_keeps(chain, head, at, *others, height, inner.env);
                    let after = sweep(chain, head, at, *others, height, inner.env).env;
                    assert forall|i: int| 0 <= i < height implies (#[trigger] after[i]).name
                        == base[i].name by {
                        assert(cut(inner.env, height)[i] == inner.env[i]);
                    }
                },
                None => {},
            },
            _ => {},
        }
    }
}

/// A chain that passes the scope check from clause `at` on, run in an
/// environment that binds the names in scope there, does not fail on an
/// unbound name.
pub proof fn lemma_walk_is_bound(
    chain: Seq<Clause>,
    head: Expr,
    at: int,
    env: Seq<Slot>,
    scope: Seq<Sym>,
)
    requires
        0 <= at,
        binds(env, scope),
        scoped_from(chain, head, at, scope),
    ensures
        !unbound(walk(chain, head, at, env).halt),
    decreases 2 * (chain.len() - at) + 1, Value::Unit,
{
    if at < chain.len() {
        match chain[at] {
            Clause::Generate(p, source) => {
                lemma_closed_is_bound(source, env, scope);
                match expr_value(source, env) {
                    Ok(v) => {
                        assert(env.subrange(0, env.len() as int) =~= env);
                        lemma_sweep_is_bound(chain, head, at, v, env.len() as int, env, scope);
                    },
                    Err(_) => {},
                }
            },
            c => {
                lemma_clause_respects(c, env, scope);
                match clause_outcome(c, env) {
                    Bound::Extended(longer) => {
                        lemma_walk_is_bound(
                            chain,
                            head,
                            at + 1,
                            longer,
                            clause_scope(c, scope)->0,
                        );
                    },
                    _ => {},
                }
            },
        }
    } else {
        lemma_closed_is_bound(head, env, scope);
    }
}

/// The loop of a generator whose body passes the scope check does not fail
/// on an unbound name.
pub proof fn lemma_sweep_is_bound(
    chain: Seq<Clause>,
    head: Expr,
    at: int,
    rest: Value,
    height: int,
    env: Seq<Slot>,
    scope: Seq<Sym>,
)
    requires
        0 <= at < chain.len(),
        chain[at] is Generate,
        0 <= height <= env.len(),
        binds(cut(env, height), scope),
        scoped_from(chain, head, at + 1, scope + pattern_names(chain[at]->Generate_0)),
    ensures
        !unbound(sweep(chain, head, at, rest, height, env).halt),
    decreases 2 * (chain.len() - at), rest,
{
    let base = cut(env, height);
    let p = chain[at]->Generate_0;
    match rest {
        Value::Cons(first, others) => match pattern_binds(p, *first, false) {
            Some(slots) => {
                lemma_pattern_binds_names(p, *first, false);
                lemma_walk_is_bound(chain, head, at + 1, base + slots, scope + pattern_names(p));
                lemma_walk_keeps(chain, head, at + 1, base + slots);
                let inner = walk(chain, head, at + 1, base + slots);
                assert forall|i: int| 0 <= i < height implies (#[trigger] cut(
                    inner.env,
                    height,
                )[i]).name == scope[i] by {
                    assert((base + slots)[i] == base[i]);
                    assert(cut(inner.env, height)[i] == inner.env[i]);
                }
                lemma_sweep_is_bound(chain, head, at, *others, height, inner.env, scope);
            },
            None => {},
        },
        _ => {},
    }
}

} // verus!
