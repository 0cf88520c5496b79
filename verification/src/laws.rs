//! What holds of every comprehension.

use vstd::prelude::*;
use crate::clause::{Clause, Comprehension, Fallback};
use crate::cursor::{collected, lemma_collected};
use crate::error::EvalError;
use crate::expr::{Expr, expr_value};
use crate::pattern::{Pattern, fits, pattern_binds};
use crate::scope::{Slot, cut, lemma_position_bounds, lookup, position};
use crate::soundness::{lemma_walk_is_bound, unbound};
use crate::trace::{Bound, Halt, Trace, clause_outcome, delayed, sweep, walk};
use crate::value::{Sym, Value};

verus! {

/// Eager and lazy evaluation agree: what a consumer collects by resuming a
/// fresh cursor of `c` until it completes is what the eager evaluator
/// returns for `c`.
pub proof fn law_lazy_agrees_with_eager(c: Comprehension)
    ensures
        collected(c.trace().out, c.trace().halt) == c.result(),
{
    lemma_collected(c.trace().out, c.trace().halt);
}

/// Duplicates evaluate alike: two comprehensions with the same head and the
/// same clauses run the same course, so cursors started from them yield the
/// same values in the same order. Each cursor owns its environment, and a
/// resume of one reads and changes nothing of the other.
pub proof fn law_duplicates_agree(c: Comprehension, d: Comprehension)
    requires
        d.head == c.head,
        d.chain@ == c.chain@,
    ensures
        d.trace() == c.trace(),
        d.result() == c.result(),
{
}

/// A name is in scope after the clause that binds it: the next clause, and
/// through it the rest of the chain and the head expression, runs in an
/// environment where the name stands for the bound value.
pub proof fn law_binding_visible_after(
    chain: Seq<Clause>,
    head: Expr,
    at: int,
    env: Seq<Slot>,
    name: Sym,
    v: Value,
)
    requires
        0 <= at < chain.len(),
        chain[at] is Bind,
        chain[at]->Bind_0 is Bind,
        chain[at]->Bind_0->name == name,
        chain[at]->Bind_0->annotation is Some ==> fits(chain[at]->Bind_0->annotation->0, v),
        expr_value(chain[at]->Bind_2, env) == Ok::<Value, EvalError>(v),
    ensures
        ({
            let inner = env.push(
                Slot {
                    name: name,
                    mutable: chain[at]->Bind_0->mutable || chain[at]->Bind_1,
                    value: v,
                },
            );
            &&& walk(chain, head, at, env) == delayed(walk(chain, head, at + 1, inner))
            &&& lookup(inner, name) == Ok::<Value, EvalError>(v)
        }),
{
    let slot = Slot {
        name: name,
        mutable: chain[at]->Bind_0->mutable || chain[at]->Bind_1,
        value: v,
    };
    let inner = env.push(slot);
    assert(env + seq![slot] =~= inner);
    assert(inner.last() == slot);
}

/// A name is not in scope before the clause that binds it: a clause that
/// reads a name which nothing before it bound fails the evaluation, whatever
/// comes later in the chain.
pub proof fn law_binding_hidden_before(
    chain: Seq<Clause>,
    head: Expr,
    at: int,
    env: Seq<Slot>,
    name: Sym,
)
    requires
        0 <= at < chain.len(),
        forall|j: int| 0 <= j < env.len() ==> (#[trigger] env[j]).name != name,
        match chain[at] {
            Clause::Generate(_, e) => e == Expr::Var(name),
            Clause::Guard(e) => e == Expr::Var(name),
            Clause::Bind(_, _, e) => e == Expr::Var(name),
            Clause::BindOrElse(_, e, _) => e == Expr::Var(name),
            _ => false,
        },
    ensures
        walk(chain, head, at, env).out.len() == 0,
        walk(chain, head, at, env).halt == Some(Halt::Failed(EvalError::Unbound(name))),
{
    lemma_position_bounds(env, name);
    assert(position(env, name) is None) by {
        if position(env, name) is Some {
            let i = position(env, name)->0;
            assert(env[i].name == name);
        }
    }
}

/// An empty bind group does nothing: the chain goes on with the next clause
/// in the same environment.
pub proof fn law_empty_group_is_noop(chain: Seq<Clause>, head: Expr, at: int, env: Seq<Slot>)
    requires
        0 <= at < chain.len(),
        match chain[at] {
            Clause::BindGroup(ms, _) => *ms is End,
            Clause::BindGroupOrElse(ms, _) => *ms is End,
            _ => false,
        },
    ensures
        walk(chain, head, at, env) == delayed(walk(chain, head, at + 1, env)),
{
}

/// A refutable bind whose value matches never takes its fallback: it binds
/// as the plain bind of the same pattern does, whatever the fallback is.
pub proof fn law_matching_bind_ignores_fallback(
    p: Pattern,
    e: Expr,
    f: Fallback,
    env: Seq<Slot>,
    v: Value,
)
    requires
        expr_value(e, env) == Ok::<Value, EvalError>(v),
        pattern_binds(p, v, false) is Some,
    ensures
        clause_outcome(Clause::BindOrElse(p, e, f), env) == Bound::Extended(
            env + pattern_binds(p, v, false)->0,
        ),
        clause_outcome(Clause::BindOrElse(p, e, f), env) == clause_outcome(
            Clause::Bind(p, false, e),
            env,
        ),
{
}

/// Whether two courses produce the same values, end the same way and leave
/// the same environment. The number of steps may differ.
pub open spec fn agree(t: Trace, u: Trace) -> bool {
    &&& t.out == u.out
    &&& t.halt == u.halt
    &&& t.env == u.env
}

/// Whether a clause is a bind group without members.
pub open spec fn is_empty_group(c: Clause) -> bool {
    match c {
        Clause::BindGroup(ms, _) => *ms is End,
        Clause::BindGroupOrElse(ms, _) => *ms is End,
        _ => false,
    }
}

/// Where clause `at` of a chain stands once clause `k` is taken out.
pub open spec fn without(k: int, at: int) -> int {
    if at > k {
        at - 1
    } else {
        at
    }
}

/// From any clause on, a chain runs the same course with or without an
/// empty bind group.
pub proof fn lemma_walk_without_empty_group(
    chain: Seq<Clause>,
    head: Expr,
    k: int,
    at: int,
    env: Seq<Slot>,
)
    requires
        0 <= k < chain.len(),
        is_empty_group(chain[k]),
        0 <= at,
    ensures
        agree(walk(chain, head, at, env), walk(chain.remove(k), head, without(k, at), env)),
    decreases 2 * (chain.len() - at) + 1, Value::Unit,
{
    let short = chain.remove(k);
    if at < chain.len() {
        if at == k {
            lemma_walk_without_empty_group(chain, head, k, at + 1, env);
        } else {
            assert(short[without(k, at)] == chain[at]);
            match chain[at] {
                Clause::Generate(_, source) => match expr_value(source, env) {
                    Ok(v) => {
                        lemma_sweep_without_empty_group(
                            chain,
                            head,
                            k,
                            at,
                            v,
                            env.len() as int,
                            env,
                        );
                    },
                    Err(_) => {},
                },
                c => match clause_outcome(c, env) {
                    Bound::Extended(next) => {
                        lemma_walk_without_empty_group(chain, head, k, at + 1, next);
                    },
                    _ => {},
                },
            }
        }
    }
}

/// The loop of a generator runs the same course with or without an empty
/// bind group elsewhere in the chain.
pub proof fn lemma_sweep_without_empty_group(
    chain: Seq<Clause>,
    head: Expr,
    k: int,
    at: int,
    rest: Value,
    height: int,
    env: Seq<Slot>,
)
    requires
        0 <= k < chain.len(),
        is_empty_group(chain[k]),
        0 <= at < chain.len(),
        at != k,
    ensures
        agree(
            sweep(chain, head, at, rest, height, env),
            sweep(chain.remove(k), head, without(k, at), rest, height, env),
        ),
    decreases 2 * (chain.len() - at), rest,
{
    let short = chain.remove(k);
    let base = cut(env, height);
    assert(short[without(k, at)] == chain[at]);
    match (chain[at], rest) {
        (Clause::Generate(p, _), Value::Cons(first, others)) => match pattern_binds(
            p,
            *first,
            false,
        ) {
            Some(slots) => {
                lemma_walk_without_empty_group(chain, head, k, at + 1, base + slots);
                let inner = walk(chain, head, at + 1, base + slots);
                lemma_sweep_without_empty_group(chain, head, k, at, *others, height, inner.env);
            },
            None => {},
        },
        _ => {},
    }
}

/// An empty bind group does not alter the output: a comprehension evaluates
/// to the same result with the group as without it.
pub proof fn law_empty_group_alters_nothing(c: Comprehension, d: Comprehension, k: int)
    requires
        0 <= k < c.chain@.len(),
        is_empty_group(c.chain@[k]),
        d.head == c.head,
        d.chain@ == c.chain@.remove(k),
    ensures
        d.trace().out == c.trace().out,
        d.trace().halt == c.trace().halt,
        d.result() == c.result(),
{
    lemma_walk_without_empty_group(c.chain@, c.head, k, 0, Seq::empty());
}

/// Whether matching the value of `e` against `p` succeeds in every
/// environment in which `e` has a value.
pub open spec fn always_matches(p: Pattern, e: Expr) -> bool {
    forall|env: Seq<Slot>|
        (#[trigger] expr_value(e, env)) is Ok ==> pattern_binds(
            p,
            expr_value(e, env)->Ok_0,
            false,
        ) is Some
}

/// From any clause on, a chain with a refutable bind that always matches
/// runs the same course whatever the fallback of that bind is.
pub proof fn lemma_walk_with_other_fallback(
    chain: Seq<Clause>,
    head: Expr,
    k: int,
    g: Fallback,
    at: int,
    env: Seq<Slot>,
)
    requires
        0 <= k < chain.len(),
        chain[k] is BindOrElse,
        always_matches(chain[k]->BindOrElse_0, chain[k]->BindOrElse_1),
        0 <= at,
    ensures
        walk(chain, head, at, env) == walk(
            chain.update(
                k,
                Clause::BindOrElse(chain[k]->BindOrElse_0, chain[k]->BindOrElse_1, g),
            ),
            head,
            at,
            env,
        ),
    decreases 2 * (chain.len() - at) + 1, Value::Unit,
{
    let other = chain.update(
        k,
        Clause::BindOrElse(chain[k]->BindOrElse_0, chain[k]->BindOrElse_1, g),
    );
    if at < chain.len() {
        if at == k {
            let e = chain[k]->BindOrElse_1;
            assert(expr_value(e, env) is Ok ==> pattern_binds(
                chain[k]->BindOrElse_0,
                expr_value(e, env)->Ok_0,
                false,
            ) is Some);
            match clause_outcome(chain[k], env) {
                Bound::Extended(next) => {
                    lemma_walk_with_other_fallback(chain, head, k, g, at + 1, next);
                },
                _ => {},
            }
        } else {
            assert(other[at] == chain[at]);
            match chain[at] {
                Clause::Generate(_, source) => match expr_value(source, env) {
                    Ok(v) => {
                        lemma_sweep_with_other_fallback(
                            chain,
                            head,
                            k,
                            g,
                            at,
                            v,
                            env.len() as int,
                            env,
                        );
                    },
                    Err(_) => {},
                },
                c => match clause_outcome(c, env) {
                    Bound::Extended(next) => {
                        lemma_walk_with_other_fallback(chain, head, k, g, at + 1, next);
                    },
                    _ => {},
                },
            }
        }
    }
}

/// The loop of a generator runs the same course whatever the fallback of a
/// refutable bind that always matches.
pub proof fn lemma_sweep_with_other_fallback(
    chain: Seq<Clause>,
    head: Expr,
    k: int,
    g: Fallback,
    at: int,
    rest: Value,
    height: int,
    env: Seq<Slot>,
)
    requires
        0 <= k < chain.len(),
        chain[k] is BindOrElse,
        always_matches(chain[k]->BindOrElse_0, chain[k]->BindOrElse_1),
        0 <= at < chain.len(),
    ensures
        sweep(chain, head, at, rest, height, env) == sweep(
            chain.update(
                k,
                Clause::BindOrElse(chain[k]->BindOrElse_0, chain[k]->BindOrElse_1, g),
            ),
            head,
            at,
            rest,
            height,
            env,
        ),
    decreases 2 * (chain.len() - at), rest,
{
    let other = chain.update(
        k,
        Clause::BindOrElse(chain[k]->BindOrElse_0, chain[k]->BindOrElse_1, g),
    );
    let base = cut(env, height);
    if at != k {
        assert(other[at] == chain[at]);
        match (chain[at], rest) {
            (Clause::Generate(p, _), Value::Cons(first, others)) => match pattern_binds(
                p,
                *first,
                false,
            ) {
                Some(slots) => {
                    lemma_walk_with_other_fallback(chain, head, k, g, at + 1, base + slots);
                    let inner = walk(chain, head, at + 1, base + slots);
                    lemma_sweep_with_other_fallback(
                        chain,
                        head,
                        k,
                        g,
                        at,
                        *others,
                        height,
                        inner.env,
                    );
                },
                None => {},
            },
            _ => {},
        }
    }
}

/// A refutable bind that always matches never takes its fallback, in any
/// combination: the comprehension runs the same course whatever that
/// fallback is.
pub proof fn law_fallback_never_taken(c: Comprehension, d: Comprehension, k: int)
    requires
        0 <= k < c.chain@.len(),
        c.chain@[k] is BindOrElse,
        always_matches(c.chain@[k]->BindOrElse_0, c.chain@[k]->BindOrElse_1),
        d.head == c.head,
        d.chain@.len() == c.chain@.len(),
        d.chain@[k] is BindOrElse,
        d.chain@[k]->BindOrElse_0 == c.chain@[k]->BindOrElse_0,
        d.chain@[k]->BindOrElse_1 == c.chain@[k]->BindOrElse_1,
        forall|i: int| 0 <= i < c.chain@.len() && i != k ==> d.chain@[i] == c.chain@[i],
    ensures
        d.trace() == c.trace(),
{
    let g = d.chain@[k]->BindOrElse_2;
    lemma_walk_with_other_fallback(c.chain@, c.head, k, g, 0, Seq::empty());
    assert(d.chain@ =~= c.chain@.update(
        k,
        Clause::BindOrElse(c.chain@[k]->BindOrElse_0, c.chain@[k]->BindOrElse_1, g),
    ));
}

/// Scoping can be settled before evaluation: a comprehension in which no
/// clause, nor the head expression, reads a name before a clause has bound
/// it never fails on an unbound name.
pub proof fn law_well_scoped_is_never_unbound(c: Comprehension)
    requires
        c.well_scoped(),
    ensures
        !unbound(c.trace().halt),
        !(c.result() matches Err(EvalError::Unbound(_))),
{
    lemma_walk_is_bound(c.chain@, c.head, 0, Seq::empty(), Seq::empty());
}

} // verus!
