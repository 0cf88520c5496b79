//! The eager evaluator: runs a chain to its end and returns every value.

use vstd::prelude::*;
use crate::binding::{Verdict, run_clause};
use crate::clause::{Clause, Comprehension, Fallback};
use crate::error::EvalError;
use crate::expr::evaluate;
use crate::pattern::match_pattern;
use crate::scope::Slot;
use crate::trace::{Halt, Trace, diverted, sweep, walk};
use crate::value::Value;

verus! {

/// Whether an evaluator that started with `before` in its buffer and ended
/// with `after`, `env` and `halt` ran the course `t`.
pub open spec fn follows(
    t: Trace,
    before: Seq<Value>,
    after: Seq<Value>,
    env: Seq<Slot>,
    halt: Option<Halt>,
) -> bool {
    &&& after == before + t.out
    &&& halt == t.halt
    &&& halt is None ==> env == t.env
}

/// What taking a fallback means for the evaluation.
pub fn divert(f: Fallback) -> (halt: Option<Halt>)
    ensures
        halt == diverted(f, Seq::empty()).halt,
{
    match f {
        Fallback::Skip => None,
        Fallback::Stop => Some(Halt::Stopped),
        Fallback::Abort(message) => Some(Halt::Failed(EvalError::Aborted(message))),
    }
}

/// Runs the chain from clause `at` on, appending to `out` what the head
/// expression gives for each combination that reaches the end.
pub fn run(c: &Comprehension, at: usize, env: &mut Vec<Slot>, out: &mut Vec<Value>) -> (halt:
    Option<Halt>)
    ensures
        follows(
            walk(c.chain@, c.head, at as int, old(env)@),
            old(out)@,
            final(out)@,
            final(env)@,
            halt,
        ),
    decreases 2 * (c.chain.len() - at) + 1, Value::Unit,
{
    if at < c.chain.len() {
        match &c.chain[at] {
            Clause::Generate(_, source) => match evaluate(source, env) {
                Ok(v) => {
                    if matches!(v, Value::Nil) || matches!(v, Value::Cons(_, _)) {
                        let height = env.len();
                        let halt = run_loop(c, at, &v, height, env, out);
                        halt
                    } else {
                        proof {
                            assert(out@ + Seq::<Value>::empty() =~= out@);
                        }
                        Some(Halt::Failed(EvalError::NotIterable))
                    }
                },
                Err(f) => {
                    proof {
                        assert(out@ + Seq::<Value>::empty() =~= out@);
                    }
                    Some(Halt::Failed(f))
                },
            },
            clause => match run_clause(clause, env) {
                Verdict::Proceed => run(c, at + 1, env, out),
                Verdict::Divert(f) => {
                    proof {
                        assert(out@ + Seq::<Value>::empty() =~= out@);
                    }
                    divert(f)
                },
                Verdict::Fail(f) => {
                    proof {
                        assert(out@ + Seq::<Value>::empty() =~= out@);
                    }
                    Some(Halt::Failed(f))
                },
            },
        }
    } else {
        match evaluate(&c.head, env) {
            Ok(v) => {
                out.push(v);
                proof {
                    assert(out@ =~= old(out)@ + seq![v]);
                }
                None
            },
            Err(f) => {
                proof {
                    assert(out@ + Seq::<Value>::empty() =~= out@);
                }
                Some(Halt::Failed(f))
            },
        }
    }
}

/// Runs the generator at clause `at` over the elements that are still to
/// come.
pub fn run_loop(
    c: &Comprehension,
    at: usize,
    rest: &Value,
    height: usize,
    env: &mut Vec<Slot>,
    out: &mut Vec<Value>,
) -> (halt: Option<Halt>)
    ensures
        follows(
            sweep(c.chain@, c.head, at as int, *rest, height as int, old(env)@),
            old(out)@,
            final(out)@,
            final(env)@,
            halt,
        ),
    decreases 2 * (c.chain.len() - at), *rest,
{
    let ghost goal = sweep(c.chain@, c.head, at as int, *rest, height as int, old(env)@);
    let ghost mut done = Seq::<Value>::empty();
    let mut cur = rest;
    proof {
        assert(out@ + done =~= out@);
        assert(done + goal.out =~= goal.out);
    }
    loop
        invariant
            out@ == old(out)@ + done,
            goal.out == done + sweep(c.chain@, c.head, at as int, *cur, height as int, env@).out,
            goal.halt == sweep(c.chain@, c.head, at as int, *cur, height as int, env@).halt,
            goal.env == sweep(c.chain@, c.head, at as int, *cur, height as int, env@).env,
            goal == sweep(c.chain@, c.head, at as int, *rest, height as int, old(env)@),
        decreases *cur,
    {
        env.truncate(height);
        proof {
            assert(done + Seq::<Value>::empty() =~= done);
        }
        if at >= c.chain.len() {
            return None;
        }
        match (&c.chain[at], cur) {
            (Clause::Generate(p, _), Value::Cons(first, others)) => match match_pattern(
                p,
                first,
                false,
            ) {
                Some(mut slots) => {
                    env.append(&mut slots);
                    let ghost start = env@;
                    let inner = run(c, at + 1, env, out);
                    proof {
                        let t = walk(c.chain@, c.head, at + 1, start);
                        let u = sweep(c.chain@, c.head, at as int, **others, height as int, t.env);
                        assert(out@ =~= old(out)@ + (done + t.out));
                        assert(done + (t.out + u.out) =~= (done + t.out) + u.out);
                        done = done + t.out;
                    }
                    if inner.is_some() {
                        return inner;
                    }
                    cur = others;
                },
                None => {
                    return Some(Halt::Failed(EvalError::Mismatch));
                },
            },
            _ => {
                return None;
            },
        }
    }
}

/// Evaluates a comprehension: every value it produces, in order, or the
/// failure that ended it. A `Stop` ends it early with what was produced.
pub fn eager(c: &Comprehension) -> (r: Result<Vec<Value>, EvalError>)
    ensures
        match r {
            Ok(values) => c.result() == Ok::<Seq<Value>, EvalError>(values@),
            Err(e) => c.result() == Err::<Seq<Value>, EvalError>(e),
        },
{
    let mut env: Vec<Slot> = Vec::new();
    let mut out: Vec<Value> = Vec::new();
    let halt = run(c, 0, &mut env, &mut out);
    proof {
        assert(Seq::<Value>::empty() + c.trace().out =~= c.trace().out);
    }
    match halt {
        Some(Halt::Failed(e)) => Err(e),
        _ => Ok(out),
    }
}

} // verus!
