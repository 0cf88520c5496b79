//! The lazy evaluator: a chain run one value at a time.
//!
//! A `Cursor` keeps, for each generator that is open, the elements that are
//! still to come and the height of the environment when its loop began.
//! `resume` runs the nesting on from where the last value was handed out,
//! until the head expression gives the next one or the outermost loop is
//! exhausted.

use vstd::prelude::*;
use crate::binding::{Verdict, run_clause};
use crate::clause::{Clause, Comprehension, Fallback};
use crate::error::EvalError;
use crate::expr::{Expr, evaluate, expr_value};
use crate::pattern::{match_pattern, pattern_binds};
use crate::scope::{Slot, cut};
use crate::trace::{Bound, Halt, Trace, amounts_to, clause_outcome, idle, join, sweep, walk};
use crate::value::{Value, is_list};

verus! {

/// An open generator: the clause it stands at, the elements still to come,
/// and the height of the environment when its loop was entered.
#[derive(Debug, PartialEq, Eq)]
pub struct Frame {
    pub at: usize,
    pub rest: Value,
    pub height: usize,
}

/// Where a cursor is in its life.
#[derive(Debug, PartialEq, Eq, Clone, Copy)]
pub enum Phase {
    NotStarted,
    Suspended,
    Completed,
}

/// What a resume gives.
#[derive(Debug, PartialEq, Eq)]
pub enum Step {
    Yielded(Value),
    Completed,
}

/// Where the nesting is re-entered.
pub enum Mode {
    /// At clause `at`, going inwards.
    Forward(usize),
    /// At the next element of the innermost open generator.
    Backtrack,
}

/// What is still to run once the innermost open loop takes its next turn:
/// that loop to its end, then the one around it, and so on outwards.
pub open spec fn unwind(chain: Seq<Clause>, head: Expr, frames: Seq<Frame>, env: Seq<Slot>) -> Trace
    decreases frames.len(),
{
    if frames.len() == 0 {
        idle(env)
    } else {
        let f = frames.last();
        let t = sweep(chain, head, f.at as int, f.rest, f.height as int, env);
        join(t, unwind(chain, head, frames.drop_last(), t.env))
    }
}

/// What is still to run from clause `at` on, inside the open loops.
pub open spec fn forward(
    chain: Seq<Clause>,
    head: Expr,
    at: int,
    frames: Seq<Frame>,
    env: Seq<Slot>,
) -> Trace {
    let t = walk(chain, head, at, env);
    join(t, unwind(chain, head, frames, t.env))
}

/// What is still to run from a point of re-entry.
pub open spec fn future(
    chain: Seq<Clause>,
    head: Expr,
    mode: Mode,
    frames: Seq<Frame>,
    env: Seq<Slot>,
) -> Trace {
    match mode {
        Mode::Forward(at) => forward(chain, head, at as int, frames, env),
        Mode::Backtrack => unwind(chain, head, frames, env),
    }
}

/// Whether `t` is `u` after one step that produced nothing.
pub open spec fn precedes(t: Trace, u: Trace) -> bool {
    &&& t.out == u.out
    &&& t.halt == u.halt
    &&& t.steps == u.steps + 1
}

/// A clause that lets the chain go on is one step before the next clause.
pub proof fn lemma_forward_proceeds(
    chain: Seq<Clause>,
    head: Expr,
    at: int,
    frames: Seq<Frame>,
    env: Seq<Slot>,
    next: Seq<Slot>,
)
    requires
        0 <= at < chain.len(),
        !(chain[at] is Generate),
        clause_outcome(chain[at], env) == Bound::Extended(next),
    ensures
        precedes(forward(chain, head, at, frames, env), forward(chain, head, at + 1, frames, next)),
{
}

/// A clause that skips is one step before the next turn of the innermost
/// open loop.
pub proof fn lemma_forward_skips(
    chain: Seq<Clause>,
    head: Expr,
    at: int,
    frames: Seq<Frame>,
    env: Seq<Slot>,
    left: Seq<Slot>,
)
    requires
        0 <= at < chain.len(),
        !(chain[at] is Generate),
        clause_outcome(chain[at], env) == Bound::Diverted(Fallback::Skip, left),
    ensures
        precedes(forward(chain, head, at, frames, env), unwind(chain, head, frames, left)),
{
    let u = unwind(chain, head, frames, left);
    assert(Seq::<Value>::empty() + u.out =~= u.out);
}

/// Entering a generator is one step before the first turn of its loop.
pub proof fn lemma_forward_enters(
    chain: Seq<Clause>,
    head: Expr,
    at: usize,
    frames: Seq<Frame>,
    env: Seq<Slot>,
    list: Value,
)
    requires
        at < chain.len(),
        chain[at as int] is Generate,
        expr_value(chain[at as int]->Generate_1, env) == Ok::<Value, EvalError>(list),
        is_list(list),
        env.len() <= usize::MAX,
    ensures
        precedes(
            forward(chain, head, at as int, frames, env),
            unwind(
                chain,
                head,
                frames.push(Frame { at: at, rest: list, height: env.len() as usize }),
                env,
            ),
        ),
{
    let opened = frames.push(Frame { at: at, rest: list, height: env.len() as usize });
    assert(opened.drop_last() =~= frames);
}

/// A turn of the innermost loop that binds its element is one step before
/// the clause after the generator, with the element taken off.
pub proof fn lemma_unwind_binds(
    chain: Seq<Clause>,
    head: Expr,
    frames: Seq<Frame>,
    env: Seq<Slot>,
    slots: Seq<Slot>,
)
    requires
        frames.len() > 0,
        frames.last().at < chain.len(),
        chain[frames.last().at as int] is Generate,
        frames.last().rest is Cons,
        pattern_binds(
            chain[frames.last().at as int]->Generate_0,
            *frames.last().rest->Cons_0,
            false,
        ) == Some(slots),
    ensures
        precedes(
            unwind(chain, head, frames, env),
            forward(
                chain,
                head,
                frames.last().at + 1,
                frames.drop_last().push(
                    Frame {
                        at: frames.last().at,
                        rest: *frames.last().rest->Cons_1,
                        height: frames.last().height,
                    },
                ),
                cut(env, frames.last().height as int) + slots,
            ),
        ),
{
    let f = frames.last();
    let outer = frames.drop_last();
    let shorter = Frame { at: f.at, rest: *f.rest->Cons_1, height: f.height };
    let base = cut(env, f.height as int);
    let inner = walk(chain, head, f.at + 1, base + slots);
    let tail = sweep(chain, head, f.at as int, shorter.rest, f.height as int, inner.env);
    let beyond = unwind(chain, head, outer, tail.env);
    assert(outer.push(shorter).drop_last() =~= outer);
    assert(outer.push(shorter).last() == shorter);
    assert((inner.out + tail.out) + beyond.out =~= inner.out + (tail.out + beyond.out));
}

/// A turn of the innermost loop that finds no element left is one step
/// before the next turn of the loop around it.
pub proof fn lemma_unwind_leaves(
    chain: Seq<Clause>,
    head: Expr,
    frames: Seq<Frame>,
    env: Seq<Slot>,
)
    requires
        frames.len() > 0,
        !(frames.last().at < chain.len() && chain[frames.last().at as int] is Generate
            && frames.last().rest is Cons),
    ensures
        precedes(
            unwind(chain, head, frames, env),
            unwind(chain, head, frames.drop_last(), cut(env, frames.last().height as int)),
        ),
{
    let f = frames.last();
    let u = unwind(chain, head, frames.drop_last(), cut(env, f.height as int));
    assert(Seq::<Value>::empty() + u.out =~= u.out);
}

/// What a resume answers when `pending` is still to be yielded and the
/// evaluation then ends with `ending`.
pub open spec fn answer(pending: Seq<Value>, ending: Option<Halt>) -> Result<Step, EvalError> {
    if pending.len() > 0 {
        Ok(Step::Yielded(pending[0]))
    } else {
        match ending {
            Some(Halt::Failed(e)) => Err(e),
            _ => Ok(Step::Completed),
        }
    }
}

/// What a consumer collects who resumes, keeps what is yielded, and goes on
/// until a resume yields nothing.
pub open spec fn collected(pending: Seq<Value>, ending: Option<Halt>) -> Result<
    Seq<Value>,
    EvalError,
>
    decreases pending.len(),
{
    match answer(pending, ending) {
        Ok(Step::Yielded(v)) => if pending.len() > 0 {
            match collected(pending.skip(1), ending) {
                Ok(rest) => Ok(seq![v] + rest),
                Err(e) => Err(e),
            }
        } else {
            Ok(Seq::empty())
        },
        Ok(Step::Completed) => Ok(Seq::empty()),
        Err(e) => Err(e),
    }
}

/// Resuming to the end collects everything that was pending, unless the
/// evaluation fails.
pub proof fn lemma_collected(pending: Seq<Value>, ending: Option<Halt>)
    ensures
        collected(pending, ending) == amounts_to(pending, ending),
    decreases pending.len(),
{
    if pending.len() > 0 {
        lemma_collected(pending.skip(1), ending);
        assert(seq![pending[0]] + pending.skip(1) =~= pending);
    } else {
        assert(pending =~= Seq::<Value>::empty());
    }
}

/// One lazy evaluation of a comprehension: single pass, single consumer.
pub struct Cursor {
    comp: Comprehension,
    env: Vec<Slot>,
    frames: Vec<Frame>,
    phase: Phase,
}

impl Cursor {
    /// Everything that is still to run.
    pub closed spec fn course(&self) -> Trace {
        match self.phase {
            Phase::NotStarted => forward(self.comp.chain@, self.comp.head, 0, self.frames@, self.env@),
            Phase::Suspended => unwind(self.comp.chain@, self.comp.head, self.frames@, self.env@),
            Phase::Completed => idle(self.env@),
        }
    }

    /// The values that are still to be yielded, in order.
    pub open spec fn pending(&self) -> Seq<Value> {
        self.course().out
    }

    /// How the evaluation ends once nothing is pending: `None` where the
    /// chain is exhausted.
    pub open spec fn ending(&self) -> Option<Halt> {
        self.course().halt
    }

    /// Where the cursor is in its life.
    pub closed spec fn phase(&self) -> Phase {
        self.phase
    }

    /// A cursor at the start of `comp`.
    pub fn new(comp: Comprehension) -> (cursor: Cursor)
        ensures
            cursor.phase() is NotStarted,
            cursor.pending() == comp.trace().out,
            cursor.ending() == comp.trace().halt,
    {
        let cursor = Cursor { comp, env: Vec::new(), frames: Vec::new(), phase: Phase::NotStarted };
        proof {
            let t = comp.trace();
            let u = unwind(comp.chain@, comp.head, Seq::<Frame>::empty(), t.env);
            assert(cursor.frames@ =~= Seq::<Frame>::empty());
            assert(cursor.env@ =~= Seq::<Slot>::empty());
            assert(t.out + u.out =~= t.out);
        }
        cursor
    }

    /// Reports where the cursor is in its life.
    pub fn state(&self) -> (p: Phase)
        ensures
            p == self.phase(),
    {
        self.phase
    }

    /// A completed cursor has nothing pending and no ending to report.
    pub proof fn lemma_completed_is_exhausted(&self)
        requires
            self.phase() is Completed,
        ensures
            self.pending().len() == 0,
            self.ending() is None,
    {
    }

    /// Ends the evaluation and lets go of what it held.
    fn finish(&mut self)
        ensures
            final(self).phase() is Completed,
            final(self).pending().len() == 0,
            final(self).ending() is None,
    {
        self.frames.clear();
        self.env.clear();
        self.phase = Phase::Completed;
    }

    /// Runs on to the next value. While values are pending, gives the first
    /// of them and keeps the rest. Once none is, completes: with the failure
    /// that ended the evaluation if there was one, otherwise with
    /// `Completed`. A completed cursor answers `Completed` and is left
    /// untouched.
    pub fn resume(&mut self) -> (r: Result<Step, EvalError>)
        ensures
            r == answer(old(self).pending(), old(self).ending()),
            old(self).pending().len() > 0 ==> {
                &&& final(self).phase() is Suspended
                &&& final(self).pending() == old(self).pending().skip(1)
                &&& final(self).ending() == old(self).ending()
            },
            old(self).pending().len() == 0 ==> {
                &&& final(self).phase() is Completed
                &&& final(self).pending().len() == 0
                &&& final(self).ending() is None
            },
            old(self).phase() is Completed ==> *final(self) == *old(self) && r == Ok::<
                Step,
                EvalError,
            >(Step::Completed),
    {
        let ghost goal = self.course();
        let mut mode = match self.phase {
            Phase::Completed => {
                return Ok(Step::Completed);
            },
            Phase::NotStarted => Mode::Forward(0),
            Phase::Suspended => Mode::Backtrack,
        };
        loop
            invariant
                self.comp == old(self).comp,
                future(self.comp.chain@, self.comp.head, mode, self.frames@, self.env@).out
                    == goal.out,
                future(self.comp.chain@, self.comp.head, mode, self.frames@, self.env@).halt
                    == goal.halt,
                goal == old(self).course(),
                !(old(self).phase() is Completed),
            decreases future(self.comp.chain@, self.comp.head, mode, self.frames@, self.env@).steps,
        {
            let ghost chain = self.comp.chain@;
            let ghost head = self.comp.head;
            let ghost frames = self.frames@;
            let ghost env = self.env@;
            match mode {
                Mode::Forward(at) => {
                    if at < self.comp.chain.len() {
                        match &self.comp.chain[at] {
                            Clause::Generate(_, source) => match evaluate(source, &self.env) {
                                Ok(list) => {
                                    if matches!(list, Value::Nil) || matches!(
                                        list,
                                        Value::Cons(_, _),
                                    ) {
                                        let height = self.env.len();
                                        proof {
                                            lemma_forward_enters(chain, head, at, frames, env, list);
                                        }
                                        self.frames.push(Frame { at, rest: list, height });
                                        mode = Mode::Backtrack;
                                    } else {
                                        self.finish();
                                        return Err(EvalError::NotIterable);
                                    }
                                },
                                Err(f) => {
                                    self.finish();
                                    return Err(f);
                                },
                            },
                            clause => match run_clause(clause, &mut self.env) {
                                Verdict::Proceed => {
                                    proof {
                                        lemma_forward_proceeds(
                                            chain,
                                            head,
                                            at as int,
                                            frames,
                                            env,
                                            self.env@,
                                        );
                                    }
                                    mode = Mode::Forward(at + 1);
                                },
                                Verdict::Divert(Fallback::Skip) => {
                                    proof {
                                        lemma_forward_skips(
                                            chain,
                                            head,
                                            at as int,
                                            frames,
                                            env,
                                            self.env@,
                                        );
                                    }
                                    mode = Mode::Backtrack;
                                },
                                Verdict::Divert(Fallback::Stop) => {
                                    self.finish();
                                    return Ok(Step::Completed);
                                },
                                Verdict::Divert(Fallback::Abort(message)) => {
                                    self.finish();
                                    return Err(EvalError::Aborted(message));
                                },
                                Verdict::Fail(f) => {
                                    self.finish();
                                    return Err(f);
                                },
                            },
                        }
                    } else {
                        match evaluate(&self.comp.head, &self.env) {
                            Ok(v) => {
                                self.phase = Phase::Suspended;
                                proof {
                                    let u = unwind(chain, head, frames, env);
                                    assert((seq![v] + u.out).skip(1) =~= u.out);
                                }
                                return Ok(Step::Yielded(v));
                            },
                            Err(f) => {
                                self.finish();
                                return Err(f);
                            },
                        }
                    }
                },
                Mode::Backtrack => {
                    match self.frames.pop() {
                        None => {
                            self.finish();
                            return Ok(Step::Completed);
                        },
                        Some(frame) => {
                            proof {
                                assert(self.frames@ =~= frames.drop_last());
                                assert(frame == frames.last());
                            }
                            self.env.truncate(frame.height);
                            let Frame { at, rest, height } = frame;
                            if at < self.comp.chain.len() {
                                match (&self.comp.chain[at], rest) {
                                    (
                                        Clause::Generate(p, _),
                                        Value::Cons(first, others),
                                    ) => match match_pattern(p, &first, false) {
                                        Some(mut slots) => {
                                            proof {
                                                lemma_unwind_binds(chain, head, frames, env, slots@);
                                            }
                                            self.env.append(&mut slots);
                                            self.frames.push(Frame { at, rest: *others, height });
                                            mode = Mode::Forward(at + 1);
                                        },
                                        None => {
                                            self.finish();
                                            return Err(EvalError::Mismatch);
                                        },
                                    },
                                    _ => {
                                        proof {
                                            lemma_unwind_leaves(chain, head, frames, env);
                                        }
                                        mode = Mode::Backtrack;
                                    },
                                }
                            } else {
                                proof {
                                    lemma_unwind_leaves(chain, head, frames, env);
                                }
                                mode = Mode::Backtrack;
                            }
                        },
                    }
                },
            }
        }
    }

    /// Resumes until the cursor completes: every value that was pending, in
    /// order, or the failure that ended the evaluation.
    pub fn drain(&mut self) -> (r: Result<Vec<Value>, EvalError>)
        ensures
            final(self).phase() is Completed,
            match r {
                Ok(values) => collected(old(self).pending(), old(self).ending()) == Ok::<
                    Seq<Value>,
                    EvalError,
                >(values@),
                Err(e) => collected(old(self).pending(), old(self).ending()) == Err::<
                    Seq<Value>,
                    EvalError,
                >(e),
            },
    {
        proof {
            lemma_collected(self.pending(), self.ending());
        }
        let mut values: Vec<Value> = Vec::new();
        loop
            invariant
                values@ + self.pending() == old(self).pending(),
                self.ending() == old(self).ending(),
                collected(old(self).pending(), old(self).ending()) == amounts_to(
                    old(self).pending(),
                    old(self).ending(),
                ),
            decreases self.pending().len(),
        {
            let ghost before = self.pending();
            match self.resume() {
                Ok(Step::Yielded(v)) => {
                    values.push(v);
                    proof {
                        assert(values@ + before.skip(1) =~= (values@.drop_last() + before));
                    }
                },
                Ok(Step::Completed) => {
                    proof {
                        assert(values@ + before =~= values@);
                    }
                    return Ok(values);
                },
                Err(e) => {
                    return Err(e);
                },
            }
        }
    }
}

/// Starts a lazy evaluation of `comp`. Nothing is evaluated before the first
/// resume.
pub fn lazy(comp: Comprehension) -> (cursor: Cursor)
    ensures
        cursor.phase() is NotStarted,
        cursor.pending() == comp.trace().out,
        cursor.ending() == comp.trace().halt,
{
    Cursor::new(comp)
}

} // verus!
