//! The clause chain: what a comprehension is made of.

use vstd::prelude::*;
use crate::expr::Expr;
use crate::pattern::Pattern;
use crate::value::Sym;

verus! {

/// What a refutable bind does when its value does not match. Every fallback
/// leaves the normal continuation: none falls through to the next clause.
#[derive(Debug, PartialEq, Eq)]
pub enum Fallback {
    /// Abandon the current combination and go on with the next element of
    /// the nearest enclosing generator.
    Skip,
    /// End the whole evaluation; what was produced so far stands.
    Stop,
    /// Fail the evaluation with this message.
    Abort(String),
}

/// A statement run for its effect on the environment.
#[derive(Debug, PartialEq, Eq)]
pub enum Statement {
    /// Overwrites the innermost variable of that name, which must be mutable.
    Assign(Sym, Expr),
}

/// How a bind group treats the mutability flags of its members.
#[derive(Debug, PartialEq, Eq, Clone, Copy)]
pub enum GroupMode {
    /// Each member is as mutable as it says.
    Respect,
    /// Every member is mutable, whatever it says.
    ForceMutable,
}

/// One binding of a group: `pattern = init`, with the fallback to take where
/// the group is refutable and the value does not match.
#[derive(Debug, PartialEq, Eq)]
pub struct Member {
    pub pattern: Pattern,
    pub mutable: bool,
    pub init: Expr,
    pub otherwise: Option<Fallback>,
}

/// The members of a bind group, in order. Each sees what those before it
/// bound.
#[derive(Debug, PartialEq, Eq)]
pub enum Members {
    End,
    Then(Member, Box<Members>),
}

/// One clause of a chain.
#[derive(Debug, PartialEq, Eq)]
pub enum Clause {
    /// For each element of the list that the expression evaluates to, match
    /// it against the pattern, which must succeed, and run the rest.
    Generate(Pattern, Expr),
    /// Run the rest only if the predicate holds; otherwise abandon the
    /// current combination.
    Guard(Expr),
    /// Bind the value of the expression; the pattern must match. The flag
    /// makes every bound name mutable.
    Bind(Pattern, bool, Expr),
    /// A block of binds, each of which must match.
    BindGroup(Box<Members>, GroupMode),
    /// Bind the value of the expression if the pattern matches; otherwise
    /// take the fallback and do not run the rest.
    BindOrElse(Pattern, Expr, Fallback),
    /// A block of binds; a member that does not match takes its fallback.
    BindGroupOrElse(Box<Members>, GroupMode),
    /// Run a statement for its effect.
    RawStatement(Statement),
}

/// A head expression and the ordered chain of clauses that feeds it.
#[derive(Debug, PartialEq, Eq)]
pub struct Comprehension {
    pub head: Expr,
    pub chain: Vec<Clause>,
}

impl Fallback {
    /// An independent copy.
    pub fn duplicate(&self) -> (r: Fallback)
        ensures
            r == *self,
    {
        match self {
            Fallback::Skip => Fallback::Skip,
            Fallback::Stop => Fallback::Stop,
            Fallback::Abort(m) => Fallback::Abort(m.clone()),
        }
    }
}

impl Statement {
    /// A deep, independent copy.
    pub fn duplicate(&self) -> (r: Statement)
        ensures
            r == *self,
    {
        match self {
            Statement::Assign(name, e) => Statement::Assign(*name, e.duplicate()),
        }
    }
}

impl Member {
    /// A deep, independent copy.
    pub fn duplicate(&self) -> (r: Member)
        ensures
            r == *self,
    {
        Member {
            pattern: self.pattern.duplicate(),
            mutable: self.mutable,
            init: self.init.duplicate(),
            otherwise: match &self.otherwise {
                Some(f) => Some(f.duplicate()),
                None => None,
            },
        }
    }
}

impl Members {
    /// A deep, independent copy.
    pub fn duplicate(&self) -> (r: Members)
        ensures
            r == *self,
        decreases *self,
    {
        match self {
            Members::End => Members::End,
            Members::Then(m, next) => Members::Then(m.duplicate(), Box::new(next.duplicate())),
        }
    }
}

impl Clause {
    /// A deep, independent copy.
    pub fn duplicate(&self) -> (r: Clause)
        ensures
            r == *self,
    {
        match self {
            Clause::Generate(p, e) => Clause::Generate(p.duplicate(), e.duplicate()),
            Clause::Guard(e) => Clause::Guard(e.duplicate()),
            Clause::Bind(p, mutable, e) => Clause::Bind(p.duplicate(), *mutable, e.duplicate()),
            Clause::BindGroup(ms, mode) => Clause::BindGroup(Box::new(ms.duplicate()), *mode),
            Clause::BindOrElse(p, e, f) => Clause::BindOrElse(
                p.duplicate(),
                e.duplicate(),
                f.duplicate(),
            ),
            Clause::BindGroupOrElse(ms, mode) => Clause::BindGroupOrElse(
                Box::new(ms.duplicate()),
                *mode,
            ),
            Clause::RawStatement(s) => Clause::RawStatement(s.duplicate()),
        }
    }
}

impl Comprehension {
    /// A deep, independent copy: the same head over the same clauses. What
    /// is evaluated from the copy shares nothing with what is evaluated from
    /// `self`.
    pub fn duplicate(&self) -> (r: Comprehension)
        ensures
            r.head == self.head,
            r.chain@ == self.chain@,
    {
        let mut chain: Vec<Clause> = Vec::new();
        let mut i: usize = 0;
        while i < self.chain.len()
            invariant
                i <= self.chain.len(),
                chain@ == self.chain@.subrange(0, i as int),
            decreases self.chain.len() - i,
        {
            chain.push(self.chain[i].duplicate());
            proof {
                assert(chain@ =~= self.chain@.subrange(0, i + 1));
            }
            i += 1;
        }
        proof {
            assert(self.chain@.subrange(0, i as int) =~= self.chain@);
        }
        Comprehension { head: self.head.duplicate(), chain }
    }
}

impl Clone for Fallback {
    fn clone(&self) -> (r: Self)
        ensures
            r == *self,
    {
        self.duplicate()
    }
}

impl Clone for Statement {
    fn clone(&self) -> (r: Self)
        ensures
            r == *self,
    {
        self.duplicate()
    }
}

impl Clone for Member {
    fn clone(&self) -> (r: Self)
        ensures
            r == *self,
    {
        self.duplicate()
    }
}

impl Clone for Members {
    fn clone(&self) -> (r: Self)
        ensures
            r == *self,
    {
        self.duplicate()
    }
}

impl Clone for Clause {
    fn clone(&self) -> (r: Self)
        ensures
            r == *self,
    {
        self.duplicate()
    }
}

impl Clone for Comprehension {
    fn clone(&self) -> (r: Self)
        ensures
            r.head == self.head,
            r.chain@ == self.chain@,
    {
        self.duplicate()
    }
}

/// The members `s`, in order, in front of `tail`.
pub open spec fn members_onto(s: Seq<Member>, tail: Members) -> Members
    decreases s.len(),
{
    if s.len() == 0 {
        tail
    } else {
        members_onto(s.drop_last(), Members::Then(s.last(), Box::new(tail)))
    }
}

impl Member {
    /// A member that must match.
    pub fn plain(pattern: Pattern, mutable: bool, init: Expr) -> (r: Member)
        ensures
            r == (Member { pattern: pattern, mutable: mutable, init: init, otherwise: None }),
    {
        Member { pattern, mutable, init, otherwise: None }
    }

    /// A member with a fallback for the case that it does not match.
    pub fn or_else(pattern: Pattern, init: Expr, fallback: Fallback) -> (r: Member)
        ensures
            r == (Member {
                pattern: pattern,
                mutable: false,
                init: init,
                otherwise: Some(fallback),
            }),
    {
        Member { pattern, mutable: false, init, otherwise: Some(fallback) }
    }
}

impl Members {
    /// The group of the given members, in order.
    pub fn from_vec(members: Vec<Member>) -> (r: Members)
        ensures
            r == members_onto(members@, Members::End),
    {
        let mut members = members;
        let ghost all = members@;
        let mut r = Members::End;
        while members.len() > 0
            invariant
                members_onto(members@, r) == members_onto(all, Members::End),
            decreases members.len(),
        {
            let last = members.pop().unwrap();
            r = Members::Then(last, Box::new(r));
        }
        r
    }
}

impl Comprehension {
    /// The comprehension of `head` over `chain`.
    pub fn new(head: Expr, chain: Vec<Clause>) -> (r: Comprehension)
        ensures
            r.head == head,
            r.chain == chain,
    {
        Comprehension { head, chain }
    }
}

} // verus!
