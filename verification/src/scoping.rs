//! Static scoping: which names each clause may read, decided before any
//! evaluation.
//!
//! A name that a clause binds is in scope for the clauses after it and for
//! the head expression, never for the clause itself or an earlier one. A
//! comprehension that passes the check never fails on an unbound name.

use vstd::prelude::*;
use crate::clause::{Clause, Comprehension, Members, Statement};
use crate::expr::Expr;
use crate::pattern::{FieldPatterns, Pattern};
use crate::value::Sym;

verus! {

/// The names that a pattern binds, left to right.
pub open spec fn pattern_names(p: Pattern) -> Seq<Sym>
    decreases p,
{
    match p {
        Pattern::Wildcard => Seq::empty(),
        Pattern::Bind { name, .. } => seq![name],
        Pattern::Destructure { fields, .. } => field_names(*fields),
    }
}

/// The names that the listed fields of a destructuring pattern bind.
pub open spec fn field_names(fs: FieldPatterns) -> Seq<Sym>
    decreases fs,
{
    match fs {
        FieldPatterns::End => Seq::empty(),
        FieldPatterns::Field(_, sub, next) => pattern_names(*sub) + field_names(*next),
    }
}

/// Whether every variable that `e` mentions is in `scope`.
pub open spec fn closed(e: Expr, scope: Seq<Sym>) -> bool
    decreases e,
{
    match e {
        Expr::Const(_) => true,
        Expr::Var(n) => scope.contains(n),
        Expr::Pair(a, b) => closed(*a, scope) && closed(*b, scope),
        Expr::Cons(a, b) => closed(*a, scope) && closed(*b, scope),
        Expr::Equal(a, b) => closed(*a, scope) && closed(*b, scope),
        Expr::Differ(a, b) => closed(*a, scope) && closed(*b, scope),
        Expr::Less(a, b) => closed(*a, scope) && closed(*b, scope),
        Expr::Not(a) => closed(*a, scope),
        Expr::Both(a, b) => closed(*a, scope) && closed(*b, scope),
    }
}

/// The scope after a group of binds, or `None` where a member reads a name
/// that is not in scope when its turn comes.
pub open spec fn members_scope(ms: Members, scope: Seq<Sym>) -> Option<Seq<Sym>>
    decreases ms,
{
    match ms {
        Members::End => Some(scope),
        Members::Then(m, next) => if closed(m.init, scope) {
            members_scope(*next, scope + pattern_names(m.pattern))
        } else {
            None
        },
    }
}

/// The scope that a clause leaves for the clauses after it, or `None` where
/// the clause reads or assigns a name that is not in scope.
pub open spec fn clause_scope(c: Clause, scope: Seq<Sym>) -> Option<Seq<Sym>> {
    match c {
        Clause::Generate(p, e) => if closed(e, scope) {
            Some(scope + pattern_names(p))
        } else {
            None
        },
        Clause::Guard(e) => if closed(e, scope) {
            Some(scope)
        } else {
            None
        },
        Clause::Bind(p, _, e) => if closed(e, scope) {
            Some(scope + pattern_names(p))
        } else {
            None
        },
        Clause::BindGroup(ms, _) => members_scope(*ms, scope),
        Clause::BindOrElse(p, e, _) => if closed(e, scope) {
            Some(scope + pattern_names(p))
        } else {
            None
        },
        Clause::BindGroupOrElse(ms, _) => members_scope(*ms, scope),
        Clause::RawStatement(Statement::Assign(n, e)) => if scope.contains(n) && closed(e, scope) {
            Some(scope)
        } else {
            None
        },
    }
}

/// Whether the chain from clause `at` on, and the head expression after it,
/// read only names that are in scope where they are read.
pub open spec fn scoped_from(chain: Seq<Clause>, head: Expr, at: int, scope: Seq<Sym>) -> bool
    decreases chain.len() - at,
{
    if 0 <= at < chain.len() {
        match clause_scope(chain[at], scope) {
            Some(next) => scoped_from(chain, head, at + 1, next),
            None => false,
        }
    } else {
        closed(head, scope)
    }
}

impl Comprehension {
    /// Whether no clause, nor the head expression, reads a name before a
    /// clause has bound it.
    pub open spec fn well_scoped(&self) -> bool {
        scoped_from(self.chain@, self.head, 0, Seq::empty())
    }
}

/// Whether a name is in scope.
pub fn in_scope(scope: &Vec<Sym>, name: Sym) -> (r: bool)
    ensures
        r == scope@.contains(name),
{
    let mut i: usize = 0;
    while i < scope.len()
        invariant
            i <= scope.len(),
            forall|j: int| 0 <= j < i ==> scope@[j] != name,
        decreases scope.len() - i,
    {
        if scope[i] == name {
            return true;
        }
        i += 1;
    }
    false
}

/// Whether every variable that an expression mentions is in scope.
pub fn is_closed(e: &Expr, scope: &Vec<Sym>) -> (r: bool)
    ensures
        r == closed(*e, scope@),
    decreases *e,
{
    match e {
        Expr::Const(_) => true,
        Expr::Var(n) => in_scope(scope, *n),
        Expr::Pair(a, b) => is_closed(a, scope) && is_closed(b, scope),
        Expr::Cons(a, b) => is_closed(a, scope) && is_closed(b, scope),
        Expr::Equal(a, b) => is_closed(a, scope) && is_closed(b, scope),
        Expr::Differ(a, b) => is_closed(a, scope) && is_closed(b, scope),
        Expr::Less(a, b) => is_closed(a, scope) && is_closed(b, scope),
        Expr::Not(a) => is_closed(a, scope),
        Expr::Both(a, b) => is_closed(a, scope) && is_closed(b, scope),
    }
}

/// Brings the names that a pattern binds into scope.
pub fn declare(p: &Pattern, scope: &mut Vec<Sym>)
    ensures
        final(scope)@ == old(scope)@ + pattern_names(*p),
    decreases *p,
{
    match p {
        Pattern::Wildcard => {
            proof {
                assert(scope@ + Seq::<Sym>::empty() =~= scope@);
            }
        },
        Pattern::Bind { name, .. } => {
            scope.push(*name);
            proof {
                assert(scope@ =~= old(scope)@ + seq![*name]);
            }
        },
        Pattern::Destructure { fields, .. } => declare_fields(fields, scope),
    }
}

/// Brings the names that the listed fields bind into scope.
pub fn declare_fields(fs: &FieldPatterns, scope: &mut Vec<Sym>)
    ensures
        final(scope)@ == old(scope)@ + field_names(*fs),
    decreases *fs,
{
    match fs {
        FieldPatterns::End => {
            proof {
                assert(scope@ + Seq::<Sym>::empty() =~= scope@);
            }
        },
        FieldPatterns::Field(_, sub, next) => {
            declare(sub, scope);
            declare_fields(next, scope);
            proof {
                assert(scope@ =~= old(scope)@ + (pattern_names(**sub) + field_names(**next)));
            }
        },
    }
}

/// Checks a group of binds and brings what it binds into scope.
pub fn check_members(ms: &Members, scope: &mut Vec<Sym>) -> (r: bool)
    ensures
        match members_scope(*ms, old(scope)@) {
            Some(next) => r && final(scope)@ == next,
            None => !r,
        },
    decreases *ms,
{
    match ms {
        Members::End => true,
        Members::Then(m, next) => {
            if is_closed(&m.init, scope) {
                declare(&m.pattern, scope);
                check_members(next, scope)
            } else {
                false
            }
        },
    }
}

/// Checks a clause and brings what it binds into scope.
pub fn check_clause(c: &Clause, scope: &mut Vec<Sym>) -> (r: bool)
    ensures
        match clause_scope(*c, old(scope)@) {
            Some(next) => r && final(scope)@ == next,
            None => !r,
        },
{
    match c {
        Clause::Generate(p, e) => {
            if is_closed(e, scope) {
                declare(p, scope);
                true
            } else {
                false
            }
        },
        Clause::Guard(e) => is_closed(e, scope),
        Clause::Bind(p, _, e) => {
            if is_closed(e, scope) {
                declare(p, scope);
                true
            } else {
                false
            }
        },
        Clause::BindGroup(ms, _) => check_members(ms, scope),
        Clause::BindOrElse(p, e, _) => {
            if is_closed(e, scope) {
                declare(p, scope);
                true
            } else {
                false
            }
        },
        Clause::BindGroupOrElse(ms, _) => check_members(ms, scope),
        Clause::RawStatement(Statement::Assign(n, e)) => in_scope(scope, *n) && is_closed(e, scope),
    }
}

impl Comprehension {
    /// Checks, without evaluating anything, that no clause nor the head
    /// expression reads a name before a clause has bound it.
    pub fn check_scopes(&self) -> (r: bool)
        ensures
            r == self.well_scoped(),
    {
        let mut scope: Vec<Sym> = Vec::new();
        let mut at: usize = 0;
        while at < self.chain.len()
            invariant
                at <= self.chain.len(),
                self.well_scoped() == scoped_from(self.chain@, self.head, at as int, scope@),
            decreases self.chain.len() - at,
        {
            if !check_clause(&self.chain[at], &mut scope) {
                return false;
            }
            at += 1;
        }
        is_closed(&self.head, &scope)
    }
}

} // verus!
