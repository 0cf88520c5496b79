//! The binding environment of one evaluation: a stack of named slots.
//!
//! A later slot shadows an earlier one of the same name. Leaving the body of
//! a generator cuts the stack back to its height on entry, which keeps what
//! statements assigned to outer variables and drops what the body bound.

use vstd::prelude::*;
use crate::error::EvalError;
use crate::value::{Sym, Value};

verus! {

/// One binding.
#[derive(Debug, PartialEq, Eq)]
pub struct Slot {
    pub name: Sym,
    pub mutable: bool,
    pub value: Value,
}

/// The index of the innermost slot named `name`, if there is one.
pub open spec fn position(env: Seq<Slot>, name: Sym) -> Option<int>
    decreases env.len(),
{
    if env.len() == 0 {
        None
    } else if env.last().name == name {
        Some(env.len() - 1)
    } else {
        position(env.drop_last(), name)
    }
}

/// The value that `name` stands for in `env`.
pub open spec fn lookup(env: Seq<Slot>, name: Sym) -> Result<Value, EvalError> {
    match position(env, name) {
        Some(i) => Ok(env[i].value),
        None => Err(EvalError::Unbound(name)),
    }
}

/// `env` after `name = value`: the innermost slot of that name holds the new
/// value, provided it is mutable.
pub open spec fn assigned(env: Seq<Slot>, name: Sym, value: Value) -> Result<Seq<Slot>, EvalError> {
    match position(env, name) {
        Some(i) => if env[i].mutable {
            Ok(env.update(i, Slot { name: name, mutable: true, value: value }))
        } else {
            Err(EvalError::Immutable(name))
        },
        None => Err(EvalError::Unbound(name)),
    }
}

/// `env` cut back to `height` slots; unchanged if it is no higher.
pub open spec fn cut(env: Seq<Slot>, height: int) -> Seq<Slot> {
    if 0 <= height <= env.len() {
        env.subrange(0, height)
    } else {
        env
    }
}

/// Where `position` finds a name, the slot there has that name.
pub proof fn lemma_position_bounds(env: Seq<Slot>, name: Sym)
    ensures
        match position(env, name) {
            Some(i) => 0 <= i < env.len() && env[i].name == name,
            None => forall|j: int| 0 <= j < env.len() ==> (#[trigger] env[j]).name != name,
        },
    decreases env.len(),
{
    if env.len() > 0 && env.last().name != name {
        let shorter = env.drop_last();
        lemma_position_bounds(shorter, name);
        if position(shorter, name) is None {
            assert forall|j: int| 0 <= j < env.len() implies (#[trigger] env[j]).name != name by {
                if j < shorter.len() {
                    assert(shorter[j] == env[j]);
                }
            }
        }
    }
}

/// Finds the innermost slot named `name`.
pub fn find(env: &Vec<Slot>, name: Sym) -> (r: Option<usize>)
    ensures
        match r {
            Some(i) => position(env@, name) == Some(i as int) && i < env.len(),
            None => position(env@, name) is None,
        },
{
    let mut i: usize = env.len();
    proof {
        assert(env@.subrange(0, i as int) =~= env@);
    }
    while i > 0
        invariant
            i <= env.len(),
            position(env@, name) == position(env@.subrange(0, i as int), name),
        decreases i,
    {
        proof {
            let cur = env@.subrange(0, i as int);
            assert(cur.drop_last() =~= env@.subrange(0, i - 1));
            assert(cur.last() == env@[i - 1]);
        }
        if env[i - 1].name == name {
            return Some(i - 1);
        }
        i -= 1;
    }
    None
}

/// Reads a variable.
pub fn fetch(env: &Vec<Slot>, name: Sym) -> (r: Result<Value, EvalError>)
    ensures
        r == lookup(env@, name),
{
    match find(env, name) {
        Some(i) => Ok(env[i].value.duplicate()),
        None => Err(EvalError::Unbound(name)),
    }
}

/// Assigns to a variable.
pub fn assign(env: &mut Vec<Slot>, name: Sym, value: Value) -> (r: Result<(), EvalError>)
    ensures
        match assigned(old(env)@, name, value) {
            Ok(next) => r is Ok && final(env)@ == next,
            Err(e) => r == Err::<(), EvalError>(e) && final(env)@ == old(env)@,
        },
{
    match find(env, name) {
        Some(i) => {
            if env[i].mutable {
                env[i] = Slot { name, mutable: true, value };
                Ok(())
            } else {
                Err(EvalError::Immutable(name))
            }
        },
        None => Err(EvalError::Unbound(name)),
    }
}

} // verus!
