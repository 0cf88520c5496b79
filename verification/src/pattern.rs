//! Patterns, and the matcher that destructures a value against one.

use vstd::prelude::*;
use crate::scope::Slot;
use crate::value::{Sym, Value};

verus! {

/// The shape that a type annotation asks of a value.
#[derive(Debug, PartialEq, Eq, Clone, Copy)]
pub enum Kind {
    Unit,
    Int,
    Bool,
    Text,
    Pair,
    List,
    Record,
}

/// A structural pattern.
#[derive(Debug, PartialEq, Eq)]
pub enum Pattern {
    /// Matches anything and binds nothing.
    Wildcard,
    /// Binds the value to `name`, if it has the annotated kind.
    Bind { name: Sym, mutable: bool, annotation: Option<Kind> },
    /// Matches a record of kind `kind` field by field. Unless `rest` is set,
    /// the record may hold no field beyond those listed.
    Destructure { kind: Sym, fields: Box<FieldPatterns>, rest: bool },
}

/// The fields that a destructuring pattern lists, each with the pattern for
/// its value: `Field(f, Bind x, ..)` renames field `f` to `x`.
#[derive(Debug, PartialEq, Eq)]
pub enum FieldPatterns {
    End,
    Field(Sym, Box<Pattern>, Box<FieldPatterns>),
}

/// Whether `v` has the shape `k`.
pub open spec fn fits(k: Kind, v: Value) -> bool {
    match k {
        Kind::Unit => v is Unit,
        Kind::Int => v is Int,
        Kind::Bool => v is Bool,
        Kind::Text => v is Text,
        Kind::Pair => v is Pair,
        Kind::List => v is Nil || v is Cons,
        Kind::Record => v is Record,
    }
}

/// The value of the first field named `name` in a record's payload.
pub open spec fn field_value(payload: Value, name: Sym) -> Option<Value>
    decreases payload,
{
    match payload {
        Value::Cons(h, t) => match *h {
            Value::Field(n, v) => if n == name {
                Some(*v)
            } else {
                field_value(*t, name)
            },
            _ => field_value(*t, name),
        },
        _ => None,
    }
}

/// Whether a pattern lists as many fields as a record's payload holds.
pub open spec fn exhaustive(fs: FieldPatterns, payload: Value) -> bool
    decreases fs,
{
    match fs {
        FieldPatterns::End => !(payload is Cons),
        FieldPatterns::Field(_, _, next) => match payload {
            Value::Cons(_, t) => exhaustive(*next, *t),
            _ => false,
        },
    }
}

/// The slots that matching `v` against `p` binds, left to right, or `None`
/// where `v` does not match. A name is mutable if the pattern says so or if
/// the binding clause does (`mutable`).
pub open spec fn pattern_binds(p: Pattern, v: Value, mutable: bool) -> Option<Seq<Slot>>
    decreases p,
{
    match p {
        Pattern::Wildcard => Some(Seq::empty()),
        Pattern::Bind { name, mutable: own, annotation } => {
            if annotation is None || fits(annotation->0, v) {
                Some(seq![Slot { name: name, mutable: own || mutable, value: v }])
            } else {
                None
            }
        },
        Pattern::Destructure { kind, fields, rest } => match v {
            Value::Record(k, payload) => {
                if k == kind && (rest || exhaustive(*fields, *payload)) {
                    fields_bind(*fields, *payload, mutable)
                } else {
                    None
                }
            },
            _ => None,
        },
    }
}

/// The slots that the listed fields bind against a record's payload.
pub open spec fn fields_bind(fs: FieldPatterns, payload: Value, mutable: bool) -> Option<Seq<Slot>>
    decreases fs,
{
    match fs {
        FieldPatterns::End => Some(Seq::empty()),
        FieldPatterns::Field(name, sub, next) => match field_value(payload, name) {
            Some(v) => match pattern_binds(*sub, v, mutable) {
                Some(first) => match fields_bind(*next, payload, mutable) {
                    Some(others) => Some(first + others),
                    None => None,
                },
                None => None,
            },
            None => None,
        },
    }
}

/// Whether a value has the annotated shape.
pub fn kind_fits(k: Kind, v: &Value) -> (r: bool)
    ensures
        r == fits(k, *v),
{
    match k {
        Kind::Unit => matches!(v, Value::Unit),
        Kind::Int => matches!(v, Value::Int(_)),
        Kind::Bool => matches!(v, Value::Bool(_)),
        Kind::Text => matches!(v, Value::Text(_)),
        Kind::Pair => matches!(v, Value::Pair(_, _)),
        Kind::List => matches!(v, Value::Nil) || matches!(v, Value::Cons(_, _)),
        Kind::Record => matches!(v, Value::Record(_, _)),
    }
}

/// Looks a field up in a record's payload.
pub fn find_field<'a>(payload: &'a Value, name: Sym) -> (r: Option<&'a Value>)
    ensures
        match r {
            Some(v) => field_value(*payload, name) == Some(*v),
            None => field_value(*payload, name) is None,
        },
    decreases *payload,
{
    match payload {
        Value::Cons(h, t) => match &**h {
            Value::Field(n, v) => if *n == name {
                Some(&**v)
            } else {
                find_field(t, name)
            },
            _ => find_field(t, name),
        },
        _ => None,
    }
}

/// Whether a pattern lists as many fields as a record's payload holds.
pub fn is_exhaustive(fs: &FieldPatterns, payload: &Value) -> (r: bool)
    ensures
        r == exhaustive(*fs, *payload),
    decreases *fs,
{
    match fs {
        FieldPatterns::End => !matches!(payload, Value::Cons(_, _)),
        FieldPatterns::Field(_, _, next) => match payload {
            Value::Cons(_, t) => is_exhaustive(next, t),
            _ => false,
        },
    }
}

/// Destructures `v` against `p`: the new slots, left to right, or `None`
/// where the value does not match.
pub fn match_pattern(p: &Pattern, v: &Value, mutable: bool) -> (r: Option<Vec<Slot>>)
    ensures
        match r {
            Some(slots) => pattern_binds(*p, *v, mutable) == Some(slots@),
            None => pattern_binds(*p, *v, mutable) is None,
        },
    decreases *p,
{
    match p {
        Pattern::Wildcard => Some(Vec::new()),
        Pattern::Bind { name, mutable: own, annotation } => {
            let admitted = match annotation {
                Some(k) => kind_fits(*k, v),
                None => true,
            };
            if admitted {
                let mut slots: Vec<Slot> = Vec::new();
                slots.push(Slot { name: *name, mutable: *own || mutable, value: v.duplicate() });
                proof {
                    assert(slots@ =~= seq![
                        Slot { name: *name, mutable: *own || mutable, value: *v },
                    ]);
                }
                Some(slots)
            } else {
                None
            }
        },
        Pattern::Destructure { kind, fields, rest } => match v {
            Value::Record(k, payload) => {
                if *k != *kind {
                    return None;
                }
                if *rest || is_exhaustive(fields, payload) {
                    match_fields(fields, payload, mutable)
                } else {
                    None
                }
            },
            _ => None,
        },
    }
}

/// Destructures a record's payload against the listed fields.
pub fn match_fields(fs: &FieldPatterns, payload: &Value, mutable: bool) -> (r: Option<Vec<Slot>>)
    ensures
        match r {
            Some(slots) => fields_bind(*fs, *payload, mutable) == Some(slots@),
            None => fields_bind(*fs, *payload, mutable) is None,
        },
    decreases *fs,
{
    match fs {
        FieldPatterns::End => Some(Vec::new()),
        FieldPatterns::Field(name, sub, next) => match find_field(payload, *name) {
            Some(v) => match match_pattern(sub, v, mutable) {
                Some(mut first) => match match_fields(next, payload, mutable) {
                    Some(mut others) => {
                        first.append(&mut others);
                        Some(first)
                    },
                    None => None,
                },
                None => None,
            },
            None => None,
        },
    }
}

impl Pattern {
    /// A deep, independent copy.
    pub fn duplicate(&self) -> (r: Pattern)
        ensures
            r == *self,
        decreases *self,
    {
        match self {
            Pattern::Wildcard => Pattern::Wildcard,
            Pattern::Bind { name, mutable, annotation } => Pattern::Bind {
                name: *name,
                mutable: *mutable,
                annotation: *annotation,
            },
            Pattern::Destructure { kind, fields, rest } => Pattern::Destructure {
                kind: *kind,
                fields: Box::new(fields.duplicate()),
                rest: *rest,
            },
        }
    }
}

impl FieldPatterns {
    /// A deep, independent copy.
    pub fn duplicate(&self) -> (r: FieldPatterns)
        ensures
            r == *self,
        decreases *self,
    {
        match self {
            FieldPatterns::End => FieldPatterns::End,
            FieldPatterns::Field(name, sub, next) => FieldPatterns::Field(
                *name,
                Box::new(sub.duplicate()),
                Box::new(next.duplicate()),
            ),
        }
    }
}

impl Clone for Pattern {
    fn clone(&self) -> (r: Self)
        ensures
            r == *self,
    {
        self.duplicate()
    }
}

impl Clone for FieldPatterns {
    fn clone(&self) -> (r: Self)
        ensures
            r == *self,
    {
        self.duplicate()
    }
}

/// The listed fields `s`, in order, in front of `tail`.
pub open spec fn fields_onto(s: Seq<(Sym, Pattern)>, tail: FieldPatterns) -> FieldPatterns
    decreases s.len(),
{
    if s.len() == 0 {
        tail
    } else {
        fields_onto(
            s.drop_last(),
            FieldPatterns::Field(s.last().0, Box::new(s.last().1), Box::new(tail)),
        )
    }
}

impl Pattern {
    /// The pattern that binds a value to an immutable name.
    pub fn name(name: Sym) -> (r: Pattern)
        ensures
            r == (Pattern::Bind { name: name, mutable: false, annotation: None }),
    {
        Pattern::Bind { name, mutable: false, annotation: None }
    }

    /// The pattern that binds a value to a mutable name.
    pub fn mutable_name(name: Sym) -> (r: Pattern)
        ensures
            r == (Pattern::Bind { name: name, mutable: true, annotation: None }),
    {
        Pattern::Bind { name, mutable: true, annotation: None }
    }

    /// The pattern that binds a value of the given kind to a name.
    pub fn typed_name(name: Sym, mutable: bool, kind: Kind) -> (r: Pattern)
        ensures
            r == (Pattern::Bind { name: name, mutable: mutable, annotation: Some(kind) }),
    {
        Pattern::Bind { name, mutable, annotation: Some(kind) }
    }

    /// The pattern that destructures a record of kind `kind` by the listed
    /// fields, in order. With `rest`, fields that are not listed are
    /// ignored.
    pub fn record(kind: Sym, fields: Vec<(Sym, Pattern)>, rest: bool) -> (r: Pattern)
        ensures
            r == (Pattern::Destructure {
                kind: kind,
                fields: Box::new(fields_onto(fields@, FieldPatterns::End)),
                rest: rest,
            }),
    {
        let mut fields = fields;
        let ghost all = fields@;
        let mut listed = FieldPatterns::End;
        while fields.len() > 0
            invariant
                fields_onto(fields@, listed) == fields_onto(all, FieldPatterns::End),
            decreases fields.len(),
        {
            let (name, sub) = fields.pop().unwrap();
            listed = FieldPatterns::Field(name, Box::new(sub), Box::new(listed));
        }
        Pattern::Destructure { kind, fields: Box::new(listed), rest }
    }
}

} // verus!
