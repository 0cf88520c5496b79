//! Values that clauses bind and head expressions produce.

use vstd::prelude::*;

verus! {

/// An interned identifier: the name of a variable, of a record kind or of a
/// record field.
pub type Sym = u64;

/// A dynamically typed value.
///
/// Lists are chains of `Cons` cells that end in anything that is not a
/// `Cons` (conventionally `Nil`). A record is a `Record` whose payload is a
/// list of `Field` cells, in declaration order.
#[derive(Debug, PartialEq, Eq)]
pub enum Value {
    Unit,
    Int(i64),
    Bool(bool),
    Text(String),
    Pair(Box<Value>, Box<Value>),
    Nil,
    Cons(Box<Value>, Box<Value>),
    Record(Sym, Box<Value>),
    Field(Sym, Box<Value>),
}

/// Whether two values are equal as data: texts are compared by their
/// characters, everything else structurally.
pub open spec fn same(a: Value, b: Value) -> bool
    decreases a,
{
    match (a, b) {
        (Value::Unit, Value::Unit) => true,
        (Value::Int(x), Value::Int(y)) => x == y,
        (Value::Bool(x), Value::Bool(y)) => x == y,
        (Value::Text(s), Value::Text(t)) => s@ == t@,
        (Value::Pair(a1, a2), Value::Pair(b1, b2)) => same(*a1, *b1) && same(*a2, *b2),
        (Value::Nil, Value::Nil) => true,
        (Value::Cons(a1, a2), Value::Cons(b1, b2)) => same(*a1, *b1) && same(*a2, *b2),
        (Value::Record(k, p), Value::Record(l, q)) => k == l && same(*p, *q),
        (Value::Field(k, p), Value::Field(l, q)) => k == l && same(*p, *q),
        _ => false,
    }
}

/// The elements of a list, first to last. A value that is not a `Cons` cell
/// has no elements.
pub open spec fn items(v: Value) -> Seq<Value>
    decreases v,
{
    match v {
        Value::Cons(h, t) => seq![*h] + items(*t),
        _ => Seq::empty(),
    }
}

/// Whether a value can be iterated: it is the empty list or a `Cons` cell.
pub open spec fn is_list(v: Value) -> bool {
    v is Nil || v is Cons
}

/// The list of the elements of `s`, in order, in front of `tail`.
pub open spec fn list_onto(s: Seq<Value>, tail: Value) -> Value
    decreases s.len(),
{
    if s.len() == 0 {
        tail
    } else {
        list_onto(s.drop_last(), Value::Cons(Box::new(s.last()), Box::new(tail)))
    }
}

/// The list that holds exactly the elements of `s`, in order.
pub open spec fn list_of(s: Seq<Value>) -> Value {
    list_onto(s, Value::Nil)
}

/// The record of kind `kind` with the given fields, in order.
pub open spec fn record_of(kind: Sym, fields: Seq<(Sym, Value)>) -> Value {
    Value::Record(
        kind,
        Box::new(list_of(fields.map_values(|f: (Sym, Value)| Value::Field(f.0, Box::new(f.1))))),
    )
}

/// The elements of a list built in front of `tail` are the elements it was
/// built from, and then those of `tail`.
pub proof fn lemma_items_of_list_onto(s: Seq<Value>, tail: Value)
    ensures
        items(list_onto(s, tail)) == s + items(tail),
    decreases s.len(),
{
    if s.len() == 0 {
        assert(s + items(tail) =~= items(tail));
    } else {
        let longer = Value::Cons(Box::new(s.last()), Box::new(tail));
        lemma_items_of_list_onto(s.drop_last(), longer);
        assert(s.drop_last() + (seq![s.last()] + items(tail)) =~= s + items(tail));
    }
}

/// A list holds what it was built from.
pub proof fn lemma_items_of_list(s: Seq<Value>)
    ensures
        items(list_of(s)) == s,
        is_list(list_of(s)),
{
    lemma_items_of_list_onto(s, Value::Nil);
    assert(s + Seq::<Value>::empty() =~= s);
    lemma_list_onto_is_list(s, Value::Nil);
}

/// Building in front of a list gives a list.
pub proof fn lemma_list_onto_is_list(s: Seq<Value>, tail: Value)
    requires
        is_list(tail),
    ensures
        is_list(list_onto(s, tail)),
    decreases s.len(),
{
    if s.len() > 0 {
        lemma_list_onto_is_list(s.drop_last(), Value::Cons(Box::new(s.last()), Box::new(tail)));
    }
}

impl Value {
    /// The text value of a string.
    pub fn text(s: &str) -> (r: Value)
        ensures
            r is Text,
            r->Text_0@ == s@,
    {
        Value::Text(s.to_owned())
    }

    /// The pair of two values.
    pub fn pair(first: Value, second: Value) -> (r: Value)
        ensures
            r == Value::Pair(Box::new(first), Box::new(second)),
    {
        Value::Pair(Box::new(first), Box::new(second))
    }

    /// The list of the given elements, in order.
    pub fn list(elements: Vec<Value>) -> (r: Value)
        ensures
            r == list_of(elements@),
            is_list(r),
            items(r) == elements@,
    {
        proof {
            lemma_items_of_list(elements@);
        }
        let mut elements = elements;
        let ghost all = elements@;
        let mut r = Value::Nil;
        while elements.len() > 0
            invariant
                list_onto(elements@, r) == list_of(all),
            decreases elements.len(),
        {
            let last = elements.pop().unwrap();
            r = Value::Cons(Box::new(last), Box::new(r));
        }
        r
    }

    /// The record of kind `kind` with the given fields, in order.
    pub fn record(kind: Sym, fields: Vec<(Sym, Value)>) -> (r: Value)
        ensures
            r == record_of(kind, fields@),
    {
        let mut fields = fields;
        let ghost all = fields@.map_values(|f: (Sym, Value)| Value::Field(f.0, Box::new(f.1)));
        let mut r = Value::Nil;
        while fields.len() > 0
            invariant
                list_onto(
                    fields@.map_values(|f: (Sym, Value)| Value::Field(f.0, Box::new(f.1))),
                    r,
                ) == list_of(all),
            decreases fields.len(),
        {
            let ghost cells = fields@.map_values(
                |f: (Sym, Value)| Value::Field(f.0, Box::new(f.1)),
            );
            let (name, value) = fields.pop().unwrap();
            proof {
                assert(fields@.map_values(|f: (Sym, Value)| Value::Field(f.0, Box::new(f.1)))
                    =~= cells.drop_last());
            }
            r = Value::Cons(Box::new(Value::Field(name, Box::new(value))), Box::new(r));
        }
        Value::Record(kind, Box::new(r))
    }

    /// The elements of a list, in order; none for a value that is not a
    /// `Cons` cell.
    pub fn elements(&self) -> (r: Vec<Value>)
        ensures
            r@ == items(*self),
    {
        let mut r: Vec<Value> = Vec::new();
        let mut cur = self;
        loop
            invariant
                r@ + items(*cur) == items(*self),
            decreases *cur,
        {
            match cur {
                Value::Cons(first, others) => {
                    r.push(first.duplicate());
                    proof {
                        assert(r@ + items(**others) =~= r@.drop_last() + items(*cur));
                    }
                    cur = others;
                },
                _ => {
                    proof {
                        assert(r@ + items(*cur) =~= r@);
                    }
                    return r;
                },
            }
        }
    }

    /// A deep, independent copy.
    pub fn duplicate(&self) -> (r: Value)
        ensures
            r == *self,
        decreases *self,
    {
        match self {
            Value::Unit => Value::Unit,
            Value::Int(x) => Value::Int(*x),
            Value::Bool(b) => Value::Bool(*b),
            Value::Text(s) => Value::Text(s.clone()),
            Value::Pair(a, b) => Value::Pair(Box::new(a.duplicate()), Box::new(b.duplicate())),
            Value::Nil => Value::Nil,
            Value::Cons(a, b) => Value::Cons(Box::new(a.duplicate()), Box::new(b.duplicate())),
            Value::Record(k, p) => Value::Record(*k, Box::new(p.duplicate())),
            Value::Field(k, p) => Value::Field(*k, Box::new(p.duplicate())),
        }
    }

    /// Data equality, as `same` defines it.
    pub fn equals(&self, other: &Value) -> (r: bool)
        ensures
            r == same(*self, *other),
        decreases *self,
    {
        match (self, other) {
            (Value::Unit, Value::Unit) => true,
            (Value::Int(x), Value::Int(y)) => *x == *y,
            (Value::Bool(x), Value::Bool(y)) => *x == *y,
            (Value::Text(s), Value::Text(t)) => *s == *t,
            (Value::Pair(a1, a2), Value::Pair(b1, b2)) => a1.equals(b1) && a2.equals(b2),
            (Value::Nil, Value::Nil) => true,
            (Value::Cons(a1, a2), Value::Cons(b1, b2)) => a1.equals(b1) && a2.equals(b2),
            (Value::Record(k, p), Value::Record(l, q)) => *k == *l && p.equals(q),
            (Value::Field(k, p), Value::Field(l, q)) => *k == *l && p.equals(q),
            _ => false,
        }
    }
}

impl Clone for Value {
    fn clone(&self) -> (r: Self)
        ensures
            r == *self,
    {
        self.duplicate()
    }
}

} // verus!
