//! Lazy comprehensions over a coroutine: a producer that hands out one
//! value at a time, and the handle that resumes it.

use vstd::prelude::*;
use std::future::Future;
use std::marker::PhantomData;

verus! {

/// `genawaiter::sync::Gen`: a coroutine that runs a future and hands out
/// what the future yields. Nothing of its inside is visible here.
#[verifier::external_type_specification]
#[verifier::external_body]
#[verifier::reject_recursive_types(Y)]
#[verifier::reject_recursive_types(R)]
#[verifier::reject_recursive_types(F)]
pub struct ExGen<Y, R, F: Future>(genawaiter::sync::Gen<Y, R, F>);

/// The producer's end of a coroutine: what it yields through.
///
/// Holds the `genawaiter::sync::Co` that the coroutine hands to its
/// producer. The producer yields with `outlet.co.yield_(value).await`.
#[verifier::external_body]
#[verifier::reject_recursive_types(Y)]
pub struct Outlet<Y> {
    pub co: genawaiter::sync::Co<Y>,
}

/// A lazy comprehension that has not been started: the producer that will
/// run it. Clone it to iterate more than once.
#[verifier::reject_recursive_types(Y)]
#[verifier::reject_recursive_types(Fu)]
pub struct LazyComp<Y, F, Fu> where F: FnOnce(Outlet<Y>) -> Fu, Fu: Future<Output = ()> {
    func: F,
    _m: PhantomData<Y>,
}

/// A started lazy comprehension: single pass, single consumer.
///
/// The coroutine is kept only while it can still be resumed. Once it has
/// completed it is dropped, so nothing can re-enter the producer.
#[verifier::reject_recursive_types(Y)]
#[verifier::reject_recursive_types(Fu)]
pub struct IntoIter<Y, Fu: Future<Output = ()>> {
    generator: Option<genawaiter::sync::Gen<Y, (), Fu>>,
}

/// Makes the coroutine that will run `producer`. The producer is called
/// once, with the outlet it will yield through, and the future it returns is
/// stored; that future is first polled by the first resume.
///
/// Calls `genawaiter::sync::Gen::new`.
#[verifier::external_body]
fn spawn<Y, F, Fu>(producer: F) -> (generator: genawaiter::sync::Gen<Y, (), Fu>) where
    F: FnOnce(Outlet<Y>) -> Fu,
    Fu: Future<Output = ()>,

    requires
        forall|outlet: Outlet<Y>| producer.requires((outlet,)),
{
    genawaiter::sync::Gen::new(move |co| producer(Outlet { co }))
}

/// Resumes a coroutine that has not completed: the value it yields, with the
/// coroutine to resume next time, or `None` once its producer has returned.
/// The producer's own code runs inside this call, and nothing is claimed of
/// what it yields.
///
/// Calls `genawaiter::sync::Gen::resume`. The coroutine is taken by value
/// and not handed back after `Complete`, since `resume` must not be called
/// again then.
#[verifier::external_body]
fn advance<Y, Fu: Future<Output = ()>>(generator: genawaiter::sync::Gen<Y, (), Fu>) -> (step:
    Option<(Y, genawaiter::sync::Gen<Y, (), Fu>)>) {
    let mut generator = generator;
    match generator.resume() {
        genawaiter::GeneratorState::Yielded(value) => Some((value, generator)),
        genawaiter::GeneratorState::Complete(()) => None,
    }
}

impl<Y, F, Fu> LazyComp<Y, F, Fu> where F: FnOnce(Outlet<Y>) -> Fu, Fu: Future<Output = ()> {
    /// Wraps a producer.
    pub fn new(f: F) -> (comp: LazyComp<Y, F, Fu>)
        ensures
            comp.producer() == f,
    {
        LazyComp { func: f, _m: PhantomData }
    }

    /// The producer that `into_iter` will start.
    pub closed spec fn producer(&self) -> F {
        self.func
    }

    /// Starts the comprehension. The producer is called here, for its
    /// future; the future runs only inside `next`, from one yield to the
    /// next.
    pub fn into_iter(self) -> (iter: IntoIter<Y, Fu>)
        requires
            forall|outlet: Outlet<Y>| self.producer().requires((outlet,)),
        ensures
            !iter.completed(),
    {
        proof {
            assert forall|outlet: Outlet<Y>| self.func.requires((outlet,)) by {
                assert(self.producer().requires((outlet,)));
            }
        }
        IntoIter { generator: Some(spawn(self.func)) }
    }
}

impl<Y, F, Fu> Clone for LazyComp<Y, F, Fu> where
    F: Clone + FnOnce(Outlet<Y>) -> Fu,
    Fu: Future<Output = ()>,
 {
    /// A lazy comprehension over a clone of the producer.
    fn clone(&self) -> (comp: Self)
        ensures
            cloned::<F>(self.producer(), comp.producer()),
    {
        LazyComp { func: self.func.clone(), _m: PhantomData }
    }
}

impl<Y, Fu: Future<Output = ()>> IntoIter<Y, Fu> {
    /// Whether the producer has returned. This latches: nothing resumes the
    /// coroutine afterwards.
    pub closed spec fn completed(&self) -> bool {
        self.generator is None
    }

    /// Reports whether the producer has returned.
    pub fn is_completed(&self) -> (done: bool)
        ensures
            done == self.completed(),
    {
        self.generator.is_none()
    }

    /// Records what a resume gave: a yielded value is handed on and the
    /// coroutine kept for the next resume; completion is latched.
    fn settle(&mut self, step: Option<(Y, genawaiter::sync::Gen<Y, (), Fu>)>) -> (item: Option<Y>)
        ensures
            match step {
                Some((value, generator)) => item == Some(value) && final(self).generator == Some(
                    generator,
                ),
                None => item is None && final(self).generator is None,
            },
    {
        match step {
            Some((value, generator)) => {
                self.generator = Some(generator);
                Some(value)
            },
            None => {
                self.generator = None;
                None
            },
        }
    }

    /// The next value, or `None` once the producer has returned. After the
    /// first `None` every call gives `None` and runs nothing.
    pub fn next(&mut self) -> (item: Option<Y>)
        ensures
            old(self).completed() ==> item is None && *final(self) == *old(self),
            item is None <==> final(self).completed(),
    {
        match self.generator.take() {
            Some(generator) => {
                let step = advance(generator);
                self.settle(step)
            },
            None => None,
        }
    }

    /// Up to `limit` further values, in order. Fewer come only if the
    /// producer returned first.
    pub fn take(&mut self, limit: usize) -> (items: Vec<Y>)
        ensures
            items.len() <= limit,
            items.len() < limit ==> final(self).completed(),
            old(self).completed() ==> items.len() == 0 && *final(self) == *old(self),
    {
        let mut items: Vec<Y> = Vec::new();
        while items.len() < limit
            invariant
                items.len() <= limit,
                old(self).completed() ==> items.len() == 0 && *self == *old(self),
            decreases limit - items.len(),
        {
            match self.next() {
                Some(value) => items.push(value),
                None => {
                    return items;
                },
            }
        }
        items
    }
}

} // verus!
