use list_comprehension::clause::{Clause, Comprehension, Fallback};
use list_comprehension::cursor::{lazy, Cursor, Phase, Step};
use list_comprehension::eager::eager;
use list_comprehension::error::EvalError;
use list_comprehension::expr::Expr;
use list_comprehension::lazy::{LazyComp, Outlet};
use list_comprehension::pattern::Pattern;
use list_comprehension::value::Value;

const A: u64 = 1;
const B: u64 = 2;
const N: u64 = 3;
const SOME: u64 = 101;
const NONE: u64 = 102;
const FIRST: u64 = 0;

fn num(n: i64) -> Value {
    Value::Int(n)
}

fn lit(n: i64) -> Expr {
    Expr::Const(Value::Int(n))
}

fn nums(ns: &[i64]) -> Expr {
    Expr::Const(Value::list(ns.iter().map(|n| Value::Int(*n)).collect()))
}

fn var(name: u64) -> Expr {
    Expr::Var(name)
}

fn grid() -> Comprehension {
    Comprehension::new(
        Expr::pair(var(A), var(B)),
        vec![
            Clause::Generate(Pattern::name(A), nums(&[0, 1, 2])),
            Clause::Generate(Pattern::name(B), nums(&[0, 1, 2])),
            Clause::Guard(Expr::Differ(Box::new(var(A)), Box::new(var(B)))),
        ],
    )
}

/// Yields 0, then fails on the second element.
fn fails_late() -> Comprehension {
    Comprehension::new(
        var(N),
        vec![
            Clause::Generate(
                Pattern::name(N),
                Expr::Const(Value::list(vec![num(0), Value::Bool(true)])),
            ),
            Clause::Guard(Expr::Less(Box::new(var(N)), Box::new(lit(1)))),
        ],
    )
}

fn coroutine(
    comprehension: Comprehension,
) -> impl FnOnce(Outlet<Result<Value, EvalError>>) -> std::pin::Pin<Box<dyn std::future::Future<Output = ()>>>
       + Clone {
    move |outlet: Outlet<Result<Value, EvalError>>| {
        let run: std::pin::Pin<Box<dyn std::future::Future<Output = ()>>> = Box::pin(async move {
            let mut cursor = lazy(comprehension);
            loop {
                match cursor.resume() {
                    Ok(Step::Yielded(v)) => outlet.co.yield_(Ok(v)).await,
                    Ok(Step::Completed) => break,
                    Err(e) => {
                        outlet.co.yield_(Err(e)).await;
                        break;
                    }
                }
            }
        });
        run
    }
}

#[test]
fn resume_yields_what_eager_returns() {
    let expected = eager(&grid()).unwrap();
    assert_eq!(expected.len(), 6);
    let mut cursor = lazy(grid());
    for value in &expected {
        assert_eq!(cursor.resume(), Ok(Step::Yielded(value.clone())));
    }
    assert_eq!(cursor.resume(), Ok(Step::Completed));
}

#[test]
fn drain_collects_what_eager_returns() {
    assert_eq!(lazy(grid()).drain(), eager(&grid()));
    assert_eq!(lazy(fails_late()).drain(), eager(&fails_late()));
    assert_eq!(eager(&fails_late()), Err(EvalError::NotInteger));
}

#[test]
fn coroutine_yields_what_eager_returns() {
    let mut iter = LazyComp::new(coroutine(grid())).into_iter();
    let mut got = Vec::new();
    while let Some(item) = iter.next() {
        got.push(item.unwrap());
    }
    assert_eq!(got, eager(&grid()).unwrap());
}

#[test]
fn cursor_moves_through_its_phases() {
    let mut cursor = Cursor::new(Comprehension::new(
        var(N),
        vec![Clause::Generate(Pattern::name(N), nums(&[5]))],
    ));
    assert_eq!(cursor.state(), Phase::NotStarted);
    assert_eq!(cursor.resume(), Ok(Step::Yielded(num(5))));
    assert_eq!(cursor.state(), Phase::Suspended);
    assert_eq!(cursor.resume(), Ok(Step::Completed));
    assert_eq!(cursor.state(), Phase::Completed);
}

#[test]
fn first_resume_may_complete() {
    let mut cursor =
        lazy(Comprehension::new(var(N), vec![Clause::Generate(Pattern::name(N), nums(&[]))]));
    assert_eq!(cursor.resume(), Ok(Step::Completed));
    assert_eq!(cursor.state(), Phase::Completed);
}

#[test]
fn completion_is_idempotent() {
    let mut cursor = lazy(grid());
    while let Ok(Step::Yielded(_)) = cursor.resume() {}
    for _ in 0..3 {
        assert_eq!(cursor.resume(), Ok(Step::Completed));
        assert_eq!(cursor.state(), Phase::Completed);
    }
    assert_eq!(cursor.drain(), Ok(vec![]));
}

#[test]
fn failure_comes_when_it_is_reached_and_completes_the_cursor() {
    let mut cursor = lazy(fails_late());
    assert_eq!(cursor.resume(), Ok(Step::Yielded(num(0))));
    assert_eq!(cursor.resume(), Err(EvalError::NotInteger));
    assert_eq!(cursor.state(), Phase::Completed);
    assert_eq!(cursor.resume(), Ok(Step::Completed));
}

#[test]
fn stop_completes_the_cursor() {
    let some = |n: i64| Value::record(SOME, vec![(FIRST, num(n))]);
    let none = Value::record(NONE, vec![]);
    let mut cursor = lazy(Comprehension::new(
        var(A),
        vec![
            Clause::Generate(
                Pattern::name(N),
                Expr::Const(Value::list(vec![some(1), none, some(3)])),
            ),
            Clause::BindOrElse(
                Pattern::record(SOME, vec![(FIRST, Pattern::name(A))], false),
                var(N),
                Fallback::Stop,
            ),
        ],
    ));
    assert_eq!(cursor.resume(), Ok(Step::Yielded(num(1))));
    assert_eq!(cursor.resume(), Ok(Step::Completed));
    assert_eq!(cursor.state(), Phase::Completed);
    assert_eq!(cursor.resume(), Ok(Step::Completed));
}

#[test]
fn duplicates_do_not_interfere_when_interleaved() {
    let original = grid();
    let mut first = lazy(original.duplicate());
    let mut second = lazy(original.duplicate());
    let expected = eager(&original).unwrap();
    assert_eq!(first.resume(), Ok(Step::Yielded(expected[0].clone())));
    assert_eq!(first.resume(), Ok(Step::Yielded(expected[1].clone())));
    assert_eq!(second.resume(), Ok(Step::Yielded(expected[0].clone())));
    assert_eq!(first.resume(), Ok(Step::Yielded(expected[2].clone())));
    assert_eq!(second.drain(), Ok(expected[1..].to_vec()));
    assert_eq!(first.drain(), Ok(expected[3..].to_vec()));
}

#[test]
fn cloned_lazy_comp_starts_afresh() {
    let comp = LazyComp::new(coroutine(grid()));
    let mut first = comp.clone().into_iter();
    let mut second = comp.into_iter();
    let expected = eager(&grid()).unwrap();
    assert_eq!(first.next(), Some(Ok(expected[0].clone())));
    assert_eq!(first.next(), Some(Ok(expected[1].clone())));
    assert_eq!(second.next(), Some(Ok(expected[0].clone())));
    assert_eq!(first.next(), Some(Ok(expected[2].clone())));
    assert_eq!(second.next(), Some(Ok(expected[1].clone())));
}

#[test]
fn iterator_latches_completion() {
    let mut iter = LazyComp::new(coroutine(Comprehension::new(lit(1), vec![]))).into_iter();
    assert!(!iter.is_completed());
    assert_eq!(iter.next(), Some(Ok(num(1))));
    assert!(!iter.is_completed());
    assert_eq!(iter.next(), None);
    assert!(iter.is_completed());
    assert_eq!(iter.next(), None);
    assert_eq!(iter.next(), None);
    assert!(iter.is_completed());
    assert_eq!(iter.take(3), vec![]);
}

#[test]
fn take_stops_at_the_limit_or_at_completion() {
    let mut iter = LazyComp::new(coroutine(grid())).into_iter();
    let expected: Vec<Result<Value, EvalError>> =
        eager(&grid()).unwrap().into_iter().map(Ok).collect();
    assert_eq!(iter.take(0), vec![]);
    assert_eq!(iter.take(4), expected[..4].to_vec());
    assert!(!iter.is_completed());
    assert_eq!(iter.take(4), expected[4..].to_vec());
    assert!(iter.is_completed());
}

#[test]
fn coroutine_hands_on_a_failure() {
    let mut iter = LazyComp::new(coroutine(fails_late())).into_iter();
    assert_eq!(iter.next(), Some(Ok(num(0))));
    assert_eq!(iter.next(), Some(Err(EvalError::NotInteger)));
    assert_eq!(iter.next(), None);
}

#[test]
fn nothing_runs_before_the_first_resume() {
    // A producer that would fail at once does so only when resumed.
    let failing = Comprehension::new(var(N), vec![]);
    let mut iter = LazyComp::new(coroutine(failing)).into_iter();
    assert!(!iter.is_completed());
    assert_eq!(iter.next(), Some(Err(EvalError::Unbound(N))));
}
