use list_comprehension::clause::{
    Clause, Comprehension, Fallback, GroupMode, Member, Members, Statement,
};
use list_comprehension::cursor::{lazy, Step};
use list_comprehension::eager::eager;
use list_comprehension::error::EvalError;
use list_comprehension::expr::Expr;
use list_comprehension::lazy::{LazyComp, Outlet};
use list_comprehension::pattern::{Kind, Pattern};
use list_comprehension::value::Value;

const A1: u64 = 1;
const A2: u64 = 2;
const B1: u64 = 3;
const B2: u64 = 4;
const T: u64 = 5;
const NAME: u64 = 6;
const AGE: u64 = 7;
const NAME2: u64 = 8;
const AGE2: u64 = 9;
const N: u64 = 10;
const M: u64 = 11;
const C1: u64 = 12;
const D1: u64 = 13;
const C2: u64 = 14;
const D2: u64 = 15;
const A3: u64 = 16;
const B3: u64 = 17;
const NUM: u64 = 18;
const NUM1: u64 = 19;
const NUM2: u64 = 20;
const TEST_S: u64 = 100;
const SOME: u64 = 101;
const FIRST: u64 = 0;

fn num(n: i64) -> Value {
    Value::Int(n)
}

fn nums(ns: &[i64]) -> Expr {
    Expr::Const(Value::list(ns.iter().map(|n| Value::Int(*n)).collect()))
}

fn lit(n: i64) -> Expr {
    Expr::Const(Value::Int(n))
}

fn var(name: u64) -> Expr {
    Expr::Var(name)
}

fn test_s(name: &str, age: i64) -> Expr {
    Expr::Const(Value::record(TEST_S, vec![(NAME, Value::text(name)), (AGE, num(age))]))
}

fn some(n: i64) -> Expr {
    Expr::Const(Value::record(SOME, vec![(FIRST, num(n))]))
}

fn some_of(name: u64) -> Pattern {
    Pattern::record(SOME, vec![(FIRST, Pattern::name(name))], false)
}

/// `TestS { field: sub, .. }`
fn part(field: u64, sub: Pattern) -> Pattern {
    Pattern::record(TEST_S, vec![(field, sub)], true)
}

fn assign(name: u64, value: Expr) -> Clause {
    Clause::RawStatement(Statement::Assign(name, value))
}

fn unreachable_panic() -> Fallback {
    Fallback::Abort("Actually this panic shouldn't be called".to_string())
}

fn group(members: Vec<Member>, mode: GroupMode) -> Clause {
    Clause::BindGroupOrElse(Box::new(Members::from_vec(members)), mode)
}

fn comp(head: Expr, chain: Vec<Clause>) -> Vec<Value> {
    eager(&Comprehension::new(head, chain)).unwrap()
}

fn lazy_comp(head: Expr, chain: Vec<Clause>) -> Vec<Value> {
    let comprehension = Comprehension::new(head, chain);
    let producer = move |outlet: Outlet<Result<Value, EvalError>>| async move {
        let mut cursor = lazy(comprehension);
        loop {
            match cursor.resume() {
                Ok(Step::Yielded(v)) => outlet.co.yield_(Ok(v)).await,
                Ok(Step::Completed) => break,
                Err(e) => {
                    outlet.co.yield_(Err(e)).await;
                    break;
                }
            }
        }
    };
    let mut iter = LazyComp::new(producer).into_iter();
    let mut out = Vec::new();
    while let Some(item) = iter.next() {
        out.push(item.unwrap());
    }
    assert!(iter.is_completed());
    out
}

fn all_syntax() -> Vec<Clause> {
    let shared_arr = [0, 1];
    vec![
        Clause::Generate(Pattern::name(A1), nums(&shared_arr)),
        Clause::Generate(Pattern::name(A2), nums(&[2, 3])),
        Clause::Generate(Pattern::name(B1), nums(&shared_arr)),
        Clause::Generate(Pattern::name(B2), nums(&[2, 3])),
        Clause::Bind(Pattern::name(T), false, test_s("LiHua", 114)),
        Clause::Generate(part(NAME, Pattern::name(NAME)), Expr::list(vec![var(T)])),
        Clause::Generate(part(AGE, Pattern::name(AGE)), Expr::list(vec![var(T)])),
        Clause::Generate(part(NAME, Pattern::mutable_name(NAME2)), Expr::list(vec![var(T)])),
        Clause::Generate(part(AGE, Pattern::mutable_name(AGE2)), Expr::list(vec![var(T)])),
        Clause::Generate(Pattern::name(N), nums(&shared_arr)),
        Clause::Generate(Pattern::name(M), nums(&[0, 1, 2])),
        Clause::Guard(Expr::Differ(Box::new(var(N)), Box::new(lit(2)))),
        Clause::Guard(Expr::Differ(Box::new(var(M)), Box::new(lit(2)))),
        group(
            vec![
                Member::plain(Pattern::name(A1), false, lit(1)),
                Member::plain(Pattern::name(B1), true, lit(2)),
                Member::plain(Pattern::typed_name(C1, false, Kind::Int), false, lit(3)),
                Member::plain(Pattern::typed_name(D1, true, Kind::Int), false, lit(4)),
                Member::plain(part(NAME, Pattern::name(NAME)), false, test_s("LiHua", 114)),
                Member::or_else(some_of(NUM1), some(114), unreachable_panic()),
            ],
            GroupMode::Respect,
        ),
        group(
            vec![
                Member::plain(Pattern::name(A2), false, lit(1)),
                Member::plain(Pattern::name(B2), true, lit(2)),
                Member::plain(Pattern::typed_name(C2, false, Kind::Int), false, lit(3)),
                Member::plain(Pattern::typed_name(D2, true, Kind::Int), false, lit(4)),
                Member::plain(part(NAME, Pattern::name(NAME)), false, test_s("LiHua", 114)),
                Member::or_else(some_of(NUM1), some(114), unreachable_panic()),
            ],
            GroupMode::ForceMutable,
        ),
        Clause::Bind(Pattern::name(A3), false, lit(1)),
        Clause::Bind(Pattern::typed_name(B3, false, Kind::Int), true, lit(1)),
        Clause::Bind(part(NAME, Pattern::name(NAME)), false, test_s("LiHua", 114)),
        Clause::Bind(part(NAME, Pattern::mutable_name(NAME)), false, test_s("LiHua", 114)),
        Clause::BindGroup(
            Box::new(Members::from_vec(vec![
                Member::plain(part(NAME, Pattern::name(NAME)), false, test_s("LiHua", 114)),
                Member::plain(part(AGE, Pattern::name(AGE)), false, test_s("LiHua", 114)),
            ])),
            GroupMode::Respect,
        ),
        Clause::BindGroup(
            Box::new(Members::from_vec(vec![
                Member::plain(part(NAME, Pattern::mutable_name(NAME)), false, test_s("LiHua", 114)),
                Member::plain(part(AGE, Pattern::mutable_name(AGE)), false, test_s("LiHua", 114)),
            ])),
            GroupMode::Respect,
        ),
        Clause::BindOrElse(some_of(NUM), some(114), unreachable_panic()),
        Clause::BindOrElse(some_of(NUM), some(114), unreachable_panic()),
        group(
            vec![
                Member::or_else(some_of(NUM1), some(114), unreachable_panic()),
                Member::or_else(some_of(NUM2), some(514), unreachable_panic()),
            ],
            GroupMode::Respect,
        ),
    ]
}

#[test]
fn test_comp() {
    let shared_arr = [0, 1];

    let first_generator_syntax = comp(
        Expr::pair(var(A1), var(A2)),
        vec![
            Clause::Generate(Pattern::name(A1), nums(&shared_arr)),
            Clause::Generate(Pattern::name(A2), nums(&[2, 3])),
        ],
    );
    assert_eq!(
        first_generator_syntax,
        [
            Value::pair(num(0), num(2)),
            Value::pair(num(0), num(3)),
            Value::pair(num(1), num(2)),
            Value::pair(num(1), num(3))
        ]
    );

    let second_generator_syntax_with_ident = comp(
        Expr::pair(var(A1), var(A2)),
        vec![
            Clause::Generate(Pattern::name(A1), nums(&shared_arr)),
            Clause::Generate(Pattern::name(A2), nums(&[2, 3])),
        ],
    );
    assert_eq!(
        second_generator_syntax_with_ident,
        [
            Value::pair(num(0), num(2)),
            Value::pair(num(0), num(3)),
            Value::pair(num(1), num(2)),
            Value::pair(num(1), num(3))
        ]
    );

    let second_generator_syntax_with_pat = comp(
        Expr::pair(var(NAME), var(AGE)),
        vec![
            Clause::Bind(Pattern::name(T), false, test_s("LiHua", 114)),
            Clause::Generate(part(NAME, Pattern::name(NAME)), Expr::list(vec![var(T)])),
            Clause::Generate(part(AGE, Pattern::name(AGE)), Expr::list(vec![var(T)])),
        ],
    );
    assert_eq!(second_generator_syntax_with_pat, [Value::pair(Value::text("LiHua"), num(114))]);

    let decl_with_pattern_matching = comp(
        var(NAME),
        vec![Clause::Bind(part(NAME, Pattern::name(NAME)), false, test_s("LiHua", 114))],
    );
    assert_eq!(decl_with_pattern_matching, [Value::text("LiHua")]);

    let decl_with_mut_pattern_matching = comp(
        var(NAME),
        vec![
            Clause::Bind(part(NAME, Pattern::mutable_name(NAME)), false, test_s("LiHua", 114)),
            Clause::Generate(Pattern::Wildcard, nums(&[0])),
            assign(NAME, Expr::Const(Value::text("Jack"))),
            Clause::Guard(Expr::Const(Value::Bool(true))),
        ],
    );
    assert_eq!(decl_with_mut_pattern_matching, [Value::text("Jack")]);

    let decl_with_pattern_matching_and_different_let_else = comp(
        var(NUM),
        vec![Clause::BindOrElse(some_of(NUM), some(114), unreachable_panic())],
    );
    assert_eq!(decl_with_pattern_matching_and_different_let_else, [num(114)]);

    let decl_with_pattern_matching_and_let_else = comp(
        var(NUM),
        vec![Clause::BindOrElse(some_of(NUM), some(114), unreachable_panic())],
    );
    assert_eq!(decl_with_pattern_matching_and_let_else, [num(114)]);

    let decls_with_pattern_matching = comp(
        Expr::pair(var(NAME), var(AGE)),
        vec![Clause::BindGroup(
            Box::new(Members::from_vec(vec![
                Member::plain(part(NAME, Pattern::name(NAME)), false, test_s("LiHua", 114)),
                Member::plain(part(AGE, Pattern::name(AGE)), false, test_s("LiHua", 114)),
            ])),
            GroupMode::Respect,
        )],
    );
    assert_eq!(decls_with_pattern_matching, [Value::pair(Value::text("LiHua"), num(114))]);

    let decls_with_mut_pattern_matching = comp(
        Expr::pair(var(NAME), var(AGE)),
        vec![
            Clause::BindGroup(
                Box::new(Members::from_vec(vec![
                    Member::plain(
                        part(NAME, Pattern::mutable_name(NAME)),
                        false,
                        test_s("LiHua", 114),
                    ),
                    Member::plain(
                        part(AGE, Pattern::mutable_name(AGE)),
                        false,
                        test_s("LiHua", 114),
                    ),
                ])),
                GroupMode::Respect,
            ),
            Clause::Generate(Pattern::Wildcard, nums(&[0])),
            assign(NAME, Expr::Const(Value::text("Jack"))),
            assign(AGE, lit(514)),
            Clause::Guard(Expr::Const(Value::Bool(true))),
        ],
    );
    assert_eq!(decls_with_mut_pattern_matching, [Value::pair(Value::text("Jack"), num(514))]);

    let decls_with_pattern_matching_and_let_else_p = comp(
        Expr::pair(var(NUM1), var(NUM2)),
        vec![group(
            vec![
                Member::or_else(some_of(NUM1), some(114), unreachable_panic()),
                Member::or_else(some_of(NUM2), some(514), unreachable_panic()),
            ],
            GroupMode::Respect,
        )],
    );
    assert_eq!(decls_with_pattern_matching_and_let_else_p, [Value::pair(num(114), num(514))]);

    let _empty_decls = comp(
        Expr::Const(Value::Unit),
        vec![Clause::BindGroup(Box::new(Members::End), GroupMode::Respect)],
    );

    let _all_syntax = comp(Expr::Const(Value::Unit), all_syntax());
}

#[test]
fn test_lazy_comp() {
    let shared_arr = [0, 1];

    let first_generator_syntax = lazy_comp(
        Expr::pair(var(A1), var(A2)),
        vec![
            Clause::Generate(Pattern::name(A1), nums(&shared_arr)),
            Clause::Generate(Pattern::name(A2), nums(&[2, 3])),
        ],
    );
    assert_eq!(
        first_generator_syntax,
        [
            Value::pair(num(0), num(2)),
            Value::pair(num(0), num(3)),
            Value::pair(num(1), num(2)),
            Value::pair(num(1), num(3))
        ]
    );

    let second_generator_syntax_with_ident = lazy_comp(
        Expr::pair(var(A1), var(A2)),
        vec![
            Clause::Generate(Pattern::name(A1), nums(&shared_arr)),
            Clause::Generate(Pattern::name(A2), nums(&[2, 3])),
        ],
    );
    assert_eq!(
        second_generator_syntax_with_ident,
        [
            Value::pair(num(0), num(2)),
            Value::pair(num(0), num(3)),
            Value::pair(num(1), num(2)),
            Value::pair(num(1), num(3))
        ]
    );

    let second_generator_syntax_with_pat = lazy_comp(
        Expr::pair(var(NAME), var(AGE)),
        vec![
            Clause::Bind(Pattern::name(T), false, test_s("LiHua", 114)),
            Clause::Generate(part(NAME, Pattern::name(NAME)), Expr::list(vec![var(T)])),
            Clause::Generate(part(AGE, Pattern::name(AGE)), Expr::list(vec![var(T)])),
        ],
    );
    assert_eq!(second_generator_syntax_with_pat, [Value::pair(Value::text("LiHua"), num(114))]);

    let decl_with_pattern_matching = lazy_comp(
        var(NAME),
        vec![Clause::Bind(part(NAME, Pattern::name(NAME)), false, test_s("LiHua", 114))],
    );
    assert_eq!(decl_with_pattern_matching, [Value::text("LiHua")]);

    let decl_with_mut_pattern_matching = lazy_comp(
        var(NAME),
        vec![
            Clause::Bind(part(NAME, Pattern::mutable_name(NAME)), false, test_s("LiHua", 114)),
            Clause::Generate(Pattern::Wildcard, nums(&[0])),
            assign(NAME, Expr::Const(Value::text("Jack"))),
            Clause::Guard(Expr::Const(Value::Bool(true))),
        ],
    );
    assert_eq!(decl_with_mut_pattern_matching, [Value::text("Jack")]);

    let decl_with_pattern_matching_and_different_let_else = lazy_comp(
        var(NUM),
        vec![Clause::BindOrElse(some_of(NUM), some(114), unreachable_panic())],
    );
    assert_eq!(decl_with_pattern_matching_and_different_let_else, [num(114)]);

    let decl_with_pattern_matching_and_let_else = lazy_comp(
        var(NUM),
        vec![Clause::BindOrElse(some_of(NUM), some(114), unreachable_panic())],
    );
    assert_eq!(decl_with_pattern_matching_and_let_else, [num(114)]);

    let decls_with_pattern_matching = lazy_comp(
        Expr::pair(var(NAME), var(AGE)),
        vec![Clause::BindGroup(
            Box::new(Members::from_vec(vec![
                Member::plain(part(NAME, Pattern::name(NAME)), false, test_s("LiHua", 114)),
                Member::plain(part(AGE, Pattern::name(AGE)), false, test_s("LiHua", 114)),
            ])),
            GroupMode::Respect,
        )],
    );
    assert_eq!(decls_with_pattern_matching, [Value::pair(Value::text("LiHua"), num(114))]);

    let decls_with_mut_pattern_matching = lazy_comp(
        Expr::pair(var(NAME), var(AGE)),
        vec![
            Clause::BindGroup(
                Box::new(Members::from_vec(vec![
                    Member::plain(
                        part(NAME, Pattern::mutable_name(NAME)),
                        false,
                        test_s("LiHua", 114),
                    ),
                    Member::plain(
                        part(AGE, Pattern::mutable_name(AGE)),
                        false,
                        test_s("LiHua", 114),
                    ),
                ])),
                GroupMode::Respect,
            ),
            Clause::Generate(Pattern::Wildcard, nums(&[0])),
            assign(NAME, Expr::Const(Value::text("Jack"))),
            assign(AGE, lit(514)),
            Clause::Guard(Expr::Const(Value::Bool(true))),
        ],
    );
    assert_eq!(decls_with_mut_pattern_matching, [Value::pair(Value::text("Jack"), num(514))]);

    let decls_with_pattern_matching_and_let_else_p = lazy_comp(
        Expr::pair(var(NUM1), var(NUM2)),
        vec![group(
            vec![
                Member::or_else(some_of(NUM1), some(114), unreachable_panic()),
                Member::or_else(some_of(NUM2), some(514), unreachable_panic()),
            ],
            GroupMode::Respect,
        )],
    );
    assert_eq!(decls_with_pattern_matching_and_let_else_p, [Value::pair(num(114), num(514))]);

    let _empty_decls = lazy_comp(
        Expr::Const(Value::Unit),
        vec![Clause::BindGroup(Box::new(Members::End), GroupMode::Respect)],
    );

    let _all_syntax = lazy_comp(Expr::Const(Value::Unit), all_syntax());
}

#[test]
fn empty_group_yields_the_head_once() {
    let chain = vec![Clause::BindGroup(Box::new(Members::End), GroupMode::Respect)];
    assert_eq!(comp(Expr::Const(Value::Unit), chain), [Value::Unit]);
}

#[test]
fn all_syntax_counts_every_surviving_combination() {
    // 2 * 2 * 2 * 2 outer combinations, then n in [0, 1] and m in [0, 1, 2]
    // with m != 2: 16 * 2 * 2.
    assert_eq!(comp(Expr::Const(Value::Unit), all_syntax()).len(), 64);
    assert_eq!(lazy_comp(Expr::Const(Value::Unit), all_syntax()).len(), 64);
}
