use smoke::generator::{constant, num, range_bounds};
use smoke::property::{
    equal, greater, greater_equal, less, less_equal, not_equal, Caught, Outcome, Property,
};
use smoke::ux::{Element, Elements, TestResults, TestRunStatus, Value};
use smoke::{for_all, Context, Seed, Testable};

fn context(nb: u64) -> Context {
    Context::new(Seed::from(0x1234_5678_9abc_def0_1234_5678_9abc_def0), nb)
}

#[test]
fn relations() {
    assert_eq!(equal(1, 1).result(), Outcome::Passed);
    assert_eq!(not_equal(1, 2).result(), Outcome::Passed);
    assert_eq!(greater(3, 2).result(), Outcome::Passed);
    assert_eq!(greater_equal(2, 2).result(), Outcome::Passed);
    assert_eq!(less(1, 2).result(), Outcome::Passed);
    assert_eq!(less_equal(2, 2).result(), Outcome::Passed);
    match less(3, 2).result() {
        Outcome::Failed(e) => {
            assert_eq!(e.0, "<");
            assert_eq!(e.display(0), "<: \n  left: 3\n  right: 2\n");
        }
        Outcome::Passed => panic!("3 < 2 passed"),
    }
    match equal("a", "b").result() {
        Outcome::Failed(e) => assert_eq!(e.display(1), " ==: \n   left: \"a\"\n   right: \"b\"\n"),
        Outcome::Passed => panic!("a == b passed"),
    }
}

#[test]
fn and_or_nest_diagnostics() {
    assert_eq!(equal(1, 1).and(less(1, 2)).result(), Outcome::Passed);
    assert_eq!(equal(1, 2).or(less(1, 2)).result(), Outcome::Passed);
    match equal(1, 2).and(less(1, 2)).result() {
        Outcome::Failed(e) => assert_eq!(
            e.display(0),
            "and: \n  left: \n    ==: \n      left: 1\n      right: 2\n  right: passed\n"
        ),
        Outcome::Passed => panic!(),
    }
    match equal(1, 2).or(greater(1, 2)).result() {
        Outcome::Failed(e) => {
            assert_eq!(e.0, "or");
            assert_eq!(
                e.display(0),
                "or: \n  left: \n    ==: \n      left: 1\n      right: 2\n  right: \n    >: \n      left: 1\n      right: 2\n"
            );
        }
        Outcome::Passed => panic!(),
    }
}

#[test]
fn elements_display() {
    let mut es = Elements::new();
    es.append("k", Value::Str("v".to_string()));
    es.append("t", Value::sub(Element::new("x", Value::text("y"))));
    assert_eq!(es.display(0), "k: v\nt: \n  x: y\n");
}

#[test]
fn results_accumulate() {
    let mut t = TestResults::new();
    assert_eq!(t.to_status(), TestRunStatus::Skipped);
    t.add_success();
    assert_eq!(t.to_status(), TestRunStatus::Passed);
    let mut u = TestResults::new();
    u.add_failed("boom".to_string());
    u.add_success();
    t.add_subtests(&u);
    assert_eq!((t.nb_tests, t.nb_success, t.nb_failed, t.nb_skipped), (3, 2, 1, 0));
    assert_eq!(t.failures, vec!["boom".to_string()]);
    assert_eq!(t.to_status(), TestRunStatus::Failed);
}

#[test]
fn constant_five_never_fails() {
    for nb in [0u64, 1, 17, 1000] {
        let mut ctx = context(nb);
        for_all(constant(5)).ensure(|x: &i32| equal(*x, 5)).run(&mut ctx);
        let t = ctx.test_results();
        assert_eq!(t.nb_failed, 0);
        assert_eq!(t.nb_tests, nb as usize);
    }
}

#[test]
fn range_twenty_to_forty_never_fails() {
    let mut ctx = context(1000);
    for_all(range_bounds(20u32..=40))
        .ensure(|r: &u32| less_equal(20, *r).and(less_equal(*r, 40)))
        .run(&mut ctx);
    assert_eq!(ctx.test_results().nb_failed, 0);
    assert_eq!(ctx.test_results().nb_success, 1000);
}

#[test]
fn successor_equality_fails_with_literal_input() {
    let mut ctx = context(10);
    for_all(num::<u8>())
        .ensure(|x: &u8| equal(*x, x.wrapping_add(1)))
        .run(&mut ctx);
    let t = ctx.test_results();
    assert_eq!(t.nb_failed, 10);
    let first = &t.failures[0];
    let literal = first
        .strip_prefix("input = ")
        .and_then(|rest| rest.split('\n').next())
        .unwrap();
    assert!(literal.parse::<u8>().is_ok(), "{}", first);
    assert!(first.contains("property failed:\n  ==: \n"));
}

#[test]
fn runs_merge_into_the_context() {
    let mut ctx = context(3);
    for_all(constant(1u8)).ensure(|x: &u8| equal(*x, 1)).run(&mut ctx);
    for_all(constant(1u8)).ensure(|x: &u8| equal(*x, 2)).run(&mut ctx);
    let t = ctx.test_results();
    assert_eq!((t.nb_tests, t.nb_success, t.nb_failed), (6, 3, 3));
    assert_eq!(t.failures.len(), 3);
}

#[test]
fn generation_failure_is_recorded_not_fatal() {
    let mut ctx = context(4);
    let g = smoke::generator::such_that(constant(2u32), |n: &u32| *n % 2 == 1);
    for_all(g).ensure(|x: &u32| equal(*x, *x)).run(&mut ctx);
    let t = ctx.test_results();
    assert_eq!(t.nb_failed, 4);
    assert!(t.failures[0].contains("such that retry failure"));
}

#[test]
fn same_seed_same_results() {
    let mut a = context(50);
    let mut b = context(50);
    let e = for_all(num::<u16>()).ensure(|x: &u16| less(*x, 30000));
    let ra = e.test(&a);
    let rb = e.test(&b);
    assert_eq!(ra.failures, rb.failures);
    e.run(&mut a);
    e.run(&mut b);
    assert_eq!(a.test_results().nb_failed, b.test_results().nb_failed);
}

#[test]
fn caught_panic_fails_with_its_message() {
    let c: Caught<smoke::property::RelationEq<u8>> = Caught(Err("boom".to_string()));
    match c.result() {
        Outcome::Failed(e) => assert_eq!(e.display(0), "panic: boom\n"),
        Outcome::Passed => panic!("a caught panic passed"),
    }
    assert_eq!(Caught(Ok(equal(1, 1))).result(), Outcome::Passed);
}

#[test]
fn durations_add_up() {
    let mut t = TestResults::new();
    assert_eq!(t.duration, 0);
    t.set_duration(5);
    let mut u = TestResults::new();
    u.set_duration(u128::MAX);
    let mut v = TestResults::new();
    v.set_duration(7);
    t.add_subtests(&v);
    assert_eq!(t.duration, 12);
    t.add_subtests(&u);
    assert_eq!(t.duration, u128::MAX);
}
