use std::cell::Cell;

use sort_util::Sorted;

#[test]
fn done_or_never_evaluates_the_fallback() {
    let evaluated = Cell::new(false);
    let r = Sorted::Done.or(|| {
        evaluated.set(true);
        Sorted::Fail
    });
    assert_eq!(r, Sorted::Done);
    assert!(!evaluated.get());
}

#[test]
fn fail_or_returns_the_fallback_result() {
    let evaluated = Cell::new(false);
    let r = Sorted::Fail.or(|| {
        evaluated.set(true);
        Sorted::Done
    });
    assert_eq!(r, Sorted::Done);
    assert!(evaluated.get());
    assert_eq!(Sorted::Fail.or(|| Sorted::Fail), Sorted::Fail);
}

#[test]
fn fail_and_never_evaluates_the_follow_on() {
    let evaluated = Cell::new(false);
    let r = Sorted::Fail.and(|| {
        evaluated.set(true);
        Sorted::Done
    });
    assert_eq!(r, Sorted::Fail);
    assert!(!evaluated.get());
}

#[test]
fn done_and_returns_the_follow_on_result() {
    let evaluated = Cell::new(false);
    let r = Sorted::Done.and(|| {
        evaluated.set(true);
        Sorted::Fail
    });
    assert_eq!(r, Sorted::Fail);
    assert!(evaluated.get());
    assert_eq!(Sorted::Done.and(|| Sorted::Done), Sorted::Done);
}

#[test]
fn or_chains_try_strategies_in_sequence() {
    let runs = Cell::new(0usize);
    let attempt = |outcome: Sorted| {
        let counter = &runs;
        move || {
            counter.set(counter.get() + 1);
            outcome
        }
    };
    let r = Sorted::Fail
        .or(attempt(Sorted::Fail))
        .or(attempt(Sorted::Done))
        .or(attempt(Sorted::Fail));
    assert_eq!(r, Sorted::Done);
    assert_eq!(runs.get(), 2);
}
