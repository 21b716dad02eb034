use std::cell::Cell;

use sort_util::op::{lower_bound, search, search_unique, Found};

fn lt(x: &i32, y: &i32) -> bool {
    x < y
}

#[test]
fn lower_bound_binary_finds_the_boundary() {
    for m in 0..=10usize {
        let r = lower_bound::binary(10, |i: usize| i < m);
        assert_eq!(r, m);
    }
}

#[test]
fn lower_bound_linear_finds_the_boundary() {
    for m in 0..=7usize {
        let r = lower_bound::linear(7, |i: usize| i < m);
        assert_eq!(r, m);
    }
}

#[test]
fn lower_bound_zero_length_returns_zero() {
    let calls = Cell::new(0usize);
    let r = lower_bound::binary(0, |_i: usize| {
        calls.set(calls.get() + 1);
        true
    });
    assert_eq!(r, 0);
    assert_eq!(calls.get(), 0);
    assert_eq!(lower_bound::linear(0, |_i: usize| true), 0);
}

#[test]
fn lower_bound_binary_probes_logarithmically() {
    for m in 0..=13usize {
        let calls = Cell::new(0usize);
        let r = lower_bound::binary(13, |i: usize| {
            calls.set(calls.get() + 1);
            i < m
        });
        assert_eq!(r, m);
        // One candidate bit per step size, and a probe is evaluated only
        // when its index stays below 13: never more than ceil(log2(13)) + 1.
        assert!(calls.get() <= 4);
    }
}

#[test]
fn search_binary_returns_leftmost_insertion_index() {
    let v = vec![1, 3, 3, 5, 7];
    assert_eq!(search::binary(&v, 5, &0, &lt), 0);
    assert_eq!(search::binary(&v, 5, &1, &lt), 0);
    assert_eq!(search::binary(&v, 5, &2, &lt), 1);
    assert_eq!(search::binary(&v, 5, &3, &lt), 1);
    assert_eq!(search::binary(&v, 5, &4, &lt), 3);
    assert_eq!(search::binary(&v, 5, &7, &lt), 4);
    assert_eq!(search::binary(&v, 5, &8, &lt), 5);
}

#[test]
fn search_linear_agrees_with_binary() {
    let v = vec![2, 4, 4, 4, 9];
    for val in 0..=10 {
        assert_eq!(
            search::linear(&v, 5, &val, &lt),
            search::binary(&v, 5, &val, &lt)
        );
    }
}

#[test]
fn search_respects_the_window_length() {
    let v = vec![1, 2, 3, 100, 4];
    // Only the first three elements are searched.
    assert_eq!(search::binary(&v, 3, &10, &lt), 3);
}

#[test]
fn search_unique_single_match_is_found() {
    let v = vec![1, 3, 5, 7];
    let r = search_unique(&v, 4, &5, &lt);
    assert_eq!(r, Found(true, 2));
}

#[test]
fn search_unique_absent_gives_insertion_point() {
    let v = vec![1, 3, 5, 7];
    let r = search_unique(&v, 4, &4, &lt);
    assert_eq!(r, Found(false, 2));
    let r = search_unique(&v, 4, &8, &lt);
    assert_eq!(r, Found(false, 4));
}

#[test]
fn search_unique_duplicates_give_leftmost_match() {
    let v = vec![1, 3, 3, 3, 5];
    let r = search_unique(&v, 5, &3, &lt);
    assert_eq!(r, Found(true, 1));
}

#[test]
fn search_on_an_empty_prefix() {
    let v: Vec<i32> = Vec::new();
    assert_eq!(search::binary(&v, 0, &3, &lt), 0);
    assert_eq!(search::linear(&v, 0, &3, &lt), 0);
    assert_eq!(search_unique(&v, 0, &3, &lt), Found(false, 0));
}

#[test]
fn lower_bound_linear_on_a_non_monotone_predicate() {
    // The linear scan returns the first index the predicate rejects, for any
    // predicate.
    let r = lower_bound::linear(6, |i: usize| i != 2 && i != 4);
    assert_eq!(r, 2);
}
