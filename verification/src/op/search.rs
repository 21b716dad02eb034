//! Functions that, given a backing vector `s`, a number `n` of leading
//! elements to search through, an element `val` to compare by, and a
//! comparison function `less`, return the first `i` in `0..n` such that
//! `s[i]` is not below `val`, or `n` if not found: the leftmost index at
//! which `val` could be inserted while keeping non-descending order.

use crate::op::lower_bound;
use crate::order::{
    comparator_callable, consistent_with, partitioned_by, strict_weak, valid_comparator,
};
use vstd::prelude::*;

verus! {

/// `r` is the leftmost valid insertion index for `val` among the first `n`
/// elements of `s` under `lt`: exactly the elements before `r` are below
/// `val`.
pub open spec fn insertion_point<T>(
    lt: spec_fn(T, T) -> bool,
    s: Seq<T>,
    n: usize,
    val: T,
    r: usize,
) -> bool {
    &&& r <= n
    &&& forall|i: int| 0 <= i < n ==> (lt(#[trigger] s[i], val) <==> i < r)
}

/// Return the first `i` in `0..n` such that `s[i]` is not below `val`, or `n`
/// if not found. Cost: `O(n)` comparisons.
pub fn linear<T, F: Fn(&T, &T) -> bool>(s: &Vec<T>, n: usize, val: &T, less: &F) -> (r: usize)
    requires
        n <= s.len(),
        valid_comparator(*less),
        forall|lt: spec_fn(T, T) -> bool|
            #[trigger] consistent_with(*less, lt) && strict_weak(lt) ==> partitioned_by(
                lt,
                s@,
                n as int,
                *val,
            ),
    ensures
        r <= n,
        forall|lt: spec_fn(T, T) -> bool|
            #[trigger] consistent_with(*less, lt) && strict_weak(lt) ==> insertion_point(
                lt,
                s@,
                n,
                *val,
                r,
            ),
{
    let lv: Ghost<F> = Ghost(*less);
    let g = |i: usize| -> (b: bool)
        requires
            i < n,
            n <= s.len(),
            comparator_callable(lv@),
        ensures
            call_ensures(lv@, (&s@[i as int], val), b),
        {
            (*less)(&s[i], val)
        };
    proof {
        assert forall|i: usize| i < n implies call_requires(g, (i,)) by {}
        lemma_probe_facts(lv@, s@, n, val, g);
    }
    let r = lower_bound::linear(n, g);
    proof {
        lemma_boundary_is_insertion_point(lv@, s@, n, val, g, r);
    }
    r
}

/// Return the first `i` in `0..n` such that `s[i]` is not below `val`, or `n`
/// if not found, by bisection. Behaviour is specified only when the first `n`
/// elements are partitioned by `less` with respect to `val`, which holds in
/// particular when they are sorted non-descending by `less`.
///
/// Cost: `O(log n)` comparisons.
pub fn binary<T, F: Fn(&T, &T) -> bool>(s: &Vec<T>, n: usize, val: &T, less: &F) -> (r: usize)
    requires
        n <= s.len(),
        valid_comparator(*less),
        forall|lt: spec_fn(T, T) -> bool|
            #[trigger] consistent_with(*less, lt) && strict_weak(lt) ==> partitioned_by(
                lt,
                s@,
                n as int,
                *val,
            ),
    ensures
        r <= n,
        forall|lt: spec_fn(T, T) -> bool|
            #[trigger] consistent_with(*less, lt) && strict_weak(lt) ==> insertion_point(
                lt,
                s@,
                n,
                *val,
                r,
            ),
{
    let lv: Ghost<F> = Ghost(*less);
    let g = |i: usize| -> (b: bool)
        requires
            i < n,
            n <= s.len(),
            comparator_callable(lv@),
        ensures
            call_ensures(lv@, (&s@[i as int], val), b),
        {
            (*less)(&s[i], val)
        };
    proof {
        assert forall|i: usize| i < n implies call_requires(g, (i,)) by {}
        lemma_probe_facts(lv@, s@, n, val, g);
    }
    let r = lower_bound::binary(n, g);
    proof {
        lemma_boundary_is_insertion_point(lv@, s@, n, val, g, r);
    }
    r
}

/// The probe predicate "element `i` is below `val`" of an admissible
/// comparator is pure and, over a partitioned prefix, monotone.
proof fn lemma_probe_facts<T, F: Fn(&T, &T) -> bool, G: Fn(usize) -> bool>(
    less: F,
    s: Seq<T>,
    n: usize,
    val: &T,
    g: G,
)
    requires
        n <= s.len(),
        valid_comparator(less),
        forall|lt: spec_fn(T, T) -> bool|
            #[trigger] consistent_with(less, lt) && strict_weak(lt) ==> partitioned_by(
                lt,
                s,
                n as int,
                *val,
            ),
        forall|i: usize| i < n ==> #[trigger] call_requires(g, (i,)),
        forall|i: usize, b: bool|
            i < n && #[trigger] call_ensures(g, (i,), b) ==> call_ensures(
                less,
                (&s[i as int], val),
                b,
            ),
    ensures
        lower_bound::pred_callable_below(g, n),
        lower_bound::pred_consistent_below(g, n),
        lower_bound::pred_monotone_below(g, n),
{
    let lt = choose|lt: spec_fn(T, T) -> bool|
        #[trigger] consistent_with(less, lt) && strict_weak(lt);
    assert(partitioned_by(lt, s, n as int, *val));
    assert forall|i: usize, b1: bool, b2: bool|
        i < n && #[trigger] call_ensures(g, (i,), b1) && #[trigger] call_ensures(
        g,
        (i,),
        b2,
    ) implies b1 == b2 by {
        assert(call_ensures(less, (&s[i as int], val), b1));
        assert(call_ensures(less, (&s[i as int], val), b2));
    }
    assert forall|i: usize, j: usize, bi: bool, bj: bool|
        i <= j < n && #[trigger] call_ensures(g, (i,), bi) && #[trigger] call_ensures(g, (j,), bj)
            && bj implies bi by {
        assert(call_ensures(less, (&s[i as int], val), bi));
        assert(call_ensures(less, (&s[j as int], val), bj));
        assert(lt(s[j as int], *val));
        assert(lt(s[i as int], *val));
    }
}

/// A boundary of the probe predicate is an insertion point under every
/// strict weak ordering the comparator is consistent with.
proof fn lemma_boundary_is_insertion_point<T, F: Fn(&T, &T) -> bool, G: Fn(usize) -> bool>(
    less: F,
    s: Seq<T>,
    n: usize,
    val: &T,
    g: G,
    r: usize,
)
    requires
        n <= s.len(),
        forall|lt: spec_fn(T, T) -> bool|
            #[trigger] consistent_with(less, lt) && strict_weak(lt) ==> partitioned_by(
                lt,
                s,
                n as int,
                *val,
            ),
        forall|i: usize, b: bool|
            i < n && #[trigger] call_ensures(g, (i,), b) ==> call_ensures(
                less,
                (&s[i as int], val),
                b,
            ),
        lower_bound::pred_boundary(g, n, r),
    ensures
        forall|lt: spec_fn(T, T) -> bool|
            #[trigger] consistent_with(less, lt) && strict_weak(lt) ==> insertion_point(
                lt,
                s,
                n,
                *val,
                r,
            ),
{
    assert forall|lt: spec_fn(T, T) -> bool|
        #[trigger] consistent_with(less, lt) && strict_weak(lt) implies insertion_point(
        lt,
        s,
        n,
        *val,
        r,
    ) by {
        assert forall|i: int| 0 <= i < n implies (lt(#[trigger] s[i], *val) <==> i < r) by {
            if i < r {
                assert(call_ensures(g, (((r - 1) as usize),), true));
                assert(call_ensures(less, (&s[r - 1], val), true));
                assert(lt(s[r - 1], *val));
                assert(lt(s[i], *val));
            } else {
                assert(call_ensures(g, (r,), false));
                assert(call_ensures(less, (&s[r as int], val), false));
                assert(!lt(s[r as int], *val));
                if lt(s[i], *val) {
                    assert(lt(s[r as int], *val));
                }
            }
        }
    }
}

} // verus!
