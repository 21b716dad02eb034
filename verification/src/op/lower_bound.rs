//! Functions that, given a maximum value `n` and a predicate `f`, return the
//! first `i` in `0..n` such that `!f(i)`, or `n` if not found.
//!
//! The bisection expects the predicate to be monotone on `0..n`: true on a
//! prefix `0..m` and false on `m..n` for some boundary `m`. The contracts
//! state this relationally, through `call_ensures`, so any closure whose
//! possible results are monotone qualifies; the linear scan is defined for
//! any predicate at all and returns the first index it answers `false` on.

use vstd::prelude::*;

verus! {

/// `p` is a power of two, so that repeated halving steps through the powers
/// of two down to one.
spec fn pow2_step(p: int) -> bool
    decreases p,
{
    if p <= 0 {
        false
    } else if p == 1 {
        true
    } else {
        p % 2 == 0 && pow2_step(p / 2)
    }
}

/// The predicate may be called on every index below `n`.
pub open spec fn pred_callable_below<F: Fn(usize) -> bool>(f: F, n: usize) -> bool {
    forall|i: usize| i < n ==> #[trigger] call_requires(f, (i,))
}

/// The predicate behaves as a pure function on `0..n`: two possible outcomes
/// at the same index agree.
pub open spec fn pred_consistent_below<F: Fn(usize) -> bool>(f: F, n: usize) -> bool {
    forall|i: usize, b1: bool, b2: bool|
        i < n && #[trigger] call_ensures(f, (i,), b1) && #[trigger] call_ensures(f, (i,), b2)
            ==> b1 == b2
}

/// The predicate is monotone on `0..n`: a true outcome at a later index forces
/// every outcome at an earlier index to be true.
pub open spec fn pred_monotone_below<F: Fn(usize) -> bool>(f: F, n: usize) -> bool {
    forall|i: usize, j: usize, bi: bool, bj: bool|
        i <= j < n && #[trigger] call_ensures(f, (i,), bi) && #[trigger] call_ensures(f, (j,), bj)
            && bj ==> bi
}

/// `r` is a boundary of the predicate on `0..n`: the predicate can answer true
/// just below `r` and false at `r`.
pub open spec fn pred_boundary<F: Fn(usize) -> bool>(f: F, n: usize, r: usize) -> bool {
    &&& r <= n
    &&& r > 0 ==> call_ensures(f, ((r - 1) as usize,), true)
    &&& r < n ==> call_ensures(f, (r,), false)
}

/// Every possible outcome of the predicate on `0..n` is decided by `r`: true
/// exactly below `r`.
pub open spec fn pred_resolved_at<F: Fn(usize) -> bool>(f: F, n: usize, r: usize) -> bool {
    forall|i: usize, b: bool| i < n && #[trigger] call_ensures(f, (i,), b) ==> (b <==> i < r)
}

/// A boundary of a pure monotone predicate decides every outcome on `0..n`.
pub proof fn lemma_boundary_resolves<F: Fn(usize) -> bool>(f: F, n: usize, r: usize)
    requires
        pred_consistent_below(f, n),
        pred_monotone_below(f, n),
        pred_boundary(f, n, r),
    ensures
        pred_resolved_at(f, n, r),
{
    assert forall|i: usize, b: bool| i < n && #[trigger] call_ensures(f, (i,), b) implies (b <==> i
        < r) by {
        if i < r {
            assert(call_ensures(f, (((r - 1) as usize),), true));
            assert(i <= ((r - 1) as usize) && ((r - 1) as usize) < n);
        } else {
            assert(call_ensures(f, (r,), false));
            if b {
                assert(r <= i < n);
            }
        }
    }
}

/// For all `n` and predicates monotone on `0..n`, the boundary index is
/// unique: two boundaries of the same pure monotone predicate coincide.
/// In particular the bisection and the linear scan return the same index.
pub proof fn lemma_boundary_unique<F: Fn(usize) -> bool>(f: F, n: usize, r1: usize, r2: usize)
    requires
        pred_consistent_below(f, n),
        pred_monotone_below(f, n),
        pred_boundary(f, n, r1),
        pred_boundary(f, n, r2),
    ensures
        r1 == r2,
{
    lemma_boundary_resolves(f, n, r1);
    if r1 < r2 {
        assert(call_ensures(f, (((r2 - 1) as usize),), true));
        assert(r1 <= ((r2 - 1) as usize) && ((r2 - 1) as usize) < n);
    }
    if r2 < r1 {
        assert(call_ensures(f, (r2,), false));
        assert(r2 < r1 <= n);
    }
}

/// Return the first `i` in `0..n` on which `f` answered `false`, or `n` if
/// it answered `true` throughout. This scan is defined for any predicate; on
/// a pure monotone one the result is the boundary index, as
/// [`lemma_boundary_resolves`] and [`lemma_boundary_unique`] state.
/// Cost: `O(n)` calls to `f`.
pub fn linear<F: Fn(usize) -> bool>(n: usize, f: F) -> (r: usize)
    requires
        pred_callable_below(f, n),
    ensures
        pred_boundary(f, n, r),
        forall|i: usize| i < r ==> #[trigger] call_ensures(f, (i,), true),
{
    let mut i: usize = 0;
    while i < n
        invariant
            i <= n,
            pred_callable_below(f, n),
            forall|j: usize| j < i ==> #[trigger] call_ensures(f, (j,), true),
        decreases n - i,
    {
        let b = f(i);
        if !b {
            return i;
        }
        i = i + 1;
    }
    n
}

/// Return the first `i` in `0..n` such that `!f(i)`, or `n` if not found,
/// by bisection: a candidate index is grown by iterating step sizes from the
/// highest power of two not above `n` down to `1`, committing a step whenever
/// the probe just below the grown candidate still answers true. The number of
/// probes depends only on `n`, not on the data. For `n == 0` the result is
/// `0`. Cost: `O(log n)` calls to `f`.
pub fn binary<F: Fn(usize) -> bool>(n: usize, f: F) -> (r: usize)
    requires
        pred_callable_below(f, n),
        pred_consistent_below(f, n),
        pred_monotone_below(f, n),
    ensures
        pred_boundary(f, n, r),
        pred_resolved_at(f, n, r),
{
    if n == 0 {
        proof {
            lemma_boundary_resolves(f, n, 0);
        }
        return 0;
    }
    // The highest power of two that is not above `n`.
    let mut p: usize = 1;
    while p <= n / 2
        invariant
            1 <= p <= n,
            pow2_step(p as int),
        decreases n - p,
    {
        proof {
            assert(pow2_step(2 * p as int)) by {
                reveal_with_fuel(pow2_step, 2);
            }
        }
        p = 2 * p;
    }
    let mut i: usize = 0;
    while p > 0
        invariant
            i <= n,
            pred_callable_below(f, n),
            pred_consistent_below(f, n),
            pred_monotone_below(f, n),
            p > 0 ==> pow2_step(p as int),
            i == 0 || call_ensures(f, (((i - 1) as usize),), true),
            p > 0 ==> (i + 2 * p - 1 >= n || call_ensures(
                f,
                (((i + 2 * p - 1) as usize),),
                false,
            )),
            p == 0 ==> (i >= n || call_ensures(f, (i,), false)),
        decreases p,
    {
        proof {
            assert(p == 1 || (p % 2 == 0 && pow2_step(p as int / 2))) by {
                reveal_with_fuel(pow2_step, 2);
            }
        }
        if p <= n - i {
            let t = i + p;
            let b = f(t - 1);
            if b {
                i = t;
            }
        }
        p = p / 2;
    }
    proof {
        lemma_boundary_resolves(f, n, i);
    }
    i
}

} // verus!
