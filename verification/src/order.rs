//! Specification vocabulary for comparison functions.
//!
//! The search primitives and the sort API take a comparator as a closure of
//! type `Fn(&T, &T) -> bool`. A closure is described by the mathematical
//! relations it is consistent with: `lt` is such a relation when every
//! possible result of the closure agrees with it. Contracts assume that some
//! consistent relation is a strict weak ordering, and promise their results
//! for every such relation; a caller that knows what its comparator computes
//! instantiates the promise with that relation.

use vstd::prelude::*;

verus! {

/// The comparator may be called on any pair of elements.
pub open spec fn comparator_callable<T, F: Fn(&T, &T) -> bool>(less: F) -> bool {
    forall|x: T, y: T| #[trigger] call_requires(less, (&x, &y))
}

/// Every possible result of the comparator agrees with the relation `lt`.
pub open spec fn consistent_with<T, F: Fn(&T, &T) -> bool>(
    less: F,
    lt: spec_fn(T, T) -> bool,
) -> bool {
    forall|x: T, y: T, b: bool| #[trigger] call_ensures(less, (&x, &y), b) ==> b == lt(x, y)
}

/// The laws of a strict weak ordering that the crate's proofs rely on:
/// asymmetry, transitivity, and the two mixed laws that combine "below" with
/// "not above". All four hold of any strict weak ordering.
pub open spec fn strict_weak<T>(lt: spec_fn(T, T) -> bool) -> bool {
    &&& (forall|x: T, y: T| #[trigger] lt(x, y) ==> !lt(y, x))
    &&& (forall|x: T, y: T, z: T| #[trigger] lt(x, y) && #[trigger] lt(y, z) ==> lt(x, z))
    &&& (forall|x: T, y: T, z: T| #[trigger] lt(y, z) && !lt(y, x) ==> #[trigger] lt(x, z))
    &&& (forall|x: T, y: T, z: T| #[trigger] lt(x, y) && !lt(z, y) ==> #[trigger] lt(x, z))
}

/// A comparator the sort building blocks accept: callable on every pair, and
/// consistent with at least one strict weak ordering. Behaviour is
/// unspecified for comparators outside this class.
pub open spec fn valid_comparator<T, F: Fn(&T, &T) -> bool>(less: F) -> bool {
    &&& comparator_callable(less)
    &&& exists|lt: spec_fn(T, T) -> bool| #[trigger] consistent_with(less, lt) && strict_weak(lt)
}

/// The sequence is in non-descending order under `lt`: no later element is
/// below an earlier one.
pub open spec fn sorted_by<T>(lt: spec_fn(T, T) -> bool, s: Seq<T>) -> bool {
    forall|i: int, j: int| 0 <= i < j < s.len() ==> !lt(#[trigger] s[j], #[trigger] s[i])
}

/// The first `n` elements of `s` are partitioned under `lt` with respect to
/// `val`: the elements below `val` form a prefix. This is all the bisection
/// search needs, and it follows from the prefix being sorted under a strict
/// weak ordering.
pub open spec fn partitioned_by<T>(lt: spec_fn(T, T) -> bool, s: Seq<T>, n: int, val: T) -> bool {
    forall|i: int, j: int|
        0 <= i <= j < n && n <= s.len() && lt(#[trigger] s[j], val) ==> lt(#[trigger] s[i], val)
}

/// A sorted prefix under a strict weak ordering is partitioned with respect
/// to every probe value.
pub proof fn lemma_sorted_implies_partitioned<T>(
    lt: spec_fn(T, T) -> bool,
    s: Seq<T>,
    n: int,
    val: T,
)
    requires
        strict_weak(lt),
        0 <= n <= s.len(),
        sorted_by(lt, s.subrange(0, n)),
    ensures
        partitioned_by(lt, s, n, val),
{
    assert forall|i: int, j: int|
        0 <= i <= j < n && n <= s.len() && lt(#[trigger] s[j], val) implies lt(
        #[trigger] s[i],
        val,
    ) by {
        if i < j {
            assert(s.subrange(0, n)[i] == s[i]);
            assert(s.subrange(0, n)[j] == s[j]);
            assert(!lt(s[j], s[i]));
        }
    }
}

/// The `Ordering`-valued comparison function may be called on any pair of
/// elements.
pub open spec fn ordering_callable<T, C: Fn(&T, &T) -> core::cmp::Ordering>(f: C) -> bool {
    forall|x: T, y: T| #[trigger] call_requires(f, (&x, &y))
}

/// Every possible result of the `Ordering`-valued comparison function agrees
/// with the relation `c`.
pub open spec fn ordering_consistent_with<T, C: Fn(&T, &T) -> core::cmp::Ordering>(
    f: C,
    c: spec_fn(T, T) -> core::cmp::Ordering,
) -> bool {
    forall|x: T, y: T, o: core::cmp::Ordering| #[trigger]
        call_ensures(f, (&x, &y), o) ==> o == c(x, y)
}

/// The boolean less-than relation an `Ordering`-valued relation normalizes
/// to.
pub open spec fn below_of<T>(c: spec_fn(T, T) -> core::cmp::Ordering) -> spec_fn(T, T) -> bool {
    |x: T, y: T| c(x, y) == core::cmp::Ordering::Less
}

} // verus!
