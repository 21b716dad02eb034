//! Primitive building blocks for constructing memory-budget-aware,
//! comparison-based sorting algorithms.
//!
//! This crate does not implement a sorting algorithm of its own. It supplies
//! the low-level pieces a concrete sort kernel is built from: index-level
//! sequence operations ([`op`]), a bisection search over a monotone predicate
//! ([`op::lower_bound`]), a capacity-resizable auxiliary buffer ([`buffer`]),
//! a two-valued outcome type ([`Sorted`]) with lazy composition, and a
//! generator that binds budget policies and a kernel into a public sort API
//! ([`template`]). A sample kernel built from these pieces lives in
//! [`kernel`].

use vstd::prelude::*;

pub mod buffer;
pub mod op;
pub mod kernel;
pub mod template;
pub mod order;

verus! {

/// An extension trait to serve as syntax sugar for "immutable decomposition"
/// operations: a value decomposes into the components of the sequence view it
/// covers.
pub trait Raw<T> {
    type Output;

    /// Return this value as its view components.
    fn raw(self) -> Self::Output;
}

/// An extension trait to serve as syntax sugar for "mutable decomposition"
/// operations.
pub trait RawMut<T> {
    type Output;

    /// Return this value as its view components.
    fn raw_mut(self) -> Self::Output;
}

impl<T> Raw<T> for &Vec<T> {
    type Output = (usize, usize);

    /// Return the view covering this whole vector: its start index and its
    /// length.
    fn raw(self) -> (r: (usize, usize))
        ensures
            r.0 == 0,
            r.1 == self@.len(),
    {
        (0, self.len())
    }
}

impl<T> RawMut<T> for &mut Vec<T> {
    type Output = (usize, usize);

    /// Return the view covering this whole vector: its start index and its
    /// length.
    fn raw_mut(self) -> (r: (usize, usize))
        ensures
            r.0 == 0,
            r.1 == old(self)@.len(),
    {
        (0, self.len())
    }
}

/// An extension trait to serve as syntax sugar for constructing views: from a
/// start index into some backing vector, build the (start, length) pair of a
/// sub-view. The bounds-validity of the result against the backing allocation
/// is the caller's to uphold, as the operations that consume views require.
pub trait GenerateSlice: Sized {
    /// The bounds on which cropping is defined.
    spec fn crop_ok(self, range: core::ops::Range<usize>) -> bool;

    /// The bounds on which [`GenerateSlice::to`] is defined.
    spec fn to_ok(self, end: Self) -> bool;

    /// Return the view of the elements on `range` relative to `self`.
    fn crop(self, range: core::ops::Range<usize>) -> (usize, usize)
        requires
            self.crop_ok(range),
    ;

    /// Return the view of the elements starting at `self` and ending before
    /// `end`.
    fn to(self, end: Self) -> (usize, usize)
        requires
            self.to_ok(end),
    ;
}

impl GenerateSlice for usize {
    open spec fn crop_ok(self, range: core::ops::Range<usize>) -> bool {
        range.start <= range.end && self + range.start <= usize::MAX
    }

    open spec fn to_ok(self, end: usize) -> bool {
        self <= end
    }

    /// Return the view of the elements on `range` relative to `self`.
    fn crop(self, range: core::ops::Range<usize>) -> (r: (usize, usize))
        ensures
            r.0 == self + range.start,
            r.1 == range.end - range.start,
    {
        (self + range.start, range.end - range.start)
    }

    /// Return the view of the elements starting at `self` and ending before
    /// `end`.
    fn to(self, end: usize) -> (r: (usize, usize))
        ensures
            r.0 == self,
            r.1 == end - self,
    {
        (self, end - self)
    }
}

/// Flag for indicating the result of a sorting operation.
#[derive(Clone, Copy, Debug, PartialEq, Eq, Structural)]
pub enum Sorted {
    /// Sorted successfully.
    Done,
    /// Could not sort.
    Fail,
}

/// What [`Sorted::or`] returns, as a function of the two outcome values.
pub open spec fn or_spec(a: Sorted, b: Sorted) -> Sorted {
    if a == Sorted::Done {
        a
    } else {
        b
    }
}

/// What [`Sorted::and`] returns, as a function of the two outcome values.
pub open spec fn and_spec(a: Sorted, b: Sorted) -> Sorted {
    if a == Sorted::Fail {
        a
    } else {
        b
    }
}

impl Sorted {
    /// Propagate a `Done` value or return the result of calling `f()` with
    /// lazy evaluation: `f` is not evaluated when `self` is `Done`.
    pub fn or<F: FnOnce() -> Sorted>(self, f: F) -> (r: Sorted)
        requires
            self == Sorted::Fail ==> call_requires(f, ()),
        ensures
            self == Sorted::Done ==> r == Sorted::Done,
            self == Sorted::Fail ==> call_ensures(f, (), r),
    {
        if self == Sorted::Done {
            self
        } else {
            f()
        }
    }

    /// Propagate a `Fail` value or return the result of calling `f()` with
    /// lazy evaluation: `f` is not evaluated when `self` is `Fail`.
    pub fn and<F: FnOnce() -> Sorted>(self, f: F) -> (r: Sorted)
        requires
            self == Sorted::Done ==> call_requires(f, ()),
        ensures
            self == Sorted::Fail ==> r == Sorted::Fail,
            self == Sorted::Done ==> call_ensures(f, (), r),
    {
        if self == Sorted::Fail {
            self
        } else {
            f()
        }
    }
}

/// Over the two-valued domain, `or` is associative: grouping does not change
/// the aggregate outcome.
pub proof fn lemma_or_associative(a: Sorted, b: Sorted, c: Sorted)
    ensures
        or_spec(or_spec(a, b), c) == or_spec(a, or_spec(b, c)),
{
}

/// Over the two-valued domain, `or` is commutative: `Done` absorbs.
pub proof fn lemma_or_commutative(a: Sorted, b: Sorted)
    ensures
        or_spec(a, b) == or_spec(b, a),
{
}

/// Over the two-valued domain, `and` is associative.
pub proof fn lemma_and_associative(a: Sorted, b: Sorted, c: Sorted)
    ensures
        and_spec(and_spec(a, b), c) == and_spec(a, and_spec(b, c)),
{
}

/// Over the two-valued domain, `and` is commutative: `Fail` absorbs.
pub proof fn lemma_and_commutative(a: Sorted, b: Sorted)
    ensures
        and_spec(a, b) == and_spec(b, a),
{
}

} // verus!
