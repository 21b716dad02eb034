//! The generator binding three memory-budget policies and an externally
//! supplied sort kernel into a family of public sort entry points.
//!
//! A kernel implements [`SortKernel`]: it declares the buffer capacity at
//! which it guarantees success, its three budget policies, and the sorting
//! routine itself. The entry points provision a buffer according to the
//! chosen policy, normalize any comparator into a boolean less-than
//! predicate, and invoke the kernel. The default-budget entry points `sort`
//! and `sort_by` always supply a sufficient buffer, so a kernel failure is
//! not observable through them.

use crate::buffer::{create, AsSliceMut, AuxiliaryBuffer};
use crate::order::{
    below_of, comparator_callable, consistent_with, ordering_callable, ordering_consistent_with,
    sorted_by, strict_weak, valid_comparator,
};
use crate::Sorted;
use vstd::prelude::*;
use vstd::std_specs::cmp::OrdSpec;

verus! {

/// The natural order of an `Ord` type, as the relation "compares as
/// `Less`".
pub open spec fn natural_below<T: Ord>() -> spec_fn(T, T) -> bool {
    |x: T, y: T| x.cmp_spec(&y) == core::cmp::Ordering::Less
}

/// The natural order supports verified sorting: `cmp` agrees with its
/// specification and orders the type as a strict weak ordering.
pub open spec fn natural_order_laws<T: Ord>() -> bool {
    &&& T::obeys_cmp_spec()
    &&& strict_weak(natural_below::<T>())
}

/// The natural order's less-than test, used to normalize `Ord` comparisons
/// into the boolean predicate a kernel consumes.
pub fn ord_less<T: Ord>(x: &T, y: &T) -> (b: bool)
    ensures
        T::obeys_cmp_spec() ==> b == (natural_below::<T>())(*x, *y),
{
    matches!(x.cmp(y), core::cmp::Ordering::Less)
}

/// The natural order's less-than test is an admissible comparator whenever
/// the type's `cmp` agrees with its specification and orders the type as a
/// strict weak ordering.
pub proof fn lemma_natural_comparator<T: Ord>()
    requires
        natural_order_laws::<T>(),
    ensures
        valid_comparator(ord_less::<T>),
        consistent_with(ord_less::<T>, natural_below::<T>()),
{
    assert forall|x: T, y: T| #[trigger] call_requires(ord_less::<T>, (&x, &y)) by {}
    assert(consistent_with(ord_less::<T>, natural_below::<T>()));
}

/// An externally supplied sort kernel together with its three buffer-budget
/// policies. The kernel must either fully sort the sequence non-descending
/// and report `Done`, or report `Fail`, leaving the sequence exactly as it
/// found it, only when the supplied buffer is too small for its strategy: a
/// buffer of at least `required_capacity` elements guarantees success. In
/// either case the sequence keeps exactly its original elements.
pub trait SortKernel<T>: Sized {
    /// The buffer capacity at which the kernel guarantees success on an
    /// input of length `len`.
    spec fn required_capacity(len: nat) -> nat;

    /// The default buffer capacity for an input of length `len`: always
    /// sufficient.
    fn default_budget(len: usize) -> (r: usize)
        ensures
            r >= Self::required_capacity(len as nat),
    ;

    /// The minimum buffer capacity the kernel is willing to work towards:
    /// trades time for space.
    fn min_budget(len: usize) -> (r: usize);

    /// The maximum buffer capacity the kernel can put to use: trades space
    /// for time.
    fn max_budget(len: usize) -> (r: usize);

    /// Sort `v` non-descending by `less`, using `aux` as scratch storage.
    fn run<F: Fn(&T, &T) -> bool>(v: &mut Vec<T>, aux: &mut AuxiliaryBuffer<T>, less: &F) -> (r:
        Sorted)
        requires
            old(aux).wf(),
            valid_comparator(*less),
        ensures
            final(aux).wf(),
            final(v)@.to_multiset() == old(v)@.to_multiset(),
            r == Sorted::Fail ==> final(v)@ == old(v)@,
            old(aux)@.len() >= Self::required_capacity(old(v)@.len()) ==> r == Sorted::Done,
            forall|lt: spec_fn(T, T) -> bool|
                #[trigger] consistent_with(*less, lt) && strict_weak(lt) && r == Sorted::Done
                    ==> sorted_by(lt, final(v)@),
    ;
}

/// Normalize an `Ordering`-valued comparison function into a boolean
/// less-than predicate and run the kernel on `v` with `aux` as scratch.
fn normalize_and_run<T, K: SortKernel<T>, C: Fn(&T, &T) -> core::cmp::Ordering>(
    v: &mut Vec<T>,
    aux: &mut AuxiliaryBuffer<T>,
    f: C,
) -> (r: Sorted)
    requires
        old(aux).wf(),
        ordering_callable(f),
        exists|c: spec_fn(T, T) -> core::cmp::Ordering|
            #[trigger] ordering_consistent_with(f, c) && strict_weak(below_of(c)),
    ensures
        final(v)@.to_multiset() == old(v)@.to_multiset(),
        r == Sorted::Fail ==> final(v)@ == old(v)@,
        old(aux)@.len() >= K::required_capacity(old(v)@.len()) ==> r == Sorted::Done,
        forall|c: spec_fn(T, T) -> core::cmp::Ordering|
            #[trigger] ordering_consistent_with(f, c) && strict_weak(below_of(c)) && r
                == Sorted::Done ==> sorted_by(below_of(c), final(v)@),
{
    let fv: Ghost<C> = Ghost(f);
    let l = |x: &T, y: &T| -> (bo: bool)
        requires
            ordering_callable(fv@),
        ensures
            exists|o: core::cmp::Ordering|
                #[trigger] call_ensures(fv@, (x, y), o) && (bo <==> o == core::cmp::Ordering::Less),
        {
            matches!(f(x, y), core::cmp::Ordering::Less)
        };
    proof {
        assert forall|x: T, y: T| #[trigger] call_requires(l, (&x, &y)) by {}
        let c0 = choose|c: spec_fn(T, T) -> core::cmp::Ordering|
            #[trigger] ordering_consistent_with(f, c) && strict_weak(below_of(c));
        lemma_normalized_consistent(f, l, c0);
        assert(valid_comparator(l));
    }
    let r = K::run(v, aux, &l);
    proof {
        assert forall|c: spec_fn(T, T) -> core::cmp::Ordering|
            #[trigger] ordering_consistent_with(f, c) && strict_weak(below_of(c)) && r
                == Sorted::Done implies sorted_by(below_of(c), v@) by {
            lemma_normalized_consistent(f, l, c);
        }
    }
    r
}

/// The normalized boolean predicate is consistent with the less-than
/// relation of every relation the `Ordering`-valued function is consistent
/// with.
proof fn lemma_normalized_consistent<T, C: Fn(&T, &T) -> core::cmp::Ordering, F: Fn(&T, &T) -> bool>(
    f: C,
    l: F,
    c: spec_fn(T, T) -> core::cmp::Ordering,
)
    requires
        ordering_consistent_with(f, c),
        forall|x: &T, y: &T, bo: bool| #[trigger]
            call_ensures(l, (x, y), bo) ==> exists|o: core::cmp::Ordering|
                #[trigger] call_ensures(f, (x, y), o) && (bo <==> o == core::cmp::Ordering::Less),
    ensures
        consistent_with(l, below_of(c)),
{
    assert forall|x: T, y: T, b: bool| #[trigger] call_ensures(l, (&x, &y), b) implies b == (
    below_of(c))(x, y) by {
        let o = choose|o: core::cmp::Ordering|
            #[trigger] call_ensures(f, (&x, &y), o) && (b <==> o == core::cmp::Ordering::Less);
        assert(o == c(x, y));
    }
}

/// Sort `v`.
pub fn sort<T: Ord, K: SortKernel<T>>(v: &mut Vec<T>)
    requires
        natural_order_laws::<T>(),
    ensures
        final(v)@.to_multiset() == old(v)@.to_multiset(),
        sorted_by(natural_below::<T>(), final(v)@),
{
    let cap = K::default_budget(v.len());
    let mut b = create(cap);
    proof {
        lemma_natural_comparator::<T>();
    }
    let r = K::run(v, &mut b, &(ord_less::<T>));
}

/// Sort `v` with a comparison function `f`.
pub fn sort_by<T, K: SortKernel<T>, C: Fn(&T, &T) -> core::cmp::Ordering>(v: &mut Vec<T>, f: C)
    requires
        ordering_callable(f),
        exists|c: spec_fn(T, T) -> core::cmp::Ordering|
            #[trigger] ordering_consistent_with(f, c) && strict_weak(below_of(c)),
    ensures
        final(v)@.to_multiset() == old(v)@.to_multiset(),
        forall|c: spec_fn(T, T) -> core::cmp::Ordering|
            #[trigger] ordering_consistent_with(f, c) && strict_weak(below_of(c)) ==> sorted_by(
                below_of(c),
                final(v)@,
            ),
{
    let cap = K::default_budget(v.len());
    let mut b = create(cap);
    let r = normalize_and_run::<T, K, C>(v, &mut b, f);
}

/// Sort `v` with `aux` as a buffer.
pub fn sort_with<T: Ord, K: SortKernel<T>, A: AsSliceMut<T>>(v: &mut Vec<T>, aux: A) -> (r: Sorted)
    requires
        natural_order_laws::<T>(),
        aux.buffer_ready(),
    ensures
        final(v)@.to_multiset() == old(v)@.to_multiset(),
        r == Sorted::Fail ==> final(v)@ == old(v)@,
        aux.buffer_len() >= K::required_capacity(old(v)@.len()) ==> r == Sorted::Done,
        r == Sorted::Done ==> sorted_by(natural_below::<T>(), final(v)@),
{
    let mut b = aux.as_slice_mut();
    proof {
        lemma_natural_comparator::<T>();
    }
    K::run(v, &mut b, &(ord_less::<T>))
}

/// Sort `v` with `aux` as a buffer and `f` as a comparison function.
pub fn sort_with_by<T, K: SortKernel<T>, A: AsSliceMut<T>, C: Fn(&T, &T) -> core::cmp::Ordering>(
    v: &mut Vec<T>,
    aux: A,
    f: C,
) -> (r: Sorted)
    requires
        aux.buffer_ready(),
        ordering_callable(f),
        exists|c: spec_fn(T, T) -> core::cmp::Ordering|
            #[trigger] ordering_consistent_with(f, c) && strict_weak(below_of(c)),
    ensures
        final(v)@.to_multiset() == old(v)@.to_multiset(),
        r == Sorted::Fail ==> final(v)@ == old(v)@,
        aux.buffer_len() >= K::required_capacity(old(v)@.len()) ==> r == Sorted::Done,
        forall|c: spec_fn(T, T) -> core::cmp::Ordering|
            #[trigger] ordering_consistent_with(f, c) && strict_weak(below_of(c)) && r
                == Sorted::Done ==> sorted_by(below_of(c), final(v)@),
{
    let mut b = aux.as_slice_mut();
    normalize_and_run::<T, K, C>(v, &mut b, f)
}

/// Sort `v` with minimum memory settings.
pub fn sort_min<T: Ord, K: SortKernel<T>>(v: &mut Vec<T>) -> (r: Sorted)
    requires
        natural_order_laws::<T>(),
    ensures
        final(v)@.to_multiset() == old(v)@.to_multiset(),
        r == Sorted::Fail ==> final(v)@ == old(v)@,
        r == Sorted::Done ==> sorted_by(natural_below::<T>(), final(v)@),
{
    let cap = K::min_budget(v.len());
    let mut b = create(cap);
    proof {
        lemma_natural_comparator::<T>();
    }
    K::run(v, &mut b, &(ord_less::<T>))
}

/// Sort `v` with minimum memory settings and `f` as a comparison function.
pub fn sort_min_by<T, K: SortKernel<T>, C: Fn(&T, &T) -> core::cmp::Ordering>(
    v: &mut Vec<T>,
    f: C,
) -> (r: Sorted)
    requires
        ordering_callable(f),
        exists|c: spec_fn(T, T) -> core::cmp::Ordering|
            #[trigger] ordering_consistent_with(f, c) && strict_weak(below_of(c)),
    ensures
        final(v)@.to_multiset() == old(v)@.to_multiset(),
        r == Sorted::Fail ==> final(v)@ == old(v)@,
        forall|c: spec_fn(T, T) -> core::cmp::Ordering|
            #[trigger] ordering_consistent_with(f, c) && strict_weak(below_of(c)) && r
                == Sorted::Done ==> sorted_by(below_of(c), final(v)@),
{
    let cap = K::min_budget(v.len());
    let mut b = create(cap);
    normalize_and_run::<T, K, C>(v, &mut b, f)
}

/// Sort `v` with maximum memory settings.
pub fn sort_max<T: Ord, K: SortKernel<T>>(v: &mut Vec<T>) -> (r: Sorted)
    requires
        natural_order_laws::<T>(),
    ensures
        final(v)@.to_multiset() == old(v)@.to_multiset(),
        r == Sorted::Fail ==> final(v)@ == old(v)@,
        r == Sorted::Done ==> sorted_by(natural_below::<T>(), final(v)@),
{
    let cap = K::max_budget(v.len());
    let mut b = create(cap);
    proof {
        lemma_natural_comparator::<T>();
    }
    K::run(v, &mut b, &(ord_less::<T>))
}

/// Sort `v` with maximum memory settings and `f` as a comparison function.
pub fn sort_max_by<T, K: SortKernel<T>, C: Fn(&T, &T) -> core::cmp::Ordering>(
    v: &mut Vec<T>,
    f: C,
) -> (r: Sorted)
    requires
        ordering_callable(f),
        exists|c: spec_fn(T, T) -> core::cmp::Ordering|
            #[trigger] ordering_consistent_with(f, c) && strict_weak(below_of(c)),
    ensures
        final(v)@.to_multiset() == old(v)@.to_multiset(),
        r == Sorted::Fail ==> final(v)@ == old(v)@,
        forall|c: spec_fn(T, T) -> core::cmp::Ordering|
            #[trigger] ordering_consistent_with(f, c) && strict_weak(below_of(c)) && r
                == Sorted::Done ==> sorted_by(below_of(c), final(v)@),
{
    let cap = K::max_budget(v.len());
    let mut b = create(cap);
    normalize_and_run::<T, K, C>(v, &mut b, f)
}

} // verus!
