//! Index-level sequence operations and searches: rotation, shifted
//! single-element insertion, block exchange, and comparison-based searches
//! built on the bisection primitive.
//!
//! A "view" here is a pair of a start index and a length into one owned
//! backing vector; every operation takes the backing vector together with the
//! indices it works on, and its precondition keeps every touched index inside
//! the backing allocation.

use crate::order::{consistent_with, partitioned_by, sorted_by, strict_weak, valid_comparator};
use vstd::prelude::*;

pub mod lower_bound;
pub mod search;

verus! {

/// The first `n` elements starting at `start` left-rotated by `offset`, the
/// rest of the sequence unchanged.
pub open spec fn rotated<T>(s: Seq<T>, start: int, n: int, offset: int) -> Seq<T> {
    s.subrange(0, start) + s.subrange(start + offset, start + n) + s.subrange(
        start,
        start + offset,
    ) + s.subrange(start + n, s.len() as int)
}

/// The element at `pos` moved `n` slots to the left, the `n` elements in
/// between shifted one slot to the right, the rest unchanged.
pub open spec fn inserted_left<T>(s: Seq<T>, pos: int, n: int) -> Seq<T> {
    s.subrange(0, pos - n) + seq![s[pos]] + s.subrange(pos - n, pos) + s.subrange(
        pos + 1,
        s.len() as int,
    )
}

/// The element at `pos` moved `n` slots to the right, the `n` elements in
/// between shifted one slot to the left, the rest unchanged.
pub open spec fn inserted_right<T>(s: Seq<T>, pos: int, n: int) -> Seq<T> {
    s.subrange(0, pos) + s.subrange(pos + 1, pos + n + 1) + seq![s[pos]] + s.subrange(
        pos + n + 1,
        s.len() as int,
    )
}

/// The `count` elements starting at `src` exchanged with the `count` elements
/// starting at `dst`, the rest unchanged.
pub open spec fn exchanged<T>(s: Seq<T>, src: int, dst: int, count: int) -> Seq<T> {
    Seq::new(
        s.len(),
        |i: int|
            if src <= i < src + count {
                s[dst + (i - src)]
            } else if dst <= i < dst + count {
                s[src + (i - dst)]
            } else {
                s[i]
            },
    )
}

/// Exchange the elements at positions `i` and `j` of `s`.
fn swap_at<T>(s: &mut Vec<T>, i: usize, j: usize)
    requires
        i < old(s).len(),
        j < old(s).len(),
        i != j,
    ensures
        final(s)@ == old(s)@.update(i as int, old(s)@[j as int]).update(j as int, old(s)@[i as int]),
{
    let (a, b) = if i < j {
        (i, j)
    } else {
        (j, i)
    };
    let ghost s0 = s@;
    let y = s.remove(b);
    let x = s.remove(a);
    s.insert(a, y);
    s.insert(b, x);
    proof {
        assert(s@ =~= s0.update(i as int, s0[j as int]).update(j as int, s0[i as int]));
    }
}

/// Rotate `n` elements to the left by `offset` starting at index `start` of
/// the backing vector `s`, performing whichever of a left- or right-rotation
/// takes fewer steps. Cost: `O(n)` element moves per step taken.
pub fn rotate<T>(s: &mut Vec<T>, start: usize, n: usize, offset: usize)
    requires
        start + n <= old(s).len(),
        offset <= n,
    ensures
        final(s)@ == rotated(old(s)@, start as int, n as int, offset as int),
{
    let ghost s0 = s@;
    if offset <= n - offset {
        let mut j: usize = 0;
        proof {
            assert(s@ =~= rotated(s0, start as int, n as int, 0));
        }
        while j < offset
            invariant
                j <= offset <= n,
                start + n <= s.len(),
                s0.len() == s@.len(),
                s@ == rotated(s0, start as int, n as int, j as int),
            decreases offset - j,
        {
            let x = s.remove(start);
            s.insert(start + n - 1, x);
            proof {
                assert(s@ =~= rotated(s0, start as int, n as int, j + 1));
            }
            j = j + 1;
        }
    } else {
        let mut j: usize = 0;
        proof {
            assert(s@ =~= rotated(s0, start as int, n as int, n as int));
        }
        while j < n - offset
            invariant
                j <= n - offset,
                offset <= n,
                start + n <= s.len(),
                s0.len() == s@.len(),
                s@ == rotated(s0, start as int, n as int, n - j),
            decreases n - offset - j,
        {
            let x = s.remove(start + n - 1);
            s.insert(start, x);
            proof {
                assert(s@ =~= rotated(s0, start as int, n as int, n - j - 1));
            }
            j = j + 1;
        }
    }
}

/// Rotating left by `offset` and then by `n - offset` restores the sequence:
/// the two rotations compose to the identity for all `0 <= offset <= n`.
pub proof fn lemma_rotate_round_trip<T>(s: Seq<T>, start: int, n: int, offset: int)
    requires
        0 <= start,
        0 <= n,
        start + n <= s.len(),
        0 <= offset <= n,
    ensures
        rotated(rotated(s, start, n, offset), start, n, n - offset) == s,
{
    assert(rotated(rotated(s, start, n, offset), start, n, n - offset) =~= s);
}

/// Shift the value at index `pos` of the backing vector `s` to be `n`
/// elements to the left: the element is taken out of its slot, the `n`
/// elements in between move one slot over as a block, and the element is
/// written into its new slot exactly once, never duplicated or dropped twice.
/// Cost: `O(n)` writes.
pub fn insert_left<T>(s: &mut Vec<T>, pos: usize, n: usize)
    requires
        pos < old(s).len(),
        n <= pos,
    ensures
        final(s)@ == inserted_left(old(s)@, pos as int, n as int),
{
    let ghost s0 = s@;
    if n != 0 {
        let x = s.remove(pos);
        s.insert(pos - n, x);
    }
    proof {
        assert(s@ =~= inserted_left(s0, pos as int, n as int));
    }
}

/// Shift the value at index `pos` of the backing vector `s` to be `n`
/// elements to the right: the element is taken out of its slot, the `n`
/// elements in between move one slot over as a block, and the element is
/// written into its new slot exactly once, never duplicated or dropped twice.
/// Cost: `O(n)` writes.
pub fn insert_right<T>(s: &mut Vec<T>, pos: usize, n: usize)
    requires
        pos + n < old(s).len(),
    ensures
        final(s)@ == inserted_right(old(s)@, pos as int, n as int),
{
    let ghost s0 = s@;
    if n != 0 {
        let x = s.remove(pos);
        s.insert(pos + n, x);
    }
    proof {
        assert(s@ =~= inserted_right(s0, pos as int, n as int));
    }
}

/// Shifting an element `n` slots to the left and then `n` slots back to the
/// right restores the original order and element identity.
pub proof fn lemma_insert_round_trip<T>(s: Seq<T>, pos: int, n: int)
    requires
        0 <= n <= pos < s.len(),
    ensures
        inserted_right(inserted_left(s, pos, n), pos - n, n) == s,
{
    assert(inserted_right(inserted_left(s, pos, n), pos - n, n) =~= s);
}

/// Perform either a swap or a copy to move the view `(src, len)` of the
/// backing vector `s` to start at index `dst`, and return the new view as a
/// start index and length.
///
/// Both modes exchange the two ranges, which must be disjoint. In copy mode
/// (`S == false`) the destination's previous contents are treated as
/// disposable: ownership of the source elements transfers to the destination
/// in one pass, and the disposable occupants end up in the source slots
/// rather than being duplicated or dropped. Cost: `O(len)` writes.
pub fn move_slice<T, const S: bool>(s: &mut Vec<T>, dst: usize, src: usize, len: usize) -> (r: (
    usize,
    usize,
))
    requires
        src + len <= old(s).len(),
        dst + len <= old(s).len(),
        src + len <= dst || dst + len <= src,
    ensures
        final(s)@ == exchanged(old(s)@, src as int, dst as int, len as int),
        r == (dst, len),
{
    write::<T, S>(s, src, dst, len);
    (dst, len)
}

/// Perform either a swap (`S == true`) or a copy (`S == false`) between the
/// `count` elements at `src` and the `count` elements at `dst` of the backing
/// vector `s`. The ranges must be disjoint. In this memory-safe form both
/// modes exchange the ranges element-wise; copy mode differs only in intent,
/// in that the destination's previous occupants are disposable.
pub fn write<T, const S: bool>(s: &mut Vec<T>, src: usize, dst: usize, count: usize)
    requires
        src + count <= old(s).len(),
        dst + count <= old(s).len(),
        src + count <= dst || dst + count <= src,
    ensures
        final(s)@ == exchanged(old(s)@, src as int, dst as int, count as int),
{
    let ghost s0 = s@;
    let mut k: usize = 0;
    proof {
        assert(s@ =~= exchanged(s0, src as int, dst as int, 0));
    }
    while k < count
        invariant
            k <= count,
            src + count <= s.len(),
            dst + count <= s.len(),
            src + count <= dst || dst + count <= src,
            s0.len() == s@.len(),
            s@ == exchanged(s0, src as int, dst as int, k as int),
        decreases count - k,
    {
        swap_at(s, src + k, dst + k);
        proof {
            assert(s@ =~= exchanged(s0, src as int, dst as int, k + 1));
        }
        k = k + 1;
    }
}

/// Exchanging the same two disjoint ranges twice restores the sequence: the
/// swap mode of [`move_slice`] is an involution. After a single pass the
/// destination holds exactly the original source elements, which is all that
/// copy mode promises of it.
pub proof fn lemma_exchange_involution<T>(s: Seq<T>, src: int, dst: int, count: int)
    requires
        0 <= src,
        0 <= dst,
        0 <= count,
        src + count <= s.len(),
        dst + count <= s.len(),
        src + count <= dst || dst + count <= src,
    ensures
        exchanged(exchanged(s, src, dst, count), src, dst, count) == s,
        forall|i: int|
            0 <= i < count ==> exchanged(s, src, dst, count)[dst + i] == #[trigger] s[src + i],
{
    assert(exchanged(exchanged(s, src, dst, count), src, dst, count) =~= s);
}

/// Stores the result of searching for an element: whether a comparatively
/// equal element was found, and the index searched to.
#[derive(Clone, Copy, Debug, PartialEq, Eq, Structural)]
pub struct Found(pub bool, pub usize);

impl Found {
    /// Add `rhs` to the index property.
    pub fn add(self, rhs: usize) -> (r: Found)
        requires
            self.1 + rhs <= usize::MAX,
        ensures
            r.0 == self.0,
            r.1 == self.1 + rhs,
    {
        Found(self.0, self.1 + rhs)
    }
}

/// Return the first `i` in `0..n` such that `s[i]` is not below `val`, or `n`
/// if not found, along with a flag that identifies whether a comparatively
/// equal element stands at that index.
///
/// Cost: `O(log n)` comparisons.
pub fn search_unique<T, F: Fn(&T, &T) -> bool>(s: &Vec<T>, n: usize, val: &T, less: &F) -> (r:
    Found)
    requires
        n <= s.len(),
        valid_comparator(*less),
        forall|lt: spec_fn(T, T) -> bool|
            #[trigger] consistent_with(*less, lt) && strict_weak(lt) ==> partitioned_by(
                lt,
                s@,
                n as int,
                *val,
            ),
    ensures
        r.1 <= n,
        forall|lt: spec_fn(T, T) -> bool|
            #[trigger] consistent_with(*less, lt) && strict_weak(lt) ==> {
                &&& search::insertion_point(lt, s@, n, *val, r.1)
                &&& (r.0 <==> (r.1 < n && !lt(*val, s@[r.1 as int])))
            },
{
    let i = search::binary(s, n, val, less);
    if i < n {
        let b = (*less)(val, &s[i]);
        proof {
            assert forall|lt: spec_fn(T, T) -> bool|
                #[trigger] consistent_with(*less, lt) && strict_weak(lt) implies (!b <==> (i < n
                && !lt(*val, s@[i as int]))) by {
                assert(call_ensures(*less, (&*val, &s@[i as int]), b));
            }
        }
        Found(!b, i)
    } else {
        Found(false, i)
    }
}

/// A comparatively equal element stands at position `j`: `s[j]` is neither
/// below nor above `val` under `lt`.
pub open spec fn matches_at<T>(lt: spec_fn(T, T) -> bool, s: Seq<T>, val: T, j: int) -> bool {
    !lt(s[j], val) && !lt(val, s[j])
}

/// What the flag and index of [`search_unique`] mean on a sorted prefix,
/// under any strict weak ordering the comparator is consistent with: the
/// flag is set if and only if some element among the first `n` matches
/// `val`; when it is set the index is the leftmost match, and when nothing
/// matches the index is the insertion point for `val`.
pub proof fn lemma_search_unique_classification<T>(
    lt: spec_fn(T, T) -> bool,
    s: Seq<T>,
    n: usize,
    val: T,
    found: bool,
    idx: usize,
)
    requires
        strict_weak(lt),
        n <= s.len(),
        sorted_by(lt, s.subrange(0, n as int)),
        search::insertion_point(lt, s, n, val, idx),
        found <==> (idx < n && !lt(val, s[idx as int])),
    ensures
        found <==> exists|j: int| 0 <= j < n && matches_at(lt, s, val, j),
        found ==> matches_at(lt, s, val, idx as int),
        found ==> forall|j: int| 0 <= j < idx ==> !matches_at(lt, s, val, j),
{
    if found {
        assert(!lt(s[idx as int], val));
        assert(matches_at(lt, s, val, idx as int));
        assert forall|j: int| 0 <= j < idx implies !matches_at(lt, s, val, j) by {
            assert(lt(s[j], val));
        }
    }
    if exists|j: int| 0 <= j < n && matches_at(lt, s, val, j) {
        let j = choose|j: int| 0 <= j < n && matches_at(lt, s, val, j);
        assert(!lt(s[j], val));
        assert(idx <= j);
        assert(idx < n);
        if lt(val, s[idx as int]) {
            if idx < j {
                assert(s.subrange(0, n as int)[idx as int] == s[idx as int]);
                assert(s.subrange(0, n as int)[j] == s[j]);
                assert(!lt(s[j], s[idx as int]));
                assert(lt(val, s[j]));
            }
            assert(false);
        }
        assert(found);
    }
}

/// Return the ceiling of the binary logarithm of `x`.
pub fn log2_ceil(x: usize) -> (r: usize)
    requires
        x >= 1,
    ensures
        vstd::arithmetic::power2::pow2(r as nat) >= x,
        r > 0 ==> vstd::arithmetic::power2::pow2((r - 1) as nat) < x,
{
    proof {
        vstd::arithmetic::power2::lemma2_to64();
    }
    let mut r: usize = 0;
    let mut p: u128 = 1;
    while p < x as u128
        invariant
            r <= 64,
            p >= 1,
            p == vstd::arithmetic::power2::pow2(r as nat),
            r > 0 ==> vstd::arithmetic::power2::pow2((r - 1) as nat) < x,
        decreases 2 * x as int - p,
    {
        proof {
            vstd::arithmetic::power2::lemma2_to64();
            if r >= 64 {
                assert(vstd::arithmetic::power2::pow2(64) == 0x10000000000000000);
                assert(p >= 0x10000000000000000 > usize::MAX >= x);
            }
            assert(vstd::arithmetic::power2::pow2((r + 1) as nat) == 2 * vstd::arithmetic::power2::pow2(r as nat)) by {
                vstd::arithmetic::power2::lemma_pow2_unfold((r + 1) as nat);
            }
        }
        p = 2 * p;
        r = r + 1;
    }
    r
}

} // verus!
