//! A sample sort kernel built from the crate's own primitives: it moves the
//! input into the auxiliary buffer, then writes each element back into its
//! comparator-sorted position found by bisection. It needs one buffer slot
//! per element, so all three of its budget policies coincide; with a smaller
//! buffer it fails without touching the input, making the whole operation
//! all-or-nothing.

use crate::buffer::AuxiliaryBuffer;
use crate::op::search;
use crate::order::{
    consistent_with, lemma_sorted_implies_partitioned, partitioned_by, sorted_by, strict_weak,
    valid_comparator,
};
use crate::template::SortKernel;
use crate::Sorted;
use vstd::prelude::*;

verus! {

/// A kernel that copies the input into the auxiliary buffer and writes back
/// a comparator-sorted order by bisection insertion.
pub struct CopyKernel;

/// Inserting an element into a sequence adds it to the sequence's multiset.
proof fn lemma_insert_to_multiset<T>(s: Seq<T>, r: int, x: T)
    requires
        0 <= r <= s.len(),
    ensures
        s.insert(r, x).to_multiset() == s.to_multiset().insert(x),
{
    broadcast use vstd::seq_lib::group_to_multiset_ensures;

    let s2 = s.insert(r, x);
    s.insert_ensures(r, x);
    assert(s2.remove(r) =~= s);
    assert(s2[r] == x);
    assert(s2.contains(x));
    assert(s2.remove(r).to_multiset() =~= s2.to_multiset().remove(x));
    assert(s2.to_multiset().count(x) > 0);
    assert(s2.to_multiset().remove(x).insert(x) =~= s2.to_multiset());
    assert(s.to_multiset().insert(x) =~= s2.to_multiset());
}

/// Inserting an element at its insertion point keeps a sequence sorted.
proof fn lemma_insert_sorted<T>(lt: spec_fn(T, T) -> bool, s: Seq<T>, x: T, r: usize)
    requires
        strict_weak(lt),
        sorted_by(lt, s),
        r <= s.len(),
        forall|i: int| 0 <= i < s.len() ==> (lt(#[trigger] s[i], x) <==> i < r),
    ensures
        sorted_by(lt, s.insert(r as int, x)),
{
    let s2 = s.insert(r as int, x);
    s.insert_ensures(r as int, x);
    assert forall|i: int, j: int| 0 <= i < j < s2.len() implies !lt(s2[j], s2[i]) by {
        if j < r {
            assert(s2[i] == s[i] && s2[j] == s[j]);
        } else if i > r {
            assert(s2[i] == s[i - 1] && s2[j] == s[j - 1]);
        } else if i < r && j == r {
            assert(s2[i] == s[i] && s2[j] == x);
            assert(lt(s[i], x));
        } else if i == r && j > r {
            assert(s2[i] == x && s2[j] == s[j - 1]);
            assert(!lt(s[j - 1], x));
        } else if i < r && j > r {
            assert(s2[i] == s[i] && s2[j] == s[j - 1]);
            assert(i < j - 1);
        }
    }
}

impl<T> SortKernel<T> for CopyKernel {
    open spec fn required_capacity(len: nat) -> nat {
        len
    }

    fn default_budget(len: usize) -> (r: usize) {
        len
    }

    fn min_budget(len: usize) -> (r: usize) {
        len
    }

    fn max_budget(len: usize) -> (r: usize) {
        len
    }

    fn run<F: Fn(&T, &T) -> bool>(v: &mut Vec<T>, aux: &mut AuxiliaryBuffer<T>, less: &F) -> (r:
        Sorted) {
        let n = v.len();
        if aux.capacity() < n {
            return Sorted::Fail;
        }
        let ghost v0 = v@;
        let ghost bk = aux.backing();
        let ghost rg = aux.region();
        let ghost auxlen = aux@.len();
        while v.len() > 0
            invariant
                v@.len() <= n,
                n == v0.len(),
                aux@.len() == auxlen,
                auxlen >= n,
                aux.backing() == bk,
                aux.region() == rg,
                v@ == v0.subrange(0, v@.len() as int),
                forall|i: int| v@.len() <= i < n ==> aux@[i] == Some(v0[i]),
            decreases v.len(),
        {
            let ghost prev = v@;
            let x = v.pop().unwrap();
            aux.write(v.len(), x);
            proof {
                assert(v@ =~= v0.subrange(0, v@.len() as int));
            }
        }
        let mut k: usize = 0;
        while k < n
            invariant
                k <= n,
                n == v0.len(),
                v@.len() == k,
                aux@.len() == auxlen,
                auxlen >= n,
                aux.backing() == bk,
                aux.region() == rg,
                valid_comparator(*less),
                forall|i: int| k <= i < n ==> aux@[i] == Some(v0[i]),
                v@.to_multiset() == v0.subrange(0, k as int).to_multiset(),
                forall|lt: spec_fn(T, T) -> bool|
                    #[trigger] consistent_with(*less, lt) && strict_weak(lt) ==> sorted_by(lt, v@),
            decreases n - k,
        {
            let x = aux.take(k);
            proof {
                assert(Some(x) == Some(v0[k as int]));
            }
            let len = v.len();
            proof {
                assert forall|lt: spec_fn(T, T) -> bool|
                    #[trigger] consistent_with(*less, lt) && strict_weak(lt) implies partitioned_by(
                    lt,
                    v@,
                    len as int,
                    x,
                ) by {
                    assert(v@.subrange(0, len as int) =~= v@);
                    lemma_sorted_implies_partitioned(lt, v@, len as int, x);
                }
            }
            let r = search::binary(v, len, &x, less);
            let ghost prev = v@;
            v.insert(r, x);
            proof {
                broadcast use vstd::seq_lib::group_to_multiset_ensures;

                assert(v@ == prev.insert(r as int, x));
                lemma_insert_to_multiset(prev, r as int, x);
                assert(v0.subrange(0, k + 1) =~= v0.subrange(0, k as int).push(v0[k as int]));
                assert(v@.to_multiset() =~= v0.subrange(0, k + 1).to_multiset());
                assert forall|lt: spec_fn(T, T) -> bool|
                    #[trigger] consistent_with(*less, lt) && strict_weak(lt) implies sorted_by(
                    lt,
                    v@,
                ) by {
                    assert(search::insertion_point(lt, prev, len, x, r));
                    lemma_insert_sorted(lt, prev, x, r);
                }
            }
            k = k + 1;
        }
        proof {
            assert(v0.subrange(0, n as int) =~= v0);
        }
        Sorted::Done
    }
}

} // verus!
