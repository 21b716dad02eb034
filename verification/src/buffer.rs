//! A capacity-resizable auxiliary buffer for sort kernels to use as scratch
//! storage, behind one uniform "mutable view of capacity elements" interface
//! regardless of the storage strategy backing it.
//!
//! The buffer tracks only its capacity, never a filled length: callers own
//! that bookkeeping. Each slot is either written or unwritten, and a slot of
//! an initially unwritten backing must never be read before it is written.

use vstd::prelude::*;

verus! {

/// The storage strategy an auxiliary buffer wraps.
#[derive(Clone, Copy, Debug, PartialEq, Eq, Structural)]
pub enum Backing {
    /// An owned, growable allocation: the only backing that supports resizing
    /// to any capacity.
    Owned,
    /// A fixed region handed in by the caller with every slot already
    /// holding an element.
    BorrowedInit,
    /// A fixed region handed in by the caller whose slots start out
    /// unwritten: they may be written freely but must not be read before
    /// being written.
    BorrowedUninit,
}

/// What a buffer's slots hold after its capacity changes to `n`: the existing
/// slots up to the smaller of the old and new capacity are preserved, and any
/// slots beyond the old capacity start out unwritten.
pub open spec fn resized<T>(s: Seq<Option<T>>, n: int) -> Seq<Option<T>> {
    if n <= s.len() {
        s.subrange(0, n)
    } else {
        s + Seq::new((n - s.len()) as nat, |i: int| None)
    }
}

/// Growing a buffer and then shrinking it back to its original capacity
/// leaves both the capacity and every slot as they originally were.
pub proof fn lemma_resize_round_trip<T>(s: Seq<Option<T>>, n: int)
    requires
        n >= s.len(),
    ensures
        resized(resized(s, n), s.len() as int) == s,
        resized(s, n).len() == n,
{
    assert(resized(resized(s, n), s.len() as int) =~= s);
}

/// Scratch storage exposing exactly `capacity()` elements as a mutable view.
/// The view (`self@`) is the sequence of slots, each `Some` element written
/// and not yet taken out, or `None` for an unwritten slot.
pub struct AuxiliaryBuffer<T> {
    data: Vec<Option<T>>,
    backing: Backing,
    region: usize,
}

impl<T> View for AuxiliaryBuffer<T> {
    type V = Seq<Option<T>>;

    closed spec fn view(&self) -> Seq<Option<T>> {
        self.data@
    }
}

impl<T> AuxiliaryBuffer<T> {
    /// The storage strategy backing this buffer.
    pub closed spec fn backing(&self) -> Backing {
        self.backing
    }

    /// For a borrowed backing, the size of the fixed region the caller
    /// provided; resizes never exceed it.
    pub closed spec fn region(&self) -> usize {
        self.region
    }

    /// The buffer never exposes more capacity than its backing allocation: a
    /// borrowed backing caps the capacity at the caller-provided region.
    pub open spec fn wf(&self) -> bool {
        self.backing() != Backing::Owned ==> self@.len() <= self.region()
    }

    /// The number of elements the buffer exposes.
    pub fn capacity(&self) -> (r: usize)
        ensures
            r == self@.len(),
    {
        self.data.len()
    }

    /// Read the element in slot `i`, which must have been written and not
    /// taken out since.
    pub fn read(&self, i: usize) -> (r: &T)
        requires
            i < self@.len(),
            self@[i as int] is Some,
        ensures
            self@[i as int] == Some(*r),
    {
        self.data[i].as_ref().unwrap()
    }

    /// Write `v` into slot `i`, disposing of whatever the slot held.
    pub fn write(&mut self, i: usize, v: T)
        requires
            i < old(self)@.len(),
        ensures
            final(self)@ == old(self)@.update(i as int, Some(v)),
            final(self).backing() == old(self).backing(),
            final(self).region() == old(self).region(),
    {
        self.data.remove(i);
        self.data.insert(i, Some(v));
    }

    /// Move the element out of slot `i`, which must have been written and not
    /// taken out since; the slot reverts to unwritten.
    pub fn take(&mut self, i: usize) -> (r: T)
        requires
            i < old(self)@.len(),
            old(self)@[i as int] is Some,
        ensures
            old(self)@[i as int] == Some(r),
            final(self)@ == old(self)@.update(i as int, None),
            final(self).backing() == old(self).backing(),
            final(self).region() == old(self).region(),
    {
        let x = self.data.remove(i);
        self.data.insert(i, None);
        x.unwrap()
    }

    /// Change the exposed capacity to `new_capacity` and report whether the
    /// request was applied. Growing preserves the existing slots and adds
    /// unwritten ones; shrinking releases the slots beyond the new capacity.
    /// Only the owned backing supports every capacity: a borrowed backing
    /// rejects, as a no-op, any request beyond its fixed region, and so never
    /// silently exceeds what the caller provided.
    pub fn resize(&mut self, new_capacity: usize) -> (applied: bool)
        ensures
            applied <==> (old(self).backing() == Backing::Owned || new_capacity <= old(
                self,
            ).region()),
            applied ==> final(self)@ == resized(old(self)@, new_capacity as int),
            !applied ==> final(self)@ == old(self)@,
            final(self).backing() == old(self).backing(),
            final(self).region() == old(self).region(),
            old(self).wf() ==> final(self).wf(),
    {
        let allowed = match self.backing {
            Backing::Owned => true,
            _ => new_capacity <= self.region,
        };
        if allowed {
            let ghost s0 = self.data@;
            if new_capacity <= self.data.len() {
                self.data.truncate(new_capacity);
                proof {
                    assert(self.data@ =~= resized(s0, new_capacity as int));
                }
            } else {
                while self.data.len() < new_capacity
                    invariant
                        self.data@.len() >= s0.len(),
                        self.data@.len() <= new_capacity,
                        self.data@ == resized(s0, self.data@.len() as int),
                        self.backing == old(self).backing,
                        self.region == old(self).region,
                    decreases new_capacity - self.data.len(),
                {
                    let ghost cur = self.data@;
                    self.data.push(None);
                    proof {
                        assert(self.data@ =~= resized(s0, cur.len() as int + 1));
                    }
                }
            }
        }
        allowed
    }
}

/// Return an owned, growable buffer of capacity `len`, all slots unwritten.
pub fn create<T>(len: usize) -> (b: AuxiliaryBuffer<T>)
    ensures
        b@.len() == len,
        forall|i: int| 0 <= i < len ==> b@[i] is None,
        b.backing() == Backing::Owned,
        b.wf(),
{
    AuxiliaryBuffer { data: none_slots(len), backing: Backing::Owned, region: 0 }
}

/// Wrap a caller-provided region whose slots already hold elements: a
/// borrowed, initialized backing of fixed size.
pub fn from_region<T>(mut v: Vec<T>) -> (b: AuxiliaryBuffer<T>)
    ensures
        b@.len() == v@.len(),
        forall|i: int| 0 <= i < v@.len() ==> b@[i] == Some(v@[i]),
        b.backing() == Backing::BorrowedInit,
        b.region() == v@.len(),
        b.wf(),
{
    let region = v.len();
    let mut data: Vec<Option<T>> = Vec::new();
    let ghost v0 = v@;
    while v.len() > 0
        invariant
            data@.len() + v@.len() == v0.len(),
            v@ == v0.subrange(data@.len() as int, v0.len() as int),
            forall|i: int| 0 <= i < data@.len() ==> data@[i] == Some(v0[i]),
        decreases v.len(),
    {
        let x = v.remove(0);
        proof {
            assert(x == v0[data@.len() as int]);
            assert(v@ =~= v0.subrange(data@.len() as int + 1, v0.len() as int));
        }
        data.push(Some(x));
    }
    AuxiliaryBuffer { data, backing: Backing::BorrowedInit, region }
}

/// Wrap a caller-provided region whose slots start out unwritten: a borrowed,
/// uninitialized backing of fixed size `len`. Slots may be written without
/// disposing of meaningful prior contents, and must be written before they
/// are read.
pub fn uninit_region<T>(len: usize) -> (b: AuxiliaryBuffer<T>)
    ensures
        b@.len() == len,
        forall|i: int| 0 <= i < len ==> b@[i] is None,
        b.backing() == Backing::BorrowedUninit,
        b.region() == len,
        b.wf(),
{
    AuxiliaryBuffer { data: none_slots(len), backing: Backing::BorrowedUninit, region: len }
}

/// Return `len` unwritten slots.
fn none_slots<T>(len: usize) -> (data: Vec<Option<T>>)
    ensures
        data@.len() == len,
        forall|i: int| 0 <= i < len ==> data@[i] is None,
{
    let mut data: Vec<Option<T>> = Vec::new();
    while data.len() < len
        invariant
            data@.len() <= len,
            forall|i: int| 0 <= i < data@.len() ==> data@[i] is None,
        decreases len - data.len(),
    {
        data.push(None);
    }
    data
}

/// A utility trait to allow various data structures to be used as an
/// external buffer.
pub trait AsSliceMut<T>: Sized {
    /// The value is in a state fit to become a buffer.
    spec fn buffer_ready(&self) -> bool;

    /// The capacity the buffer made from this value will expose.
    spec fn buffer_len(&self) -> nat;

    /// Expose `self` as the uniform mutable view of an auxiliary buffer.
    fn as_slice_mut(self) -> (b: AuxiliaryBuffer<T>)
        requires
            self.buffer_ready(),
        ensures
            b.wf(),
            b@.len() == self.buffer_len(),
    ;
}

impl<T> AsSliceMut<T> for AuxiliaryBuffer<T> {
    open spec fn buffer_ready(&self) -> bool {
        self.wf()
    }

    open spec fn buffer_len(&self) -> nat {
        self@.len()
    }

    /// An auxiliary buffer is its own view.
    fn as_slice_mut(self) -> (b: AuxiliaryBuffer<T>) {
        self
    }
}

impl<T> AsSliceMut<T> for Vec<T> {
    open spec fn buffer_ready(&self) -> bool {
        true
    }

    open spec fn buffer_len(&self) -> nat {
        self@.len()
    }

    /// A vector of elements acts as a borrowed, initialized region of its own
    /// length.
    fn as_slice_mut(self) -> (b: AuxiliaryBuffer<T>) {
        from_region(self)
    }
}

} // verus!
