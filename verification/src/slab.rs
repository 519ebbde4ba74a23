//! Fixed-capacity slab with stable dense integer keys.
//!
//! Listeners and sessions are stored in slabs and referred to by their
//! index, which doubles as the readiness token registered with the
//! multiplexor.  A slot that is handed out stays bound to its entry until
//! that entry is removed: no other insertion may claim it, so a token
//! never silently changes owner.

use vstd::prelude::*;

verus! {

/// Array-backed allocator; a slot is free when it holds `None`.
pub struct Slab<T> {
    entries: Vec<Option<T>>,
    capacity: usize,
}

impl<T> View for Slab<T> {
    type V = Seq<Option<T>>;

    closed spec fn view(&self) -> Seq<Option<T>> {
        self.entries@
    }
}

impl<T> Slab<T> {
    /// Upper bound on the number of slots; the slab never grows past it.
    pub closed spec fn spec_capacity(&self) -> nat {
        self.capacity as nat
    }

    pub open spec fn wf(&self) -> bool {
        self@.len() <= self.spec_capacity()
    }

    /// Slot `i` currently holds an entry.
    pub open spec fn occupied(&self, i: int) -> bool {
        0 <= i < self@.len() && self@[i] is Some
    }

    /// Slot `i` may receive a new entry: either an inner free slot or the
    /// next unused position below the capacity.
    pub open spec fn free_at(&self, i: int) -> bool {
        (0 <= i < self@.len() && self@[i] is None) || (i == self@.len()
            && self@.len() < self.spec_capacity())
    }

    pub fn new(capacity: usize) -> (r: Slab<T>)
        ensures
            r@ == Seq::<Option<T>>::empty(),
            r.spec_capacity() == capacity,
            r.wf(),
    {
        Slab { entries: Vec::new(), capacity }
    }

    pub fn capacity(&self) -> (r: usize)
        ensures
            r == self.spec_capacity(),
    {
        self.capacity
    }

    pub fn contains(&self, i: usize) -> (r: bool)
        ensures
            r == self.occupied(i as int),
    {
        i < self.entries.len() && self.entries[i].is_some()
    }

    /// The slot the next insertion will use: the lowest free one.  `None`
    /// only when every slot up to the capacity is occupied.
    pub fn peek_free(&self) -> (r: Option<usize>)
        requires
            self.wf(),
        ensures
            match r {
                Some(i) => self.free_at(i as int) && forall|j: int|
                    0 <= j < i ==> self@[j] is Some,
                None => self@.len() == self.spec_capacity() && forall|j: int|
                    0 <= j < self@.len() ==> self@[j] is Some,
            },
    {
        let mut i: usize = 0;
        while i < self.entries.len()
            invariant
                i <= self.entries@.len(),
                forall|j: int| 0 <= j < i ==> self.entries@[j] is Some,
            decreases self.entries@.len() - i,
        {
            if self.entries[i].is_none() {
                return Some(i);
            }
            i = i + 1;
        }
        if self.entries.len() < self.capacity {
            Some(self.entries.len())
        } else {
            None
        }
    }

    /// Store an entry in a free slot.  The slot was not bound to any
    /// entry before, so no live token is ever reassigned.
    pub fn insert_at(&mut self, i: usize, value: T)
        requires
            old(self).wf(),
            old(self).free_at(i as int),
        ensures
            final(self)@ == if i < old(self)@.len() {
                old(self)@.update(i as int, Some(value))
            } else {
                old(self)@.push(Some(value))
            },
            final(self).wf(),
            final(self).spec_capacity() == old(self).spec_capacity(),
    {
        if i < self.entries.len() {
            let slot = vstd::std_specs::vec::vec_index_mut(&mut self.entries, i);
            *slot = Some(value);
        } else {
            self.entries.push(Some(value));
        }
    }

    pub fn get(&self, i: usize) -> (r: Option<&T>)
        ensures
            match r {
                Some(v) => self.occupied(i as int) && *v == self@[i as int]->0,
                None => !self.occupied(i as int),
            },
    {
        if i < self.entries.len() {
            self.entries[i].as_ref()
        } else {
            None
        }
    }

    /// Move the entry of slot `i` out, leaving the slot free.
    pub fn take_at(&mut self, i: usize) -> (t: T)
        requires
            old(self).wf(),
            old(self).occupied(i as int),
        ensures
            t == old(self)@[i as int]->0,
            final(self)@ == old(self)@.update(i as int, None),
            final(self).wf(),
            final(self).spec_capacity() == old(self).spec_capacity(),
    {
        let slot = vstd::std_specs::vec::vec_index_mut(&mut self.entries, i);
        let t = slot.take();
        t.unwrap()
    }

    /// Put an entry back into the slot it was taken from.
    pub fn set_at(&mut self, i: usize, value: T)
        requires
            old(self).wf(),
            0 <= i < old(self)@.len(),
            old(self)@[i as int] is None,
        ensures
            final(self)@ == old(self)@.update(i as int, Some(value)),
            final(self).wf(),
            final(self).spec_capacity() == old(self).spec_capacity(),
    {
        let slot = vstd::std_specs::vec::vec_index_mut(&mut self.entries, i);
        *slot = Some(value);
    }

    /// Free slot `i`.  Only removal releases a token: every other
    /// operation leaves existing entries in place.
    pub fn remove(&mut self, i: usize) -> (r: Option<T>)
        requires
            old(self).wf(),
        ensures
            old(self).occupied(i as int) ==> r == Some(old(self)@[i as int]->0)
                && final(self)@ == old(self)@.update(i as int, None),
            !old(self).occupied(i as int) ==> r is None && final(self)@ == old(self)@,
            final(self).wf(),
            final(self).spec_capacity() == old(self).spec_capacity(),
    {
        if i < self.entries.len() {
            let slot = vstd::std_specs::vec::vec_index_mut(&mut self.entries, i);
            let t = slot.take();
            proof {
                if !old(self).occupied(i as int) {
                    assert(self@ =~= old(self)@);
                }
            }
            t
        } else {
            None
        }
    }
}

} // verus!
