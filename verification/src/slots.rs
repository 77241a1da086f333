//! The slots of the ring, with the two indices that say which of them are taken.

use vstd::prelude::*;

use crate::cache_aligned::CacheAligned;
use crate::state::{distance, slot_after};

verus! {

/// Calls `Vec::get_mut` (the method of slices): for an index in range the result is a reference
/// to that element, through which that element and no other can change; for any other index it
/// is `None`, and the vector stays as it was. The method does not unwind and opens no invariant.
#[verifier::external_body]
fn slot_mut<T>(data: &mut Vec<Option<T>>, index: usize) -> (slot: Option<&mut Option<T>>)
    ensures
        index < old(data)@.len() ==> {
            &&& slot is Some
            &&& *slot->Some_0 == old(data)@[index as int]
            &&& final(data)@ == old(data)@.update(index as int, *final(slot->Some_0))
        },
        index >= old(data)@.len() ==> slot is None && final(data)@ == old(data)@,
    opens_invariants none
    no_unwind
{
    data.get_mut(index)
}

/// The step from a slot to the next, as the code computes it, is the one of the model.
proof fn lemma_next_is_slot_after(idx: int, capacity: int)
    requires
        0 <= idx < capacity,
    ensures
        (idx + 1) % capacity == slot_after(idx, 1, capacity),
{
    if idx + 1 < capacity {
        vstd::arithmetic::div_mod::lemma_small_mod((idx + 1) as nat, capacity as nat);
    } else {
        vstd::arithmetic::div_mod::lemma_mod_self_0(capacity);
    }
}

/// A ring of slots. The slots from the read index up to the write index, wrapping around at the
/// end, hold a value each; all others hold none.
pub struct Slots<T> {
    data: Vec<Option<T>>,
    read_idx: CacheAligned<usize>,
    write_idx: CacheAligned<usize>,
    capacity: usize,
}

impl<T> Slots<T> {
    pub closed spec fn capacity(&self) -> int {
        self.capacity as int
    }

    pub closed spec fn read_idx(&self) -> int {
        self.read_idx.0 as int
    }

    pub closed spec fn write_idx(&self) -> int {
        self.write_idx.0 as int
    }

    /// The number of values that are held.
    pub open spec fn len(&self) -> int {
        distance(self.read_idx(), self.write_idx(), self.capacity())
    }

    /// The values that are held, in the order in which they were put in.
    pub closed spec fn items(&self) -> Seq<T> {
        Seq::new(
            self.len() as nat,
            |k: int| self.data@[slot_after(self.read_idx(), k, self.capacity())]->Some_0,
        )
    }

    pub closed spec fn wf(&self) -> bool {
        &&& self.capacity() > 1
        &&& self.data@.len() == self.capacity()
        &&& self.read_idx() < self.capacity()
        &&& self.write_idx() < self.capacity()
        &&& forall|i: int|
            0 <= i < self.capacity() ==> ((#[trigger] self.data@[i]) is Some <==> distance(
                self.read_idx(),
                i,
                self.capacity(),
            ) < self.len())
    }

    /// The bounds that follow from well-formedness.
    pub proof fn lemma_bounds(&self)
        requires
            self.wf(),
        ensures
            1 < self.capacity() <= usize::MAX,
            0 <= self.read_idx() < self.capacity(),
            0 <= self.write_idx() < self.capacity(),
            self.items().len() == self.len(),
    {
    }

    /// `capacity` slots, none of which holds a value.
    pub fn new(capacity: usize) -> (slots: Self)
        requires
            capacity > 1,
        ensures
            slots.wf(),
            slots.capacity() == capacity,
            slots.read_idx() == 0,
            slots.write_idx() == 0,
            slots.items() == Seq::<T>::empty(),
    {
        let mut data: Vec<Option<T>> = Vec::with_capacity(capacity);
        while data.len() < capacity
            invariant
                data@.len() <= capacity,
                forall|i: int| 0 <= i < data@.len() ==> (#[trigger] data@[i]) is None,
            decreases capacity - data@.len(),
        {
            data.push(None);
        }
        Slots { data, read_idx: CacheAligned::from(0), write_idx: CacheAligned::from(0), capacity }
    }

    /// The slot from which the next value is taken.
    pub fn read(&self) -> (idx: usize)
        ensures
            idx == self.read_idx(),
        opens_invariants none
        no_unwind
    {
        self.read_idx.0
    }

    /// The slot into which the next value is put.
    pub fn write(&self) -> (idx: usize)
        ensures
            idx == self.write_idx(),
        opens_invariants none
        no_unwind
    {
        self.write_idx.0
    }

    /// The slot after `idx`. After the last slot comes the first.
    pub fn next(&self, idx: usize) -> (next: usize)
        requires
            self.wf(),
            idx < self.capacity(),
        ensures
            next == slot_after(idx as int, 1, self.capacity()),
            next < self.capacity(),
        opens_invariants none
        no_unwind
    {
        proof {
            lemma_next_is_slot_after(idx as int, self.capacity as int);
        }
        (idx + 1) % self.capacity
    }

    /// Puts `value` into the slot at the write index and advances the write index.
    pub fn put(&mut self, value: T)
        requires
            old(self).wf(),
            old(self).len() + 1 < old(self).capacity(),
        ensures
            final(self).wf(),
            final(self).capacity() == old(self).capacity(),
            final(self).read_idx() == old(self).read_idx(),
            final(self).write_idx() == slot_after(old(self).write_idx(), 1, old(self).capacity()),
            final(self).items() == old(self).items().push(value),
        opens_invariants none
        no_unwind
    {
        let write_idx: usize = self.write_idx.0;
        let next_write_idx: usize = self.next(write_idx);
        let mut held: Option<T> = Some(value);
        if let Some(slot) = slot_mut(&mut self.data, write_idx) {
            std::mem::swap(slot, &mut held);
        }
        self.write_idx.0 = next_write_idx;
        assert(self.items() =~= old(self).items().push(value));
    }

    /// Takes the value out of the slot at the read index and advances the read index.
    pub fn take(&mut self) -> (value: Option<T>)
        requires
            old(self).wf(),
            old(self).len() > 0,
        ensures
            final(self).wf(),
            final(self).capacity() == old(self).capacity(),
            final(self).read_idx() == slot_after(old(self).read_idx(), 1, old(self).capacity()),
            final(self).write_idx() == old(self).write_idx(),
            value == Some(old(self).items()[0]),
            final(self).items() == old(self).items().skip(1),
        opens_invariants none
        no_unwind
    {
        let read_idx: usize = self.read_idx.0;
        let next_read_idx: usize = self.next(read_idx);
        let mut value: Option<T> = None;
        if let Some(slot) = slot_mut(&mut self.data, read_idx) {
            std::mem::swap(slot, &mut value);
        }
        self.read_idx.0 = next_read_idx;
        assert(self.items() =~= old(self).items().skip(1));
        value
    }
}

} // verus!
