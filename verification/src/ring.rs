//! The bounded queue itself: the decisions of both sides, each made with a cached position of
//! the other side where that one suffices.

use vstd::prelude::*;

use crate::cache_aligned::CacheAligned;
use crate::slots::Slots;
use crate::state::{distance, Call, QueueState, Reply, Request};

verus! {

/// A bounded first-in, first-out queue.
///
/// Beside the slots the ring keeps, for each side, the index of the other side as that side
/// last saw it. When a side checks for room or for an item it first compares with the cached
/// index. Only if that one indicates full or empty, it loads the real index, saves it in the
/// cache and confirms.
pub struct Ring<T> {
    slots: Slots<T>,
    read_idx_cached: CacheAligned<usize>,
    write_idx_cached: CacheAligned<usize>,
}

impl<T> View for Ring<T> {
    type V = QueueState<T>;

    closed spec fn view(&self) -> QueueState<T> {
        QueueState {
            capacity: self.slots.capacity() as nat,
            read_idx: self.slots.read_idx() as nat,
            items: self.slots.items(),
            producer_count: distance(
                self.read_idx_cached.0 as int,
                self.slots.write_idx(),
                self.slots.capacity(),
            ) as nat,
            consumer_count: distance(
                self.slots.read_idx(),
                self.write_idx_cached.0 as int,
                self.slots.capacity(),
            ) as nat,
        }
    }
}

impl<T> Ring<T> {
    /// The cached read index lies at or behind the real one and the cached write index lies
    /// between the real indices: neither side sees more than there is.
    #[verifier::type_invariant]
    closed spec fn inv(&self) -> bool {
        let capacity = self.slots.capacity();
        &&& self.slots.wf()
        &&& self.read_idx_cached.0 < capacity
        &&& self.write_idx_cached.0 < capacity
        &&& distance(self.read_idx_cached.0 as int, self.slots.read_idx(), capacity)
            + self.slots.len() < capacity
        &&& distance(self.slots.read_idx(), self.write_idx_cached.0 as int, capacity)
            <= self.slots.len()
    }

    /// What the invariant says of the view and of the indices.
    proof fn lemma_view_is_valid(&self)
        requires
            self.inv(),
        ensures
            self@.valid(),
            self@.write_idx() == self.slots.write_idx(),
            self@.items.len() == self.slots.len(),
            1 < self.slots.capacity() <= usize::MAX,
            0 <= self.slots.read_idx() < self.slots.capacity(),
            0 <= self.slots.write_idx() < self.slots.capacity(),
    {
        self.slots.lemma_bounds();
    }

    /// An empty ring of `capacity` slots.
    pub fn new(capacity: usize) -> (ring: Self)
        requires
            capacity > 1,
        ensures
            ring@ == QueueState::<T>::empty(capacity as nat),
            ring@.valid(),
    {
        let slots = Slots::new(capacity);
        Ring {
            slots,
            read_idx_cached: CacheAligned::from(0),
            write_idx_cached: CacheAligned::from(0),
        }
    }

    /// Whether no value can be pushed. Loads the real read index, and saves it in the cache,
    /// where the cached one indicates full.
    pub fn is_full(&mut self) -> (full: bool)
        ensures
            old(self)@.valid(),
            final(self)@.valid(),
            full == old(self)@.is_full(),
            final(self)@ == old(self)@.look_for_room(),
        opens_invariants none
        no_unwind
    {
        proof {
            use_type_invariant(&*self);
            self.lemma_view_is_valid();
        }
        let next_write_idx: usize = self.slots.next(self.slots.write());
        if next_write_idx == self.read_idx_cached.0 {
            self.read_idx_cached.0 = self.slots.read();
            if next_write_idx == self.read_idx_cached.0 {
                return true;
            }
        }
        false
    }

    /// Whether there is no value to pop. Loads the real write index, and saves it in the cache,
    /// where the cached one indicates empty.
    pub fn is_empty(&mut self) -> (empty: bool)
        ensures
            old(self)@.valid(),
            final(self)@.valid(),
            empty == old(self)@.is_empty(),
            final(self)@ == old(self)@.look_for_item(),
        opens_invariants none
        no_unwind
    {
        proof {
            use_type_invariant(&*self);
            self.lemma_view_is_valid();
        }
        let read_idx: usize = self.slots.read();
        if read_idx == self.write_idx_cached.0 {
            self.write_idx_cached.0 = self.slots.write();
            if read_idx == self.write_idx_cached.0 {
                return true;
            }
        }
        false
    }

    /// Queues `value` behind all others. Returns `None` on success and `Some(value)` if the
    /// ring is full, giving the caller the value back.
    pub fn push_back(&mut self, value: T) -> (refused: Option<T>)
        ensures
            old(self)@.valid(),
            final(self)@.valid(),
            (final(self)@, refused) == old(self)@.push_back(value),
        opens_invariants none
        no_unwind
    {
        if self.is_full() {
            return Some(value);
        }
        self.append(value);
        None
    }

    /// Same as [`Ring::push_back`], but always loads the real read index, and saves it in the
    /// cache.
    pub fn push_back_no_cache(&mut self, value: T) -> (refused: Option<T>)
        ensures
            old(self)@.valid(),
            final(self)@.valid(),
            (final(self)@, refused) == old(self)@.push_back_no_cache(value),
        opens_invariants none
        no_unwind
    {
        proof {
            use_type_invariant(&*self);
            self.lemma_view_is_valid();
        }
        let next_write_idx: usize = self.slots.next(self.slots.write());
        self.read_idx_cached.0 = self.slots.read();
        if next_write_idx == self.read_idx_cached.0 {
            return Some(value);
        }
        self.append(value);
        None
    }

    /// Takes the oldest value out. Returns `None` if there is nothing to take.
    pub fn pop_front(&mut self) -> (value: Option<T>)
        ensures
            old(self)@.valid(),
            final(self)@.valid(),
            (final(self)@, value) == old(self)@.pop_front(),
        opens_invariants none
        no_unwind
    {
        if self.is_empty() {
            return None;
        }
        self.advance()
    }

    /// Same as [`Ring::pop_front`], but always loads the real write index, and saves it in the
    /// cache.
    pub fn pop_front_no_cache(&mut self) -> (value: Option<T>)
        ensures
            old(self)@.valid(),
            final(self)@.valid(),
            (final(self)@, value) == old(self)@.pop_front_no_cache(),
        opens_invariants none
        no_unwind
    {
        proof {
            use_type_invariant(&*self);
            self.lemma_view_is_valid();
        }
        let read_idx: usize = self.slots.read();
        self.write_idx_cached.0 = self.slots.write();
        if read_idx == self.write_idx_cached.0 {
            return None;
        }
        self.advance()
    }

    /// Queues `value`, for which the cached read index leaves room.
    fn append(&mut self, value: T)
        requires
            old(self)@.producer_count + 1 < old(self)@.capacity,
        ensures
            final(self)@.valid(),
            final(self)@ == old(self)@.append(value),
        opens_invariants none
        no_unwind
    {
        proof {
            use_type_invariant(&*self);
            self.lemma_view_is_valid();
        }
        self.slots.put(value);
        proof {
            self.lemma_view_is_valid();
        }
    }

    /// Takes the oldest value out, which the cached write index shows.
    fn advance(&mut self) -> (value: Option<T>)
        requires
            old(self)@.consumer_count > 0,
        ensures
            final(self)@.valid(),
            final(self)@ == old(self)@.advance(),
            value == Some(old(self)@.items[0]),
        opens_invariants none
        no_unwind
    {
        proof {
            use_type_invariant(&*self);
            self.lemma_view_is_valid();
        }
        let value = self.slots.take();
        proof {
            self.lemma_view_is_valid();
        }
        value
    }

    /// Makes one attempt at `request`. Returns the answer, or the request again where it has to
    /// wait.
    fn attempt(&mut self, request: Request<T>) -> (outcome: Call<T>)
        ensures
            old(self)@.valid(),
            final(self)@.valid(),
            (final(self)@, outcome) == old(self)@.serve(request),
        opens_invariants none
        no_unwind
    {
        match request {
            Request::PushBack(value) => Call::Answered(Reply::Pushed(self.push_back(value))),
            Request::PushBackNoCache(value) => Call::Answered(
                Reply::Pushed(self.push_back_no_cache(value)),
            ),
            Request::PushBackBlocking(value) => match self.push_back(value) {
                Some(value) => Call::Asked(Request::PushBackBlocking(value)),
                None => Call::Answered(Reply::Pushed(None)),
            },
            Request::IsFull => Call::Answered(Reply::Found(self.is_full())),
            Request::PopFront => Call::Answered(Reply::Popped(self.pop_front())),
            Request::PopFrontNoCache => Call::Answered(Reply::Popped(self.pop_front_no_cache())),
            Request::PopFrontBlocking => match self.pop_front() {
                Some(value) => Call::Answered(Reply::Popped(Some(value))),
                None => Call::Asked(Request::PopFrontBlocking),
            },
            Request::IsEmpty => Call::Answered(Reply::Found(self.is_empty())),
        }
    }

    /// Makes one attempt at the request in `call`, and puts the answer in its place. A request
    /// that has to wait stays. Returns whether it has to.
    pub fn serve(&mut self, call: &mut Call<T>) -> (waiting: bool)
        ensures
            old(self)@.valid(),
            final(self)@.valid(),
            match *old(call) {
                Call::Asked(request) => (final(self)@, *final(call)) == old(self)@.serve(request),
                Call::Answered(_) => final(self)@ == old(self)@ && *final(call) == *old(call),
            },
            waiting == (*final(call) is Asked),
        opens_invariants none
        no_unwind
    {
        proof {
            use_type_invariant(&*self);
            self.lemma_view_is_valid();
        }
        let mut outcome: Call<T> = Call::Answered(Reply::Found(false));
        std::mem::swap(call, &mut outcome);
        if let Call::Asked(request) = outcome {
            outcome = self.attempt(request);
        }
        *call = outcome;
        match call {
            Call::Asked(_) => true,
            Call::Answered(_) => false,
        }
    }

    /// Pops until nothing is left. The values go in the order in which they were queued.
    pub fn drain(&mut self)
        ensures
            old(self)@.valid(),
            final(self)@.valid(),
            final(self)@ == old(self)@.drain(),
        opens_invariants none
        no_unwind
    {
        proof {
            use_type_invariant(&*self);
            self.lemma_view_is_valid();
        }
        let mut more: bool = true;
        while more
            invariant
                self@.valid(),
                self@.drain() == old(self)@.drain(),
                !more ==> self@ == self@.drain(),
            decreases
                self@.items.len(),
                (if more {
                    1int
                } else {
                    0
                }),
        {
            more = match self.pop_front() {
                Some(_value) => true,
                None => false,
            };
        }
    }
}

impl<T> Drop for Ring<T> {
    /// Drops what was never received, oldest first.
    fn drop(&mut self)
        ensures
            final(self)@ == old(self)@.drain(),
        opens_invariants none
        no_unwind
    {
        self.drain();
    }
}

} // verus!
