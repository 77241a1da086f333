//! The two ends of a channel.

use vstd::prelude::*;

use std::sync::Arc;

use crate::buffer::RingBuffer;
use crate::state::{Call, QueueState, Reply, Request};

verus! {

/// Returns the two ends of a new, empty channel whose ring has `capacity` slots. One slot is
/// needed to tell empty from full, so the channel holds up to `capacity - 1` values.
pub fn channel<T>(capacity: usize) -> (channels: (Producer<T>, Consumer<T>))
    requires
        capacity > 1,
    ensures
        channels.0.buffer() == channels.1.buffer(),
        channels.0.buffer().capacity() == capacity,
{
    RingBuffer::new_channels(capacity)
}

/// The sending end of a channel: call `.send(val)` to push a value on to the ring.
#[verifier::reject_recursive_types(T)]
pub struct Producer<T> {
    buffer: Arc<RingBuffer<T>>,
}

impl<T> Producer<T> {
    /// The ring that this end shares with the receiving end.
    pub closed spec fn buffer(&self) -> RingBuffer<T> {
        *self.buffer
    }

    pub(crate) fn new(buffer: Arc<RingBuffer<T>>) -> (producer: Self)
        ensures
            producer.buffer() == *buffer,
    {
        Producer { buffer }
    }

    /// Sends `value`. Returns `None` on success and `Some(value)` if the channel is full.
    pub fn send(&self, value: T) -> (refused: Option<T>)
        ensures
            refused is None || refused == Some(value),
            exists|n: int, met: QueueState<T>| #[trigger]
                self.buffer().meets(n, Request::PushBack(()), met)
                    && met.push_back(value).1 == refused
                    && (refused is None ==> self.buffer().woken(n)),
        opens_invariants [ Request::<()>::PushBack(()).right() ]
    {
        assert(self.buffer() == *self.buffer);
        self.buffer.push_back(value)
    }

    /// Same as [`Producer::send`], but does not go by the cached read index.
    /// For benchmarking purposes only.
    pub fn send_no_cache(&self, value: T) -> (refused: Option<T>)
        ensures
            refused is None || refused == Some(value),
            exists|n: int, met: QueueState<T>| #[trigger]
                self.buffer().meets(n, Request::PushBackNoCache(()), met)
                    && met.push_back_no_cache(value).1 == refused
                    && (refused is None ==> self.buffer().woken(n)),
        opens_invariants [ Request::<()>::PushBackNoCache(()).right() ]
    {
        assert(self.buffer() == *self.buffer);
        self.buffer.push_back_no_cache(value)
    }

    /// Sends `value`. This version will block if the channel is full when you try to send.
    /// It returns once the value was queued, in a state with room, as a send there does.
    pub fn send_blocking(&self, value: T)
        ensures
            exists|n: int, met: QueueState<T>| #[trigger]
                self.buffer().meets(n, Request::PushBackBlocking(()), met) && !met.is_full()
                    && met.serve(Request::PushBackBlocking(value)) == (
                    met.push_back(value).0,
                    Call::<T>::Answered(Reply::Pushed(None)),
                )
                    && self.buffer().woken(n),
        opens_invariants [ Request::<()>::PushBackBlocking(()).right() ]
    {
        assert(self.buffer() == *self.buffer);
        self.buffer.push_back_blocking(value)
    }

    /// Convenience method to check if the channel is full before calling `.send(val)`.
    /// Has the side effect of updating the cached read index.
    pub fn is_full(&self) -> (full: bool)
        ensures
            exists|n: int, met: QueueState<T>| #[trigger]
                self.buffer().meets(n, Request::IsFull, met) && met.is_full() == full,
        opens_invariants [ Request::<()>::IsFull.right() ]
    {
        assert(self.buffer() == *self.buffer);
        self.buffer.is_full()
    }
}

/// The receiving end of a channel: call `.recv()` to pop a value off the ring.
#[verifier::reject_recursive_types(T)]
pub struct Consumer<T> {
    buffer: Arc<RingBuffer<T>>,
}

impl<T> Consumer<T> {
    /// The ring that this end shares with the sending end.
    pub closed spec fn buffer(&self) -> RingBuffer<T> {
        *self.buffer
    }

    pub(crate) fn new(buffer: Arc<RingBuffer<T>>) -> (consumer: Self)
        ensures
            consumer.buffer() == *buffer,
    {
        Consumer { buffer }
    }

    /// Receives the oldest value. Returns `None` if the channel is empty.
    pub fn recv(&self) -> (value: Option<T>)
        ensures
            exists|n: int, met: QueueState<T>| #[trigger]
                self.buffer().meets(n, Request::PopFront, met) && met.pop_front().1 == value
                    && (value is Some ==> self.buffer().woken(n)),
        opens_invariants [ Request::<()>::PopFront.right() ]
    {
        assert(self.buffer() == *self.buffer);
        self.buffer.pop_front()
    }

    /// Same as [`Consumer::recv`], but does not go by the cached write index.
    /// For benchmarking purposes only.
    pub fn recv_no_cache(&self) -> (value: Option<T>)
        ensures
            exists|n: int, met: QueueState<T>| #[trigger]
                self.buffer().meets(n, Request::PopFrontNoCache, met)
                    && met.pop_front_no_cache().1 == value
                    && (value is Some ==> self.buffer().woken(n)),
        opens_invariants [ Request::<()>::PopFrontNoCache.right() ]
    {
        assert(self.buffer() == *self.buffer);
        self.buffer.pop_front_no_cache()
    }

    /// Receives the oldest value. This version will block if the channel is empty when you try
    /// to receive. It returns the oldest value of a state that has one, as a receive there does.
    pub fn recv_blocking(&self) -> (value: T)
        ensures
            exists|n: int, met: QueueState<T>| #[trigger]
                self.buffer().meets(n, Request::PopFrontBlocking, met) && !met.is_empty()
                    && met.serve(Request::PopFrontBlocking) == (
                    met.pop_front().0,
                    Call::Answered(Reply::Popped(Some(value))),
                ) && met.pop_front().1 == Some(value)
                    && self.buffer().woken(n),
        opens_invariants [ Request::<()>::PopFrontBlocking.right() ]
    {
        assert(self.buffer() == *self.buffer);
        self.buffer.pop_front_blocking()
    }

    /// Convenience method to check if the channel is empty before calling `.recv()`.
    /// Has the side effect of updating the cached write index.
    pub fn is_empty(&self) -> (empty: bool)
        ensures
            exists|n: int, met: QueueState<T>| #[trigger]
                self.buffer().meets(n, Request::IsEmpty, met) && met.is_empty() == empty,
        opens_invariants [ Request::<()>::IsEmpty.right() ]
    {
        assert(self.buffer() == *self.buffer);
        self.buffer.is_empty()
    }
}

} // verus!
