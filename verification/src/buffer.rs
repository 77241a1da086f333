//! The queue that two threads share.

use vstd::prelude::*;

use std::sync::{Arc, Condvar};

use crate::handles::{Consumer, Producer};
use crate::history::run;
use crate::laws::law_arising_state_has_shape;
use crate::monitor::Monitor;
use crate::ring::Ring;
use crate::state::{Call, QueueState, Reply, Request};

verus! {

/// A [`Ring`] that two threads share: one that pushes and one that pops.
///
/// What a call does depends on the state of the ring that it meets, which is the work of both
/// threads. Each contract says that the ring was asked for what the call is for, at a place `n`
/// among all that is ever asked of it, names the state `met` in which the ring was then, and
/// says what the call returns for it ([`RingBuffer::meets`]). The operation of the same name of
/// [`Ring`] leaves that state as the model says.
///
/// A call asks the ring for nothing else: `opens_invariants` lists the right to the one kind of
/// request that it may make ([`Request::right`]), and Verus refuses a body that makes another.
/// Where a value was queued or taken out, the other side was woken on account of it before the
/// call returns ([`RingBuffer::woken`]).
#[verifier::reject_recursive_types(T)]
pub struct RingBuffer<T> {
    monitor: Monitor<T>,
}

impl<T> RingBuffer<T> {
    /// The number of slots of the ring.
    pub closed spec fn capacity(&self) -> nat {
        self.monitor.capacity()
    }

    /// The kinds of all attempts that are ever made on the ring, in the order in which they are
    /// made. A request that has to wait is attempted anew each time that its side is woken.
    pub closed spec fn served(&self) -> Seq<Request<()>> {
        self.monitor.served()
    }

    /// Whether the attempt at place `n` is of kind `kind` and meets the ring in state `met`: in
    /// the state that the attempts before it, with the values that came with them, have led to.
    /// But for the values, the kinds of these attempts say what that state is.
    pub open spec fn meets(&self, n: int, kind: Request<()>, met: QueueState<T>) -> bool {
        &&& 0 <= n < self.served().len()
        &&& self.served()[n] == kind
        &&& met.arises(self.capacity(), self.served().take(n))
        &&& met.shape() == run(
            QueueState::<()>::empty(self.capacity()),
            self.served().take(n),
        ).state
    }

    /// Whether the condition variable of this ring, on which the two sides wait, has been
    /// notified.
    pub closed spec fn notified(&self) -> bool {
        self.monitor.notified()
    }

    /// Whether the other side was woken on account of the attempt at place `n`.
    pub closed spec fn woken(&self, n: int) -> bool {
        self.monitor.woken(n)
    }

    /// Where the other side was woken, the condition variable of this ring was notified.
    pub proof fn lemma_woken_is_notified(&self, n: int)
        requires
            self.woken(n),
        ensures
            self.notified(),
    {
        self.monitor.lemma_woken_is_notified(n);
    }

    /// Makes an empty ring of `capacity` slots and the two handles that share it. One slot is
    /// reserved for telling a full ring from an empty one, so with a capacity of 1 the ring
    /// would always be full.
    pub fn new_channels(capacity: usize) -> (channels: (Producer<T>, Consumer<T>))
        requires
            capacity > 1,
        ensures
            channels.0.buffer() == channels.1.buffer(),
            channels.0.buffer().capacity() == capacity,
    {
        let monitor = Monitor::new(Ring::new(capacity), Condvar::new());
        let p_buffer = Arc::new(RingBuffer { monitor });
        let c_buffer = Arc::clone(&p_buffer);
        (Producer::new(p_buffer), Consumer::new(c_buffer))
    }

    /// Has the ring answer `request`, and waits until it can. Wakes the other side where a value
    /// was queued or taken out.
    fn perform(&self, request: Request<T>) -> (reply: Reply<T>)
        ensures
            exists|n: int, met: QueueState<T>| #[trigger]
                self.meets(n, request.kind(), met) && met.serve(request).1 == Call::Answered(reply)
                    && (reply.moves_a_value() ==> self.woken(n)),
        opens_invariants [ request.right() ]
    {
        let mut call = Call::Asked(request);
        self.monitor.lock().perform(&mut call);
        let ghost (n, met) = choose|n: int, met: QueueState<T>|
            0 <= n < self.served().len() && self.served()[n] == request.kind()
                && #[trigger] met.arises(self.capacity(), self.served().take(n)) && met.serve(
                request,
            ).1 == call;
        proof {
            law_arising_state_has_shape(met, self.capacity(), self.served().take(n));
            assert(self.meets(n, request.kind(), met));
        }
        let reply = match call {
            Call::Answered(reply) => reply,
            Call::Asked(_) => vstd::pervasive::unreached(),
        };
        match reply {
            Reply::Pushed(None) => self.monitor.wake(Ghost(n)),
            Reply::Popped(Some(_)) => self.monitor.wake(Ghost(n)),
            _ => {},
        }
        reply
    }

    /// Queues `value` behind all others. Returns `None` on success and `Some(value)` if the
    /// ring is full, giving the caller the value back.
    pub fn push_back(&self, value: T) -> (refused: Option<T>)
        ensures
            refused is None || refused == Some(value),
            exists|n: int, met: QueueState<T>| #[trigger]
                self.meets(n, Request::PushBack(()), met) && met.push_back(value).1 == refused
                    && (refused is None ==> self.woken(n)),
        opens_invariants [ Request::<()>::PushBack(()).right() ]
    {
        match self.perform(Request::PushBack(value)) {
            Reply::Pushed(refused) => refused,
            _ => vstd::pervasive::unreached(),
        }
    }

    /// Same as [`RingBuffer::push_back`], but does not go by the cached read index.
    pub fn push_back_no_cache(&self, value: T) -> (refused: Option<T>)
        ensures
            refused is None || refused == Some(value),
            exists|n: int, met: QueueState<T>| #[trigger]
                self.meets(n, Request::PushBackNoCache(()), met)
                    && met.push_back_no_cache(value).1 == refused
                    && (refused is None ==> self.woken(n)),
        opens_invariants [ Request::<()>::PushBackNoCache(()).right() ]
    {
        match self.perform(Request::PushBackNoCache(value)) {
            Reply::Pushed(refused) => refused,
            _ => vstd::pervasive::unreached(),
        }
    }

    /// Queues `value` behind all others. Blocks the thread until a pop makes room if the ring is
    /// full. It returns once the value was queued, in a state with room, as a push there does.
    pub fn push_back_blocking(&self, value: T)
        ensures
            exists|n: int, met: QueueState<T>| #[trigger]
                self.meets(n, Request::PushBackBlocking(()), met) && !met.is_full()
                    && met.serve(Request::PushBackBlocking(value)) == (
                    met.push_back(value).0,
                    Call::<T>::Answered(Reply::Pushed(None)),
                )
                    && self.woken(n),
        opens_invariants [ Request::<()>::PushBackBlocking(()).right() ]
    {
        let _reply = self.perform(Request::PushBackBlocking(value));
    }

    /// Takes the oldest value out. Returns `None` if there is nothing to take.
    pub fn pop_front(&self) -> (value: Option<T>)
        ensures
            exists|n: int, met: QueueState<T>| #[trigger]
                self.meets(n, Request::PopFront, met) && met.pop_front().1 == value
                    && (value is Some ==> self.woken(n)),
        opens_invariants [ Request::<()>::PopFront.right() ]
    {
        match self.perform(Request::PopFront) {
            Reply::Popped(value) => value,
            _ => vstd::pervasive::unreached(),
        }
    }

    /// Same as [`RingBuffer::pop_front`], but does not go by the cached write index.
    pub fn pop_front_no_cache(&self) -> (value: Option<T>)
        ensures
            exists|n: int, met: QueueState<T>| #[trigger]
                self.meets(n, Request::PopFrontNoCache, met) && met.pop_front_no_cache().1 == value
                    && (value is Some ==> self.woken(n)),
        opens_invariants [ Request::<()>::PopFrontNoCache.right() ]
    {
        match self.perform(Request::PopFrontNoCache) {
            Reply::Popped(value) => value,
            _ => vstd::pervasive::unreached(),
        }
    }

    /// Takes the oldest value out. Blocks the thread until a push brings one if the ring is
    /// empty. It returns the oldest value of a state that has one, as a pop there does.
    pub fn pop_front_blocking(&self) -> (value: T)
        ensures
            exists|n: int, met: QueueState<T>| #[trigger]
                self.meets(n, Request::PopFrontBlocking, met) && !met.is_empty()
                    && met.serve(Request::PopFrontBlocking) == (
                    met.pop_front().0,
                    Call::Answered(Reply::Popped(Some(value))),
                ) && met.pop_front().1 == Some(value)
                    && self.woken(n),
        opens_invariants [ Request::<()>::PopFrontBlocking.right() ]
    {
        match self.perform(Request::PopFrontBlocking) {
            Reply::Popped(Some(value)) => value,
            _ => vstd::pervasive::unreached(),
        }
    }

    /// Whether there is nothing to take. Should only be called by the consumer: it updates the
    /// write index that the consumer has cached.
    pub fn is_empty(&self) -> (empty: bool)
        ensures
            exists|n: int, met: QueueState<T>| #[trigger]
                self.meets(n, Request::IsEmpty, met) && met.is_empty() == empty,
        opens_invariants [ Request::<()>::IsEmpty.right() ]
    {
        match self.perform(Request::IsEmpty) {
            Reply::Found(empty) => empty,
            _ => vstd::pervasive::unreached(),
        }
    }

    /// Whether nothing more can be queued. Should only be called by the producer: it updates the
    /// read index that the producer has cached.
    pub fn is_full(&self) -> (full: bool)
        ensures
            exists|n: int, met: QueueState<T>| #[trigger]
                self.meets(n, Request::IsFull, met) && met.is_full() == full,
        opens_invariants [ Request::<()>::IsFull.right() ]
    {
        match self.perform(Request::IsFull) {
            Reply::Found(full) => full,
            _ => vstd::pervasive::unreached(),
        }
    }
}

} // verus!
