//! Runs of requests of both sides, in any order, and what comes of them.

use vstd::prelude::*;

use crate::state::{Call, QueueState, Reply, Request};

verus! {

/// Whether all of `requests` are those of the producer.
pub open spec fn all_by_producer<T>(requests: Seq<Request<T>>) -> bool {
    forall|i: int| 0 <= i < requests.len() ==> (#[trigger] requests[i]).by_producer()
}

/// Whether all of `requests` are those of the consumer.
pub open spec fn all_by_consumer<T>(requests: Seq<Request<T>>) -> bool {
    forall|i: int| 0 <= i < requests.len() ==> (#[trigger] requests[i]).by_consumer()
}

impl<T> QueueState<T> {
    /// The state after one attempt at `request`.
    pub open spec fn after(self, request: Request<T>) -> Self {
        self.serve(request).0
    }

    /// The value that `request` queues, if it queues one.
    pub open spec fn accepts(self, request: Request<T>) -> Seq<T> {
        if self.serve(request).1 == Call::Answered(Reply::Pushed(None::<T>)) {
            match request {
                Request::PushBack(value) => seq![value],
                Request::PushBackNoCache(value) => seq![value],
                Request::PushBackBlocking(value) => seq![value],
                _ => seq![],
            }
        } else {
            seq![]
        }
    }

    /// The value that `request` takes out, if it takes one out.
    pub open spec fn delivers(self, request: Request<T>) -> Seq<T> {
        match self.serve(request).1 {
            Call::Answered(Reply::Popped(Some(value))) => seq![value],
            _ => seq![],
        }
    }

    /// Whether a ring of `capacity` slots comes into this state by requests of the given kinds,
    /// one attempt at each, from the empty ring on.
    pub open spec fn arises(self, capacity: nat, kinds_asked: Seq<Request<()>>) -> bool {
        &&& self.valid()
        &&& self.capacity == capacity
        &&& exists|requests: Seq<Request<T>>|
            kinds(requests) == kinds_asked && #[trigger] run(
                QueueState::empty(capacity),
                requests,
            ).state == self
    }
}

/// The kinds of `requests`.
pub open spec fn kinds<T>(requests: Seq<Request<T>>) -> Seq<Request<()>> {
    Seq::new(requests.len(), |i: int| requests[i].kind())
}

/// What came of a run.
#[verifier::ext_equal]
pub ghost struct History<T> {
    /// The state after the run.
    pub state: QueueState<T>,
    /// The values that were queued during the run, in order.
    pub accepted: Seq<T>,
    /// The values that were taken out during the run, in order.
    pub delivered: Seq<T>,
}

/// What comes of one attempt at each of `requests`, one after the other, from `start` on.
pub open spec fn run<T>(start: QueueState<T>, requests: Seq<Request<T>>) -> History<T>
    decreases requests.len(),
{
    if requests.len() == 0 {
        History { state: start, accepted: seq![], delivered: seq![] }
    } else {
        let before = run(start, requests.drop_last());
        History {
            state: before.state.after(requests.last()),
            accepted: before.accepted + before.state.accepts(requests.last()),
            delivered: before.delivered + before.state.delivers(requests.last()),
        }
    }
}

/// A part of an operation, between two of which the other side may come in.
///
/// A push looks for room and then, if there is some, appends; a pop looks for an item and then,
/// if there is one, advances.
pub ghost enum Step<T> {
    LookForRoom,
    Append(T),
    LookForItem,
    Advance,
}

impl<T> Step<T> {
    pub open spec fn by_producer(self) -> bool {
        self is LookForRoom || self is Append
    }

    pub open spec fn by_consumer(self) -> bool {
        !self.by_producer()
    }
}

impl<T> QueueState<T> {
    /// Whether a side takes `step` in this state. A side decides by the index of the other side
    /// that it has cached, and by nothing else.
    pub open spec fn allows(self, step: Step<T>) -> bool {
        match step {
            Step::Append(_) => self.producer_count + 1 < self.capacity,
            Step::Advance => self.consumer_count > 0,
            _ => true,
        }
    }

    /// The state after `step`.
    pub open spec fn after_step(self, step: Step<T>) -> Self {
        match step {
            Step::LookForRoom => self.look_for_room(),
            Step::Append(value) => self.append(value),
            Step::LookForItem => self.look_for_item(),
            Step::Advance => self.advance(),
        }
    }

    /// The value that `step` queues, if it queues one.
    pub open spec fn step_accepts(self, step: Step<T>) -> Seq<T> {
        match step {
            Step::Append(value) => seq![value],
            _ => seq![],
        }
    }

    /// The value that `step` takes out, if it takes one out.
    pub open spec fn step_delivers(self, step: Step<T>) -> Seq<T> {
        match step {
            Step::Advance => seq![self.items[0]],
            _ => seq![],
        }
    }
}

/// What comes of `steps`, one after the other, from `start` on.
pub open spec fn run_steps<T>(start: QueueState<T>, steps: Seq<Step<T>>) -> History<T>
    decreases steps.len(),
{
    if steps.len() == 0 {
        History { state: start, accepted: seq![], delivered: seq![] }
    } else {
        let before = run_steps(start, steps.drop_last());
        History {
            state: before.state.after_step(steps.last()),
            accepted: before.accepted + before.state.step_accepts(steps.last()),
            delivered: before.delivered + before.state.step_delivers(steps.last()),
        }
    }
}

/// Whether each of `steps` is allowed where it comes.
pub open spec fn allowed<T>(start: QueueState<T>, steps: Seq<Step<T>>) -> bool {
    forall|i: int|
        0 <= i < steps.len() ==> run_steps(start, steps.take(i)).state.allows(#[trigger] steps[i])
}

/// The run that pushes each of `values`.
pub open spec fn pushes<T>(values: Seq<T>) -> Seq<Request<T>> {
    Seq::new(values.len(), |i: int| Request::PushBack(values[i]))
}

/// The run that pops `count` times.
pub open spec fn pops<T>(count: nat) -> Seq<Request<T>> {
    Seq::new(count, |i: int| Request::<T>::PopFront)
}

} // verus!
