//! The mathematical model of the ring: what it holds, and what each operation makes of it.

use vstd::prelude::*;

verus! {

/// The number of steps from slot `from` forward to slot `to`, around a ring of `capacity` slots.
pub open spec fn distance(from: int, to: int, capacity: int) -> int {
    if from <= to {
        to - from
    } else {
        to - from + capacity
    }
}

/// The slot that lies `steps` steps (fewer than `capacity`) after slot `from`.
pub open spec fn slot_after(from: int, steps: int, capacity: int) -> int {
    if from + steps < capacity {
        from + steps
    } else {
        from + steps - capacity
    }
}

/// What a side asks of the ring. The first four are for the producer to ask, the others for the
/// consumer.
pub enum Request<T> {
    PushBack(T),
    PushBackNoCache(T),
    /// A push that waits until there is room.
    PushBackBlocking(T),
    IsFull,
    PopFront,
    PopFrontNoCache,
    /// A pop that waits until there is a value.
    PopFrontBlocking,
    IsEmpty,
}

impl<T> Request<T> {
    pub open spec fn by_producer(self) -> bool {
        self is PushBack || self is PushBackNoCache || self is PushBackBlocking || self is IsFull
    }

    pub open spec fn by_consumer(self) -> bool {
        !self.by_producer()
    }

    /// The right that an attempt at this request takes, one for each kind. A function lists the
    /// rights that it may take in `opens_invariants`, and Verus holds it, and all that it calls,
    /// to the list: it makes no attempt of another kind.
    pub open spec fn right(self) -> int {
        match self {
            Request::PushBack(_) => 0,
            Request::PushBackNoCache(_) => 1,
            Request::PushBackBlocking(_) => 2,
            Request::IsFull => 3,
            Request::PopFront => 4,
            Request::PopFrontNoCache => 5,
            Request::PopFrontBlocking => 6,
            Request::IsEmpty => 7,
        }
    }

    /// The request without its value.
    pub open spec fn kind(self) -> Request<()> {
        match self {
            Request::PushBack(_) => Request::PushBack(()),
            Request::PushBackNoCache(_) => Request::PushBackNoCache(()),
            Request::PushBackBlocking(_) => Request::PushBackBlocking(()),
            Request::IsFull => Request::IsFull,
            Request::PopFront => Request::PopFront,
            Request::PopFrontNoCache => Request::PopFrontNoCache,
            Request::PopFrontBlocking => Request::PopFrontBlocking,
            Request::IsEmpty => Request::IsEmpty,
        }
    }
}

/// What the ring answers.
pub enum Reply<T> {
    /// To a push: the value, where it was refused.
    Pushed(Option<T>),
    /// To a pop: the value, where there was one.
    Popped(Option<T>),
    /// To a question.
    Found(bool),
}

impl<T> Reply<T> {
    /// Whether a value was queued or taken out: what the other side may be waiting for.
    pub open spec fn moves_a_value(self) -> bool {
        self == Reply::Pushed(None::<T>) || (self is Popped && self->Popped_0 is Some)
    }
}

/// A request until it is answered, and the answer from then on.
pub enum Call<T> {
    Asked(Request<T>),
    Answered(Reply<T>),
}

/// The state of a ring, as the two sides see it.
///
/// Each side may go by a stale position of the other. The producer then counts items that
/// have left meanwhile, and the consumer misses items that have arrived meanwhile; neither is
/// ever wrong the other way (see [`QueueState::valid`]).
#[verifier::ext_equal]
pub ghost struct QueueState<T> {
    /// The number of slots, one of which stays unused.
    pub capacity: nat,
    /// The slot of the oldest item, or of the next one where there is none.
    pub read_idx: nat,
    /// What is queued, oldest first.
    pub items: Seq<T>,
    /// The number of items that the producer counts with the read index that it has cached.
    pub producer_count: nat,
    /// The number of items that the consumer counts with the write index that it has cached.
    pub consumer_count: nat,
}

impl<T> QueueState<T> {
    /// The state in which a ring of `capacity` slots starts.
    pub open spec fn empty(capacity: nat) -> Self {
        QueueState {
            capacity,
            read_idx: 0,
            items: Seq::empty(),
            producer_count: 0,
            consumer_count: 0,
        }
    }

    /// The state without the values: how many there are, and what the two sides know of it.
    pub open spec fn shape(self) -> QueueState<()> {
        QueueState {
            capacity: self.capacity,
            read_idx: self.read_idx,
            items: Seq::new(self.items.len(), |i: int| ()),
            producer_count: self.producer_count,
            consumer_count: self.consumer_count,
        }
    }

    /// What holds of every ring at every moment.
    pub open spec fn valid(self) -> bool {
        &&& self.capacity > 1
        &&& self.read_idx < self.capacity
        &&& self.items.len() <= self.producer_count < self.capacity
        &&& self.consumer_count <= self.items.len()
    }

    /// One slot stays unused, so that a full ring can be told from an empty one.
    pub open spec fn is_full(self) -> bool {
        self.items.len() + 1 >= self.capacity
    }

    pub open spec fn is_empty(self) -> bool {
        self.items.len() == 0
    }

    /// The slot that holds the item `steps` places behind the oldest.
    pub open spec fn slot(self, steps: int) -> int {
        slot_after(self.read_idx as int, steps, self.capacity as int)
    }

    /// The slot into which the next item goes.
    pub open spec fn write_idx(self) -> int {
        self.slot(self.items.len() as int)
    }

    /// The producer reads the position of the consumer anew.
    pub open spec fn producer_reload(self) -> Self {
        QueueState { producer_count: self.items.len(), ..self }
    }

    /// The consumer reads the position of the producer anew.
    pub open spec fn consumer_reload(self) -> Self {
        QueueState { consumer_count: self.items.len(), ..self }
    }

    /// The producer looks for room: it reads the position of the consumer anew only where the
    /// cached one leaves no room.
    pub open spec fn look_for_room(self) -> Self {
        if self.producer_count + 1 == self.capacity {
            self.producer_reload()
        } else {
            self
        }
    }

    /// The consumer looks for an item: it reads the position of the producer anew only where
    /// the cached one shows no item.
    pub open spec fn look_for_item(self) -> Self {
        if self.consumer_count == 0 {
            self.consumer_reload()
        } else {
            self
        }
    }

    /// `value` is queued behind all others.
    pub open spec fn append(self, value: T) -> Self {
        QueueState {
            items: self.items.push(value),
            producer_count: self.producer_count + 1,
            ..self
        }
    }

    /// The oldest item leaves.
    pub open spec fn advance(self) -> Self {
        QueueState {
            read_idx: self.slot(1) as nat,
            items: self.items.skip(1),
            consumer_count: (self.consumer_count - 1) as nat,
            ..self
        }
    }

    /// A push: the state after it, and the value handed back where the ring is full.
    pub open spec fn push_back(self, value: T) -> (Self, Option<T>) {
        if self.is_full() {
            (self.look_for_room(), Some(value))
        } else {
            (self.look_for_room().append(value), None)
        }
    }

    /// A push that always reads the position of the consumer anew.
    pub open spec fn push_back_no_cache(self, value: T) -> (Self, Option<T>) {
        if self.is_full() {
            (self.producer_reload(), Some(value))
        } else {
            (self.producer_reload().append(value), None)
        }
    }

    /// A pop: the state after it, and the oldest item where there is one.
    pub open spec fn pop_front(self) -> (Self, Option<T>) {
        if self.is_empty() {
            (self.look_for_item(), None)
        } else {
            (self.look_for_item().advance(), Some(self.items[0]))
        }
    }

    /// A pop that always reads the position of the producer anew.
    pub open spec fn pop_front_no_cache(self) -> (Self, Option<T>) {
        if self.is_empty() {
            (self.consumer_reload(), None)
        } else {
            (self.consumer_reload().advance(), Some(self.items[0]))
        }
    }

    /// One attempt at `request`: the state after it, and the answer. A request that has to wait
    /// stays asked.
    pub open spec fn serve(self, request: Request<T>) -> (Self, Call<T>) {
        match request {
            Request::PushBack(value) => {
                let (after, refused) = self.push_back(value);
                (after, Call::Answered(Reply::Pushed(refused)))
            },
            Request::PushBackNoCache(value) => {
                let (after, refused) = self.push_back_no_cache(value);
                (after, Call::Answered(Reply::Pushed(refused)))
            },
            Request::PushBackBlocking(value) => {
                let (after, refused) = self.push_back(value);
                match refused {
                    Some(_) => (after, Call::Asked(request)),
                    None => (after, Call::Answered(Reply::Pushed(None))),
                }
            },
            Request::IsFull => (
                self.look_for_room(),
                Call::Answered(Reply::Found(self.is_full())),
            ),
            Request::PopFront => {
                let (after, value) = self.pop_front();
                (after, Call::Answered(Reply::Popped(value)))
            },
            Request::PopFrontNoCache => {
                let (after, value) = self.pop_front_no_cache();
                (after, Call::Answered(Reply::Popped(value)))
            },
            Request::PopFrontBlocking => {
                let (after, value) = self.pop_front();
                match value {
                    Some(_) => (after, Call::Answered(Reply::Popped(value))),
                    None => (after, Call::Asked(request)),
                }
            },
            Request::IsEmpty => (
                self.look_for_item(),
                Call::Answered(Reply::Found(self.is_empty())),
            ),
        }
    }

    /// Pops until nothing is left: the read index catches up with the write index.
    pub open spec fn drain(self) -> Self {
        QueueState {
            read_idx: self.write_idx() as nat,
            items: Seq::empty(),
            consumer_count: 0,
            ..self
        }
    }
}

} // verus!
