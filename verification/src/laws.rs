//! What holds of the ring as a whole, over all states and over all runs of requests.

use vstd::calc;
use vstd::prelude::*;

use crate::buffer::RingBuffer;
use crate::history::{
    all_by_consumer, all_by_producer, allowed, kinds, pops, pushes, run, run_steps, Step,
};
use crate::state::{Call, QueueState, Reply, Request};

verus! {

/// One request keeps the state valid and the capacity as it is; what was there and what was
/// accepted is what was delivered and what is there.
proof fn lemma_step<T>(state: QueueState<T>, request: Request<T>)
    requires
        state.valid(),
    ensures
        state.after(request).valid(),
        state.after(request).capacity == state.capacity,
        state.items + state.accepts(request) == state.delivers(request) + state.after(
            request,
        ).items,
{
    assert(state.items + state.accepts(request) =~= state.delivers(request) + state.after(
        request,
    ).items);
}

/// From a valid state on, every run leads to a valid state again, and the capacity stays what it
/// was. In particular no run ever queues more than `capacity - 1` values.
pub proof fn law_states_stay_valid<T>(start: QueueState<T>, requests: Seq<Request<T>>)
    requires
        start.valid(),
    ensures
        run(start, requests).state.valid(),
        run(start, requests).state.capacity == start.capacity,
        run(start, requests).state.items.len() <= start.capacity - 1,
    decreases requests.len(),
{
    if requests.len() > 0 {
        law_states_stay_valid(start, requests.drop_last());
        lemma_step(run(start, requests.drop_last()).state, requests.last());
    }
}

/// First in, first out: whatever the two sides do and in whichever order, what was queued at the
/// start followed by what was accepted is what was delivered followed by what is still queued.
/// Nothing is lost, doubled, made up or reordered.
pub proof fn law_first_in_first_out<T>(start: QueueState<T>, requests: Seq<Request<T>>)
    requires
        start.valid(),
    ensures
        start.items + run(start, requests).accepted == run(start, requests).delivered + run(
            start,
            requests,
        ).state.items,
    decreases requests.len(),
{
    let after = run(start, requests);
    if requests.len() > 0 {
        let before = run(start, requests.drop_last());
        let request = requests.last();
        law_first_in_first_out(start, requests.drop_last());
        law_states_stay_valid(start, requests.drop_last());
        lemma_step(before.state, request);
        calc! {
            (==)
            start.items + after.accepted; {
                assert(start.items + (before.accepted + before.state.accepts(request)) =~= (
                start.items + before.accepted) + before.state.accepts(request));
            }
            (before.delivered + before.state.items) + before.state.accepts(request); {
                assert((before.delivered + before.state.items) + before.state.accepts(request)
                    =~= before.delivered + (before.state.items + before.state.accepts(request)));
            }
            before.delivered + (before.state.delivers(request) + after.state.items); {
                assert(before.delivered + (before.state.delivers(request) + after.state.items)
                    =~= after.delivered + after.state.items);
            }
            after.delivered + after.state.items;
        }
    } else {
        assert(start.items + after.accepted =~= after.delivered + after.state.items);
    }
}

/// From an empty ring on, what was delivered is the beginning of what was accepted.
pub proof fn law_delivered_is_prefix_of_accepted<T>(capacity: nat, requests: Seq<Request<T>>)
    requires
        capacity > 1,
    ensures
        run(QueueState::empty(capacity), requests).delivered.is_prefix_of(
            run(QueueState::empty(capacity), requests).accepted,
        ),
{
    let end = run(QueueState::empty(capacity), requests);
    law_first_in_first_out(QueueState::empty(capacity), requests);
    assert(Seq::<T>::empty() + end.accepted =~= end.accepted);
    assert(end.accepted.take(end.delivered.len() as int) =~= end.delivered);
}

/// A full ring refuses: the value comes back, and what is queued stays as it was.
pub proof fn law_full_ring_refuses<T>(state: QueueState<T>, value: T)
    requires
        state.valid(),
        state.is_full(),
    ensures
        state.push_back(value).1 == Some(value),
        state.push_back(value).0.items == state.items,
        state.push_back_no_cache(value).1 == Some(value),
        state.push_back_no_cache(value).0.items == state.items,
{
}

/// A ring that is not full accepts: the value is queued behind all others.
pub proof fn law_ring_with_room_accepts<T>(state: QueueState<T>, value: T)
    requires
        state.valid(),
        !state.is_full(),
    ensures
        state.push_back(value).1 is None,
        state.push_back(value).0.items == state.items.push(value),
        state.push_back_no_cache(value).1 is None,
        state.push_back_no_cache(value).0.items == state.items.push(value),
{
}

/// An empty ring has nothing to give, and stays empty.
pub proof fn law_empty_ring_gives_nothing<T>(state: QueueState<T>)
    requires
        state.valid(),
        state.is_empty(),
    ensures
        state.pop_front().1 is None,
        state.pop_front().0.is_empty(),
        state.pop_front_no_cache().1 is None,
        state.pop_front_no_cache().0.is_empty(),
{
}

/// A full ring is never empty: the slot that stays unused tells the two apart.
pub proof fn law_full_is_not_empty<T>(state: QueueState<T>)
    requires
        state.valid(),
    ensures
        !(state.is_full() && state.is_empty()),
{
}

/// With one slot a ring would be full and empty at once, and could never accept a value.
pub proof fn law_one_slot_is_useless<T>(state: QueueState<T>, value: T)
    requires
        state.capacity == 1,
        state.items.len() < state.capacity,
    ensures
        state.is_full() && state.is_empty(),
        state.push_back(value).1 == Some(value),
        state.pop_front().1 is None,
{
}

/// An empty ring accepts as many values as it has slots but one, in their order, and then
/// refuses the next.
pub proof fn law_all_but_one_slot_can_be_used<T>(
    start: QueueState<T>,
    values: Seq<T>,
    next: T,
)
    requires
        start.valid(),
        start.is_empty(),
        values.len() <= start.capacity - 1,
    ensures
        run(start, pushes(values)).accepted == values,
        run(start, pushes(values)).state.items == values,
        run(start, pushes(values)).state.push_back(next).1 is Some <==> values.len()
            == start.capacity - 1,
    decreases values.len(),
{
    law_states_stay_valid(start, pushes(values));
    if values.len() > 0 {
        let shorter = values.drop_last();
        law_all_but_one_slot_can_be_used(start, shorter, next);
        law_states_stay_valid(start, pushes(shorter));
        assert(pushes(values).drop_last() =~= pushes(shorter));
        assert(run(start, pushes(values)).accepted =~= values);
        assert(run(start, pushes(values)).state.items =~= values);
    } else {
        assert(run(start, pushes(values)).accepted =~= values);
        assert(run(start, pushes(values)).state.items =~= values);
    }
}

/// A full ring refuses every push, however many there are, until something is taken out: it
/// stays full, with the same values.
pub proof fn law_full_ring_keeps_refusing<T>(
    state: QueueState<T>,
    requests: Seq<Request<T>>,
    next: T,
)
    requires
        state.valid(),
        state.is_full(),
        run(state, requests).delivered.len() == 0,
    ensures
        run(state, requests).accepted.len() == 0,
        run(state, requests).state.items == state.items,
        run(state, requests).state.is_full(),
        run(state, requests).state.push_back(next).1 == Some(next),
        run(state, requests).state.push_back_no_cache(next).1 == Some(next),
{
    law_states_stay_valid(state, requests);
    law_first_in_first_out(state, requests);
    let end = run(state, requests);
    assert((state.items + end.accepted).len() == (end.delivered + end.state.items).len());
    assert(state.items + end.accepted =~= state.items);
    assert(end.delivered + end.state.items =~= end.state.items);
}

/// An empty ring gives nothing, however often it is asked, until something is accepted.
pub proof fn law_empty_ring_keeps_giving_nothing<T>(
    state: QueueState<T>,
    requests: Seq<Request<T>>,
)
    requires
        state.valid(),
        state.is_empty(),
        run(state, requests).accepted.len() == 0,
    ensures
        run(state, requests).delivered.len() == 0,
        run(state, requests).state.is_empty(),
        run(state, requests).state.pop_front().1 is None,
        run(state, requests).state.pop_front_no_cache().1 is None,
{
    law_states_stay_valid(state, requests);
    law_first_in_first_out(state, requests);
    let end = run(state, requests);
    assert((state.items + end.accepted).len() == (end.delivered + end.state.items).len());
}

/// Popping as often as there are values gives all of them, in their order, and then nothing
/// more; the ring is then as draining it leaves it.
pub proof fn law_pops_give_all<T>(start: QueueState<T>, count: nat)
    requires
        start.valid(),
        count <= start.items.len(),
    ensures
        run(start, pops(count)).delivered == start.items.take(count as int),
        run(start, pops(count)).state.items == start.items.skip(count as int),
        run(start, pops(count)).state.write_idx() == start.write_idx(),
        run(start, pops(count)).state.producer_count == start.producer_count,
        count == start.items.len() ==> {
            &&& run(start, pops(count)).state.pop_front().1 is None
            &&& run(start, pops(count)).state.pop_front().0 == start.drain()
        },
    decreases count,
{
    law_states_stay_valid(start, pops(count));
    if count > 0 {
        let fewer = (count - 1) as nat;
        law_pops_give_all(start, fewer);
        law_states_stay_valid(start, pops(fewer));
        assert(pops::<T>(count).drop_last() =~= pops::<T>(fewer));
        assert(run(start, pops(count)).delivered =~= start.items.take(count as int));
        assert(run(start, pops(count)).state.items =~= start.items.skip(count as int));
    } else {
        assert(run(start, pops(count)).delivered =~= start.items.take(0));
        assert(run(start, pops(count)).state.items =~= start.items.skip(0));
    }
    if count == start.items.len() {
        assert(run(start, pops(count)).state.pop_front().0 =~= start.drain());
    }
}

/// A value pushed on an empty ring is the one that the next pop gives.
pub proof fn law_round_trip<T>(state: QueueState<T>, value: T)
    requires
        state.valid(),
        state.is_empty(),
    ensures
        state.push_back(value).0.pop_front().1 == Some(value),
        state.push_back(value).0.pop_front().0.is_empty(),
{
}

/// The caches are only that: two rings that hold the same values have the same outcomes, and
/// hold the same values afterwards, whatever the two sides have cached and whether or not they
/// go by it.
pub proof fn law_caches_do_not_show<T>(a: QueueState<T>, b: QueueState<T>, value: T)
    requires
        a.valid(),
        b.valid(),
        a.capacity == b.capacity,
        a.items == b.items,
    ensures
        a.push_back(value).1 == b.push_back(value).1,
        a.push_back(value).1 == b.push_back_no_cache(value).1,
        a.push_back(value).0.items == b.push_back(value).0.items,
        a.push_back(value).0.items == b.push_back_no_cache(value).0.items,
        a.pop_front().1 == b.pop_front().1,
        a.pop_front().1 == b.pop_front_no_cache().1,
        a.pop_front().0.items == b.pop_front().0.items,
        a.pop_front().0.items == b.pop_front_no_cache().0.items,
        a.is_full() == b.is_full(),
        a.is_empty() == b.is_empty(),
{
}

/// A cached index never promises too much: where it shows room, there is room, and where it
/// shows an item, there is one. A cached index that shows none is loaded anew, and then it shows
/// room, or an item, exactly where there is.
pub proof fn law_cached_check_is_exact<T>(state: QueueState<T>, value: T)
    requires
        state.valid(),
    ensures
        state.allows(Step::Append(value)) ==> !state.is_full(),
        state.allows(Step::Advance) ==> !state.is_empty(),
        state.look_for_room().allows(Step::Append(value)) <==> !state.is_full(),
        state.look_for_item().allows(Step::Advance) <==> !state.is_empty(),
{
}

/// A push looks for room, and appends where it finds some.
pub proof fn law_push_is_look_then_append<T>(state: QueueState<T>, value: T)
    requires
        state.valid(),
    ensures
        state.push_back(value) == (if state.look_for_room().allows(Step::Append(value)) {
            (state.look_for_room().append(value), None)
        } else {
            (state.look_for_room(), Some(value))
        }),
{
}

/// A pop looks for an item, and advances where it finds one.
pub proof fn law_pop_is_look_then_advance<T>(state: QueueState<T>)
    requires
        state.valid(),
    ensures
        state.pop_front() == (if state.look_for_item().allows(Step::Advance) {
            (state.look_for_item().advance(), Some(state.look_for_item().items[0]))
        } else {
            (state.look_for_item(), None)
        }),
{
}

/// One request of the producer leaves what belongs to the consumer as it is.
proof fn lemma_producer_request<T>(state: QueueState<T>, request: Request<T>)
    requires
        state.valid(),
        request.by_producer(),
    ensures
        state.after(request).read_idx == state.read_idx,
        state.after(request).consumer_count == state.consumer_count,
        state.delivers(request) == Seq::<T>::empty(),
{
}

/// One request of the consumer leaves what belongs to the producer as it is.
proof fn lemma_consumer_request<T>(state: QueueState<T>, request: Request<T>)
    requires
        state.valid(),
        request.by_consumer(),
    ensures
        state.after(request).write_idx() == state.write_idx(),
        state.after(request).producer_count == state.producer_count,
        state.accepts(request) == Seq::<T>::empty(),
{
}

/// Without its last request, a run of the producer is one still.
proof fn lemma_all_by_producer<T>(requests: Seq<Request<T>>)
    requires
        requests.len() > 0,
        all_by_producer(requests),
    ensures
        all_by_producer(requests.drop_last()),
        requests.last().by_producer(),
{
    assert forall|i: int| 0 <= i < requests.drop_last().len() implies (
    #[trigger] requests.drop_last()[i]).by_producer() by {
        assert(requests[i].by_producer());
    }
}

/// Without its last request, a run of the consumer is one still.
proof fn lemma_all_by_consumer<T>(requests: Seq<Request<T>>)
    requires
        requests.len() > 0,
        all_by_consumer(requests),
    ensures
        all_by_consumer(requests.drop_last()),
        requests.last().by_consumer(),
{
    assert forall|i: int| 0 <= i < requests.drop_last().len() implies (
    #[trigger] requests.drop_last()[i]).by_consumer() by {
        assert(requests[i].by_consumer());
    }
}

/// The producer keeps to what is its own: whatever it asks, the read index and what the consumer
/// has cached stay as they are, nothing is taken out, and what it adds goes behind the values
/// that are queued.
pub proof fn law_producer_keeps_to_its_own<T>(state: QueueState<T>, requests: Seq<Request<T>>)
    requires
        state.valid(),
        all_by_producer(requests),
    ensures
        run(state, requests).state.read_idx == state.read_idx,
        run(state, requests).state.consumer_count == state.consumer_count,
        run(state, requests).delivered == Seq::<T>::empty(),
        run(state, requests).state.items == state.items + run(state, requests).accepted,
    decreases requests.len(),
{
    let end = run(state, requests);
    if requests.len() > 0 {
        let before = run(state, requests.drop_last());
        lemma_all_by_producer(requests);
        law_producer_keeps_to_its_own(state, requests.drop_last());
        law_states_stay_valid(state, requests.drop_last());
        lemma_producer_request(before.state, requests.last());
        assert(before.delivered + Seq::<T>::empty() =~= Seq::<T>::empty());
    }
    law_first_in_first_out(state, requests);
    assert(end.delivered + end.state.items =~= end.state.items);
}

/// The consumer keeps to what is its own: whatever it asks, the write index and what the producer
/// has cached stay as they are, nothing is added, and what it takes out are the oldest values.
pub proof fn law_consumer_keeps_to_its_own<T>(state: QueueState<T>, requests: Seq<Request<T>>)
    requires
        state.valid(),
        all_by_consumer(requests),
    ensures
        run(state, requests).state.write_idx() == state.write_idx(),
        run(state, requests).state.producer_count == state.producer_count,
        run(state, requests).accepted == Seq::<T>::empty(),
        run(state, requests).delivered + run(state, requests).state.items == state.items,
    decreases requests.len(),
{
    let end = run(state, requests);
    if requests.len() > 0 {
        let before = run(state, requests.drop_last());
        lemma_all_by_consumer(requests);
        law_consumer_keeps_to_its_own(state, requests.drop_last());
        law_states_stay_valid(state, requests.drop_last());
        lemma_consumer_request(before.state, requests.last());
        assert(before.accepted + Seq::<T>::empty() =~= Seq::<T>::empty());
    }
    law_first_in_first_out(state, requests);
    assert(state.items + end.accepted =~= state.items);
}

/// The slot into which the next value goes holds none of the values that are queued, and two
/// queued values are never in one slot.
pub proof fn law_slots_do_not_clash<T>(state: QueueState<T>)
    requires
        state.valid(),
    ensures
        forall|k: int| 0 <= k < state.items.len() ==> #[trigger] state.slot(k) != state.write_idx(),
        forall|j: int, k: int|
            0 <= j < k < state.items.len() ==> #[trigger] state.slot(j) != #[trigger] state.slot(k),
{
}

/// Once the producer has seen that the ring is not full, a push succeeds, whatever the consumer
/// does in between.
pub proof fn law_room_stays<T>(state: QueueState<T>, requests: Seq<Request<T>>, value: T)
    requires
        state.valid(),
        !state.is_full(),
        all_by_consumer(requests),
    ensures
        !run(state, requests).state.is_full(),
        run(state, requests).state.push_back(value).1 is None,
        run(state, requests).state.push_back_no_cache(value).1 is None,
{
    let end = run(state, requests);
    law_states_stay_valid(state, requests);
    law_consumer_keeps_to_its_own(state, requests);
    assert((end.delivered + end.state.items).len() == state.items.len());
}

/// Once the consumer has seen that the ring is not empty, a pop gives the value that was the
/// oldest then, whatever the producer does in between.
pub proof fn law_item_stays<T>(state: QueueState<T>, requests: Seq<Request<T>>)
    requires
        state.valid(),
        !state.is_empty(),
        all_by_producer(requests),
    ensures
        !run(state, requests).state.is_empty(),
        run(state, requests).state.items[0] == state.items[0],
        run(state, requests).state.pop_front().1 == Some(state.items[0]),
        run(state, requests).state.pop_front_no_cache().1 == Some(state.items[0]),
{
    law_states_stay_valid(state, requests);
    law_producer_keeps_to_its_own(state, requests);
}

/// A blocking push does not wait where there is room: it does what a push does there.
pub proof fn law_blocking_push_with_room_is_push<T>(state: QueueState<T>, value: T)
    requires
        state.valid(),
        !state.is_full(),
    ensures
        state.serve(Request::PushBackBlocking(value)) == state.serve(Request::PushBack(value)),
        state.serve(Request::PushBackBlocking(value)).1 == Call::<T>::Answered(
            Reply::Pushed(None),
        ),
        state.serve(Request::PushBackBlocking(value)).0.items == state.items.push(value),
{
}

/// A blocking pop does not wait where there is a value: it does what a pop does there, and
/// returns the oldest value.
pub proof fn law_blocking_pop_with_item_is_pop<T>(state: QueueState<T>)
    requires
        state.valid(),
        !state.is_empty(),
    ensures
        state.serve(Request::PopFrontBlocking) == state.serve(Request::PopFront),
        state.serve(Request::PopFrontBlocking).1 == Call::Answered(
            Reply::Popped(Some(state.items[0])),
        ),
        state.serve(Request::PopFrontBlocking).0.items == state.items.drop_first(),
{
    assert(state.items.skip(1) =~= state.items.drop_first());
}

/// A blocking push comes to an end only by queueing its value, once, behind all others, in a
/// state with room. Nothing that is queued is overwritten.
pub proof fn law_blocking_push_ends_when_queued<T>(state: QueueState<T>, value: T)
    requires
        state.valid(),
        state.serve(Request::PushBackBlocking(value)).1 is Answered,
    ensures
        !state.is_full(),
        state.serve(Request::PushBackBlocking(value)).0.items == state.items.push(value),
{
}

/// A blocking pop comes to an end only by taking out the oldest value, in a state that has one.
pub proof fn law_blocking_pop_ends_when_received<T>(state: QueueState<T>)
    requires
        state.valid(),
        state.serve(Request::PopFrontBlocking).1 is Answered,
    ensures
        !state.is_empty(),
        state.serve(Request::PopFrontBlocking).1 == Call::Answered(
            Reply::Popped(Some(state.items[0])),
        ),
{
}

/// A blocking push on a full ring waits as long as nothing is taken out, whatever else is asked
/// meanwhile. Once it ends, a value has been taken out since it began.
pub proof fn law_blocking_push_waits_while_full<T>(
    state: QueueState<T>,
    requests: Seq<Request<T>>,
    value: T,
)
    requires
        state.valid(),
        state.is_full(),
    ensures
        run(state, requests).delivered.len() == 0 ==> run(state, requests).state.serve(
            Request::PushBackBlocking(value),
        ).1 == Call::Asked(Request::PushBackBlocking(value)),
        run(state, requests).state.serve(Request::PushBackBlocking(value)).1 is Answered ==> run(
            state,
            requests,
        ).delivered.len() > 0,
{
    if run(state, requests).delivered.len() == 0 {
        law_full_ring_keeps_refusing(state, requests, value);
    }
}

/// A blocking pop on an empty ring waits as long as nothing is accepted, whatever else is asked
/// meanwhile. Once it ends, a value has been accepted since it began.
pub proof fn law_blocking_pop_waits_while_empty<T>(
    state: QueueState<T>,
    requests: Seq<Request<T>>,
)
    requires
        state.valid(),
        state.is_empty(),
    ensures
        run(state, requests).accepted.len() == 0 ==> run(state, requests).state.serve(
            Request::PopFrontBlocking,
        ).1 == Call::<T>::Asked(Request::PopFrontBlocking),
        run(state, requests).state.serve(Request::PopFrontBlocking).1 is Answered ==> run(
            state,
            requests,
        ).accepted.len() > 0,
{
    if run(state, requests).accepted.len() == 0 {
        law_empty_ring_keeps_giving_nothing(state, requests);
    }
}

/// A producer that waits because the ring is full is answered at the next attempt once the
/// consumer, by whichever requests, has taken something out.
pub proof fn law_pop_ends_wait_of_producer<T>(
    state: QueueState<T>,
    requests: Seq<Request<T>>,
    value: T,
)
    requires
        state.valid(),
        state.is_full(),
        all_by_consumer(requests),
        run(state.after(Request::PushBackBlocking(value)), requests).delivered.len() > 0,
    ensures
        run(state.after(Request::PushBackBlocking(value)), requests).state.serve(
            Request::PushBackBlocking(value),
        ).1 == Call::<T>::Answered(Reply::Pushed(None)),
{
    let waiting = state.after(Request::PushBackBlocking(value));
    let end = run(waiting, requests);
    lemma_step(state, Request::PushBackBlocking(value));
    law_states_stay_valid(waiting, requests);
    law_consumer_keeps_to_its_own(waiting, requests);
    assert((end.delivered + end.state.items).len() == waiting.items.len());
}

/// A consumer that waits because the ring is empty is answered at the next attempt once the
/// producer, by whichever requests, has queued something, with the first value that it queued.
pub proof fn law_push_ends_wait_of_consumer<T>(state: QueueState<T>, requests: Seq<Request<T>>)
    requires
        state.valid(),
        state.is_empty(),
        all_by_producer(requests),
        run(state.after(Request::PopFrontBlocking), requests).accepted.len() > 0,
    ensures
        run(state.after(Request::PopFrontBlocking), requests).state.serve(
            Request::PopFrontBlocking,
        ).1 == Call::Answered(
            Reply::Popped(Some(run(state.after(Request::PopFrontBlocking), requests).accepted[0])),
        ),
{
    let waiting = state.after(Request::PopFrontBlocking);
    let end = run(waiting, requests);
    lemma_step(state, Request::PopFrontBlocking);
    law_states_stay_valid(waiting, requests);
    law_producer_keeps_to_its_own(waiting, requests);
    assert(end.state.items =~= end.accepted);
}

/// An attempt that has to wait leaves the request as it was asked, and what is queued as it was:
/// it may be repeated.
pub proof fn law_failed_attempt_changes_nothing<T>(state: QueueState<T>, request: Request<T>)
    requires
        state.valid(),
        state.serve(request).1 is Asked,
    ensures
        state.serve(request).1 == Call::Asked(request),
        state.serve(request).0.items == state.items,
{
}

/// One request changes a ring the same way whatever the values are.
proof fn lemma_shape_of_request<T>(state: QueueState<T>, request: Request<T>)
    requires
        state.valid(),
    ensures
        state.after(request).shape() == state.shape().after(request.kind()),
{
    assert(state.after(request).shape() =~= state.shape().after(request.kind()));
}

/// The values decide nothing: the kinds of the requests alone say how many values are queued
/// after a run, and so whether the ring is full or empty then, and what the two sides know of
/// it.
pub proof fn law_kinds_decide_all_but_values<T>(start: QueueState<T>, requests: Seq<Request<T>>)
    requires
        start.valid(),
    ensures
        run(start, requests).state.shape() == run(start.shape(), kinds(requests)).state,
        run(start, requests).state.is_full() == run(start.shape(), kinds(requests)).state.is_full(),
        run(start, requests).state.is_empty() == run(
            start.shape(),
            kinds(requests),
        ).state.is_empty(),
    decreases requests.len(),
{
    if requests.len() > 0 {
        law_kinds_decide_all_but_values(start, requests.drop_last());
        law_states_stay_valid(start, requests.drop_last());
        lemma_shape_of_request(run(start, requests.drop_last()).state, requests.last());
        assert(kinds(requests).drop_last() =~= kinds(requests.drop_last()));
        assert(kinds(requests).last() == requests.last().kind());
    }
}

/// A state that arises by requests of the given kinds has the shape that these kinds decide.
pub proof fn law_arising_state_has_shape<T>(
    state: QueueState<T>,
    capacity: nat,
    kinds_asked: Seq<Request<()>>,
)
    requires
        state.arises(capacity, kinds_asked),
    ensures
        state.shape() == run(QueueState::<()>::empty(capacity), kinds_asked).state,
{
    let empty = QueueState::<T>::empty(capacity);
    let requests = choose|requests: Seq<Request<T>>|
        kinds(requests) == kinds_asked && #[trigger] run(empty, requests).state == state;
    assert(empty.valid());
    law_kinds_decide_all_but_values(empty, requests);
    assert(empty.shape() =~= QueueState::<()>::empty(capacity));
}

/// A push that is refused met the ring full: by what had been asked of this very ring before, it
/// held as many values as it has slots but one. A push that succeeds met it with room.
pub proof fn law_refusal_means_full<T>(
    buffer: RingBuffer<T>,
    n: int,
    kind: Request<()>,
    met: QueueState<T>,
    value: T,
)
    requires
        buffer.meets(n, kind, met),
    ensures
        met.push_back(value).1 is Some <==> run(
            QueueState::<()>::empty(buffer.capacity()),
            buffer.served().take(n),
        ).state.is_full(),
        met.push_back(value).1 is None ==> met.push_back(value).0.items == met.items.push(value),
{
    assert(met.shape().items.len() == met.items.len());
}

/// A pop that gives nothing met the ring empty, by what had been asked of this very ring before.
/// A pop that gives a value gives the oldest.
pub proof fn law_nothing_means_empty<T>(
    buffer: RingBuffer<T>,
    n: int,
    kind: Request<()>,
    met: QueueState<T>,
)
    requires
        buffer.meets(n, kind, met),
    ensures
        met.pop_front().1 is None <==> run(
            QueueState::<()>::empty(buffer.capacity()),
            buffer.served().take(n),
        ).state.is_empty(),
        met.pop_front().1 is Some ==> met.pop_front().1 == Some(met.items[0]),
{
    assert(met.shape().items.len() == met.items.len());
}

/// Where a call tells that the other side was woken, `Condvar::notify_one` was called on the
/// condition variable of this very ring.
pub proof fn law_woken_side_was_notified<T>(buffer: RingBuffer<T>, n: int)
    requires
        buffer.woken(n),
    ensures
        buffer.notified(),
{
    buffer.lemma_woken_is_notified(n);
}

/// Whether the attempt at place `i` of `requests`, from `start` on, queues a value or takes one
/// out.
pub open spec fn moves_at<T>(start: QueueState<T>, requests: Seq<Request<T>>, i: int) -> bool {
    match run(start, requests.take(i)).state.serve(requests[i]).1 {
        Call::Answered(reply) => reply.moves_a_value(),
        Call::Asked(_) => false,
    }
}

/// A request that had to wait can be answered only after a value was queued or taken out, by the
/// other side. So a side that is woken whenever the other side moves a value misses nothing.
pub proof fn law_only_moved_values_end_waits<T>(
    state: QueueState<T>,
    requests: Seq<Request<T>>,
    waiting: Request<T>,
)
    requires
        state.valid(),
        state.serve(waiting).1 is Asked,
        run(state, requests).state.serve(waiting).1 is Answered,
    ensures
        exists|i: int|
            0 <= i < requests.len() && #[trigger] moves_at(state, requests, i)
                && requests[i].by_producer() != waiting.by_producer(),
    decreases requests.len(),
{
    if requests.len() > 0 {
        let fewer = requests.drop_last();
        let before = run(state, fewer).state;
        law_states_stay_valid(state, fewer);
        if before.serve(waiting).1 is Answered {
            law_only_moved_values_end_waits(state, fewer, waiting);
            let i = choose|i: int|
                0 <= i < fewer.len() && #[trigger] moves_at(state, fewer, i)
                    && fewer[i].by_producer() != waiting.by_producer();
            assert(fewer.take(i) =~= requests.take(i));
            assert(moves_at(state, requests, i));
        } else {
            let i = requests.len() - 1;
            assert(requests.take(i) =~= fewer);
            lemma_moving_request(before, requests[i], waiting);
            assert(moves_at(state, requests, i));
        }
    }
}

/// A request after which another one no longer has to wait moves a value.
proof fn lemma_moving_request<T>(state: QueueState<T>, request: Request<T>, waiting: Request<T>)
    requires
        state.valid(),
        state.serve(waiting).1 is Asked,
        state.after(request).serve(waiting).1 is Answered,
    ensures
        request.by_producer() != waiting.by_producer(),
        state.serve(request).1 is Answered,
        (state.serve(request).1->Answered_0).moves_a_value(),
{
    if waiting is PushBackBlocking {
        assert(state.is_full());
        assert(!state.after(request).is_full());
    } else {
        assert(waiting is PopFrontBlocking);
        assert(state.is_empty());
        assert(!state.after(request).is_empty());
    }
}

/// Each kind of request takes a right of its own. A function that is held to the right of one
/// kind can make attempts of that kind only.
pub proof fn law_rights_tell_kinds_apart<T>(a: Request<T>, b: Request<T>)
    ensures
        a.right() == b.right() <==> a.kind() == b.kind(),
        a.right() == a.kind().right(),
{
}

/// Only what the consumer asks takes values out, and only what the producer asks adds any.
pub proof fn law_each_side_moves_its_way<T>(state: QueueState<T>, request: Request<T>)
    requires
        state.valid(),
    ensures
        state.delivers(request).len() > 0 ==> request.by_consumer(),
        state.accepts(request).len() > 0 ==> request.by_producer(),
        request is IsFull || request is IsEmpty ==> state.after(request).items == state.items,
{
}

/// A blocking push loses nothing: whatever attempts it makes, the values that were queued stay
/// where they are, in their order, and none is taken out. On a full ring all its attempts leave
/// the queue as it was.
pub proof fn law_blocking_push_loses_nothing<T>(state: QueueState<T>, requests: Seq<Request<T>>)
    requires
        state.valid(),
        forall|i: int| 0 <= i < requests.len() ==> (#[trigger] requests[i]) is PushBackBlocking,
    ensures
        run(state, requests).delivered.len() == 0,
        state.items.is_prefix_of(run(state, requests).state.items),
        state.is_full() ==> run(state, requests).state.items == state.items,
{
    let end = run(state, requests);
    assert(all_by_producer(requests));
    law_producer_keeps_to_its_own(state, requests);
    assert(end.state.items.take(state.items.len() as int) =~= state.items);
    if state.is_full() {
        law_states_stay_valid(state, requests);
        assert(end.state.items =~= state.items);
    }
}

/// Two receives in a row give the two oldest values in the order in which they were sent,
/// whatever the producer asks before, between and after, and whichever way of receiving is used.
pub proof fn law_two_receives_come_in_order<T>(
    state: QueueState<T>,
    first: Request<T>,
    between: Seq<Request<T>>,
    second: Request<T>,
)
    requires
        state.valid(),
        state.items.len() >= 2,
        first is PopFront || first is PopFrontNoCache || first is PopFrontBlocking,
        second is PopFront || second is PopFrontNoCache || second is PopFrontBlocking,
        all_by_producer(between),
    ensures
        state.serve(first).1 == Call::Answered(Reply::Popped(Some(state.items[0]))),
        run(state.after(first), between).state.serve(second).1 == Call::Answered(
            Reply::Popped(Some(state.items[1])),
        ),
{
    lemma_step(state, first);
    law_item_stays(state.after(first), between);
    assert(state.after(first).items[0] == state.items[1]);
}

/// A send leaves the front of the queue alone: a receive after it gives what it would have given
/// before, or the value that was sent where there was none before.
pub proof fn law_send_leaves_the_front_alone<T>(state: QueueState<T>, send: Request<T>, value: T)
    requires
        state.valid(),
        send == Request::PushBack(value) || send == Request::PushBackNoCache(value) || send
            == Request::PushBackBlocking(value),
    ensures
        state.after(send).pop_front().1 == (if state.is_empty() {
            Some(value)
        } else {
            state.pop_front().1
        }),
        forall|k: int|
            0 <= k < state.items.len() ==> #[trigger] state.after(send).items[k] == state.items[k],
        !state.is_full() ==> state.after(send).items.last() == value,
{
}

/// Of two values sent one after the other, with any receives in between, the second stands behind
/// all others, and right behind the first as long as that is queued.
pub proof fn law_two_sends_stand_in_order<T>(
    state: QueueState<T>,
    first: T,
    between: Seq<Request<T>>,
    second: T,
)
    requires
        state.valid(),
        !state.is_full(),
        all_by_consumer(between),
        !run(state.push_back(first).0, between).state.is_full(),
    ensures
        ({
            let queued = run(state.push_back(first).0, between).state;
            let items = queued.push_back(second).0.items;
            &&& items.last() == second
            &&& queued.items.len() > 0 ==> items[items.len() - 2] == first
        }),
{
    let sent = state.push_back(first).0;
    let end = run(sent, between);
    law_consumer_keeps_to_its_own(sent, between);
    if end.state.items.len() > 0 {
        assert((end.delivered + end.state.items).last() == end.state.items.last());
        assert(sent.items.last() == first);
    }
}

/// Asking whether the ring is empty tells what a receive gives, takes nothing out, and can be
/// repeated; asking whether it is full tells what a send does.
pub proof fn law_questions_tell_what_comes<T>(state: QueueState<T>, value: T)
    requires
        state.valid(),
    ensures
        state.serve(Request::IsEmpty).1 == Call::<T>::Answered(
            Reply::Found(state.pop_front().1 is None),
        ),
        state.after(Request::IsEmpty).items == state.items,
        state.after(Request::IsEmpty).serve(Request::IsEmpty).1 == state.serve(Request::IsEmpty).1,
        state.serve(Request::IsFull).1 == Call::<T>::Answered(
            Reply::Found(state.push_back(value).1 is Some),
        ),
        state.after(Request::IsFull).items == state.items,
        state.after(Request::IsFull).serve(Request::IsFull).1 == state.serve(Request::IsFull).1,
{
}

/// A run in two parts comes to what the second part makes of what the first has led to.
proof fn lemma_run_in_parts<T>(
    start: QueueState<T>,
    first: Seq<Request<T>>,
    second: Seq<Request<T>>,
)
    ensures
        run(start, first + second).state == run(run(start, first).state, second).state,
    decreases second.len(),
{
    if second.len() > 0 {
        lemma_run_in_parts(start, first, second.drop_last());
        assert((first + second).drop_last() =~= first + second.drop_last());
        assert((first + second).last() == second.last());
    } else {
        assert(first + second =~= first);
    }
}

/// The state at place `m` of a run is what the attempt at place `n` before it, and those in
/// between, have made of the state at place `n`.
proof fn lemma_from_place_to_place(
    start: QueueState<()>,
    served: Seq<Request<()>>,
    n: int,
    m: int,
)
    requires
        0 <= n < m < served.len(),
    ensures
        run(start, served.take(m)).state == run(
            run(start, served.take(n)).state.after(served[n]),
            served.subrange(n + 1, m),
        ).state,
{
    let upto = served.take(n + 1);
    assert(upto.drop_last() =~= served.take(n));
    assert(upto.last() == served[n]);
    assert(served.take(m) =~= upto + served.subrange(n + 1, m));
    lemma_run_in_parts(start, upto, served.subrange(n + 1, m));
}

/// Of two calls on one channel: where `is_full` found room, the next send succeeds, provided that
/// the consumer alone has asked anything in between.
pub proof fn law_send_succeeds_after_room_was_found<T>(
    buffer: RingBuffer<T>,
    n: int,
    asked: QueueState<T>,
    m: int,
    send: Request<()>,
    met: QueueState<T>,
    value: T,
)
    requires
        buffer.meets(n, Request::IsFull, asked),
        buffer.meets(m, send, met),
        n < m,
        all_by_consumer(buffer.served().subrange(n + 1, m)),
        !asked.is_full(),
    ensures
        met.push_back(value).1 is None,
        met.push_back_no_cache(value).1 is None,
{
    let empty = QueueState::<()>::empty(buffer.capacity());
    let served = buffer.served();
    assert(asked.shape().items.len() == asked.items.len());
    assert(met.shape().items.len() == met.items.len());
    assert(asked.shape().valid());
    lemma_from_place_to_place(empty, served, n, m);
    lemma_step(asked.shape(), served[n]);
    law_room_stays(asked.shape().after(served[n]), served.subrange(n + 1, m), ());
}

/// Of two calls on one channel: where `is_empty` found a value, the next receive gives one,
/// provided that the producer alone has asked anything in between.
pub proof fn law_receive_succeeds_after_item_was_found<T>(
    buffer: RingBuffer<T>,
    n: int,
    asked: QueueState<T>,
    m: int,
    receive: Request<()>,
    met: QueueState<T>,
)
    requires
        buffer.meets(n, Request::IsEmpty, asked),
        buffer.meets(m, receive, met),
        n < m,
        all_by_producer(buffer.served().subrange(n + 1, m)),
        !asked.is_empty(),
    ensures
        met.pop_front().1 is Some,
        met.pop_front_no_cache().1 is Some,
{
    let empty = QueueState::<()>::empty(buffer.capacity());
    let served = buffer.served();
    assert(asked.shape().items.len() == asked.items.len());
    assert(met.shape().items.len() == met.items.len());
    assert(asked.shape().valid());
    lemma_from_place_to_place(empty, served, n, m);
    lemma_step(asked.shape(), served[n]);
    law_item_stays(asked.shape().after(served[n]), served.subrange(n + 1, m));
}

/// Of two receives on one channel, with nothing but sends in between: where the first met two
/// values or more, the second gives a value too, and meets exactly one value fewer than the
/// first, but for what was sent in between.
pub proof fn law_receive_takes_one_out<T>(
    buffer: RingBuffer<T>,
    n: int,
    first: QueueState<T>,
    m: int,
    second: QueueState<T>,
)
    requires
        buffer.meets(n, Request::PopFront, first),
        buffer.meets(m, Request::PopFront, second),
        n < m,
        all_by_producer(buffer.served().subrange(n + 1, m)),
        first.items.len() > 0,
    ensures
        ({
            let sent = run(
                first.shape().after(Request::PopFront),
                buffer.served().subrange(n + 1, m),
            ).accepted.len();
            second.items.len() == first.items.len() - 1 + sent
        }),
        first.items.len() >= 2 ==> second.pop_front().1 is Some,
{
    let empty = QueueState::<()>::empty(buffer.capacity());
    let served = buffer.served();
    let between = served.subrange(n + 1, m);
    let left = first.shape().after(Request::PopFront);
    assert(first.shape().items.len() == first.items.len());
    assert(second.shape().items.len() == second.items.len());
    assert(first.shape().valid());
    lemma_from_place_to_place(empty, served, n, m);
    lemma_step(first.shape(), Request::PopFront);
    law_producer_keeps_to_its_own(left, between);
}

/// A new ring is empty and not full, and has room for exactly as many values as it has slots but
/// one: it accepts that many, whichever they are, and refuses the next. It is in the state that
/// arises by no request.
pub proof fn law_new_ring_has_room_for_all_but_one<T>(capacity: nat, values: Seq<T>, next: T)
    requires
        capacity > 1,
        values.len() == capacity - 1,
    ensures
        QueueState::<T>::empty(capacity).arises(capacity, seq![]),
        QueueState::<T>::empty(capacity).is_empty(),
        !QueueState::<T>::empty(capacity).is_full(),
        run(QueueState::empty(capacity), pushes(values)).accepted == values,
        run(QueueState::empty(capacity), pushes(values)).state.push_back(next).1 == Some(next),
{
    let empty = QueueState::<T>::empty(capacity);
    assert(run(empty, Seq::<Request<T>>::empty()).state == empty);
    assert(kinds(Seq::<Request<T>>::empty()) =~= seq![]);
    law_all_but_one_slot_can_be_used(empty, values, next);
}

/// A request in a state that arises leads to one that arises by that request more.
pub proof fn law_request_adds_its_kind<T>(
    capacity: nat,
    kinds_asked: Seq<Request<()>>,
    state: QueueState<T>,
    request: Request<T>,
)
    requires
        state.arises(capacity, kinds_asked),
    ensures
        state.after(request).arises(capacity, kinds_asked.push(request.kind())),
{
    let empty = QueueState::<T>::empty(capacity);
    let requests = choose|requests: Seq<Request<T>>|
        kinds(requests) == kinds_asked && #[trigger] run(empty, requests).state == state;
    lemma_step(state, request);
    assert(requests.push(request).drop_last() =~= requests);
    assert(kinds(requests.push(request)) =~= kinds_asked.push(request.kind()));
    assert(run(empty, requests.push(request)).state == state.after(request));
}

/// One step that a side takes keeps the state valid and the capacity as it is; what was there and
/// what was accepted is what was delivered and what is there.
proof fn lemma_part<T>(state: QueueState<T>, step: Step<T>)
    requires
        state.valid(),
        state.allows(step),
    ensures
        state.after_step(step).valid(),
        state.after_step(step).capacity == state.capacity,
        state.items + state.step_accepts(step) == state.step_delivers(step) + state.after_step(
            step,
        ).items,
{
    assert(state.items + state.step_accepts(step) =~= state.step_delivers(step) + state.after_step(
        step,
    ).items);
}

/// First in, first out holds step by step too: the two sides may come in between the steps of
/// each other's pushes and pops in any way, each going by what it has cached. The order of the
/// queue does not hang on a push or a pop being carried out as a whole.
pub proof fn law_steps_first_in_first_out<T>(start: QueueState<T>, steps: Seq<Step<T>>)
    requires
        start.valid(),
        allowed(start, steps),
    ensures
        run_steps(start, steps).state.valid(),
        run_steps(start, steps).state.capacity == start.capacity,
        start.items + run_steps(start, steps).accepted == run_steps(start, steps).delivered
            + run_steps(start, steps).state.items,
    decreases steps.len(),
{
    let after = run_steps(start, steps);
    if steps.len() > 0 {
        let shorter = steps.drop_last();
        let before = run_steps(start, shorter);
        let step = steps.last();
        assert(allowed(start, shorter)) by {
            assert forall|i: int| 0 <= i < shorter.len() implies run_steps(
                start,
                shorter.take(i),
            ).state.allows(#[trigger] shorter[i]) by {
                assert(shorter.take(i) =~= steps.take(i));
                assert(shorter[i] == steps[i]);
            }
        }
        law_steps_first_in_first_out(start, shorter);
        assert(steps.take(steps.len() - 1) =~= shorter);
        assert(before.state.allows(steps[steps.len() - 1]));
        lemma_part(before.state, step);
        calc! {
            (==)
            start.items + after.accepted; {
                assert(start.items + (before.accepted + before.state.step_accepts(step)) =~= (
                start.items + before.accepted) + before.state.step_accepts(step));
            }
            (before.delivered + before.state.items) + before.state.step_accepts(step); {
                assert((before.delivered + before.state.items) + before.state.step_accepts(step)
                    =~= before.delivered + (before.state.items + before.state.step_accepts(step)));
            }
            before.delivered + (before.state.step_delivers(step) + after.state.items); {
                assert(before.delivered + (before.state.step_delivers(step) + after.state.items)
                    =~= after.delivered + after.state.items);
            }
            after.delivered + after.state.items;
        }
    } else {
        assert(start.items + after.accepted =~= after.delivered + after.state.items);
    }
}

/// In the middle of a push the producer has found room in slot `write_idx`. No step of the
/// consumer takes that verdict back, moves that slot, or makes it one that the consumer reads.
pub proof fn law_producer_verdict_stands<T>(state: QueueState<T>, step: Step<T>, value: T)
    requires
        state.valid(),
        state.allows(Step::Append(value)),
        step.by_consumer(),
        state.allows(step),
    ensures
        state.after_step(step).valid(),
        state.after_step(step).allows(Step::Append(value)),
        state.after_step(step).write_idx() == state.write_idx(),
        forall|k: int|
            0 <= k < state.after_step(step).items.len() ==> #[trigger] state.after_step(step).slot(
                k,
            ) != state.write_idx(),
{
}

/// In the middle of a pop the consumer has found an item in slot `read_idx`. No step of the
/// producer takes that verdict back, moves that slot, changes the value in it, or puts a value
/// into it.
pub proof fn law_consumer_verdict_stands<T>(state: QueueState<T>, step: Step<T>)
    requires
        state.valid(),
        state.allows(Step::Advance),
        step.by_producer(),
        state.allows(step),
    ensures
        state.after_step(step).valid(),
        state.after_step(step).allows(Step::Advance),
        state.after_step(step).read_idx == state.read_idx,
        state.after_step(step).items[0] == state.items[0],
        state.write_idx() != state.read_idx,
{
}

} // verus!
