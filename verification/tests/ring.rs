use std::cell::RefCell;
use std::rc::Rc;

use spsc_rigtorp::state::{Call, Reply, Request};
use spsc_rigtorp::Ring;

#[test]
fn new_ring_is_empty() {
    let mut ring: Ring<u32> = Ring::new(4);
    assert!(ring.is_empty());
    assert!(!ring.is_full());
    assert_eq!(ring.pop_front(), None);
    assert_eq!(ring.pop_front_no_cache(), None);
}

#[test]
fn all_slots_but_one_hold_a_value() {
    for capacity in 2..20 {
        let mut ring = Ring::new(capacity);
        for i in 0..capacity - 1 {
            assert!(!ring.is_full());
            assert_eq!(ring.push_back(i), None);
        }
        assert!(ring.is_full());
        assert!(!ring.is_empty());
        assert_eq!(ring.push_back(1000), Some(1000));
        assert_eq!(ring.push_back_no_cache(2000), Some(2000));
        for i in 0..capacity - 1 {
            assert!(!ring.is_empty());
            assert_eq!(ring.pop_front(), Some(i));
        }
        assert!(ring.is_empty());
        assert_eq!(ring.pop_front(), None);
    }
}

#[test]
fn indices_wrap_around() {
    let mut ring = Ring::new(3);
    for i in 0..100 {
        assert_eq!(ring.push_back(2 * i), None);
        assert_eq!(ring.push_back(2 * i + 1), None);
        assert_eq!(ring.push_back(999), Some(999));
        assert_eq!(ring.pop_front(), Some(2 * i));
        assert_eq!(ring.pop_front(), Some(2 * i + 1));
        assert_eq!(ring.pop_front(), None);
    }
}

#[test]
fn room_once_seen_stays() {
    let mut ring = Ring::new(3);
    assert_eq!(ring.push_back(1), None);
    assert!(!ring.is_full());
    assert_eq!(ring.pop_front(), Some(1));
    assert_eq!(ring.pop_front(), None);
    assert!(ring.is_empty());
    assert_eq!(ring.push_back(2), None);
}

#[test]
fn item_once_seen_stays() {
    let mut ring = Ring::new(3);
    assert_eq!(ring.push_back(1), None);
    assert!(!ring.is_empty());
    assert_eq!(ring.push_back(2), None);
    assert_eq!(ring.push_back(3), Some(3));
    assert!(ring.is_full());
    assert_eq!(ring.pop_front(), Some(1));
}

// The first pushes go by the read index 0. The push that does not go by the cache then carries
// the write index past it: a stale 0 would show room that is not there.
#[test]
fn cached_and_uncached_pushes_mix() {
    let mut ring = Ring::new(4);
    assert_eq!(ring.push_back(1), None);
    assert_eq!(ring.push_back(2), None);
    assert_eq!(ring.push_back(3), None);
    assert_eq!(ring.pop_front(), Some(1));
    assert_eq!(ring.pop_front(), Some(2));
    assert_eq!(ring.push_back_no_cache(4), None);
    assert_eq!(ring.push_back(5), None);
    assert_eq!(ring.push_back(6), Some(6));
    assert_eq!(ring.push_back_no_cache(7), Some(7));
    assert_eq!(ring.pop_front(), Some(3));
    assert_eq!(ring.pop_front(), Some(4));
    assert_eq!(ring.pop_front(), Some(5));
    assert_eq!(ring.pop_front(), None);
}

// The consumer caches the write index 2. The pops that do not go by the cache then carry the read
// index past it: a stale 2 would show items that are not there.
#[test]
fn cached_and_uncached_pops_mix() {
    let mut ring = Ring::new(4);
    assert_eq!(ring.push_back(1), None);
    assert_eq!(ring.push_back(2), None);
    assert_eq!(ring.pop_front(), Some(1));
    assert_eq!(ring.push_back(3), None);
    assert_eq!(ring.pop_front_no_cache(), Some(2));
    assert_eq!(ring.pop_front_no_cache(), Some(3));
    assert_eq!(ring.pop_front(), None);
    assert!(ring.is_empty());
    assert_eq!(ring.push_back(4), None);
    assert_eq!(ring.pop_front(), Some(4));
}

// Runs every operation in a fixed irregular order beside a plain list.
#[test]
fn ring_behaves_like_a_bounded_list() {
    for capacity in 2..9 {
        let mut ring = Ring::new(capacity);
        let mut list: Vec<u32> = Vec::new();
        let mut seed: u32 = 12345;
        for value in 0..5000u32 {
            seed = seed.wrapping_mul(1664525).wrapping_add(1013904223);
            let full = list.len() == capacity - 1;
            match (seed >> 16) % 6 {
                0 => {
                    let refused = ring.push_back(value);
                    assert_eq!(refused, if full { Some(value) } else { None });
                    if !full {
                        list.push(value);
                    }
                }
                1 => {
                    let refused = ring.push_back_no_cache(value);
                    assert_eq!(refused, if full { Some(value) } else { None });
                    if !full {
                        list.push(value);
                    }
                }
                2 => {
                    let expected = if list.is_empty() { None } else { Some(list.remove(0)) };
                    assert_eq!(ring.pop_front(), expected);
                }
                3 => {
                    let expected = if list.is_empty() { None } else { Some(list.remove(0)) };
                    assert_eq!(ring.pop_front_no_cache(), expected);
                }
                4 => assert_eq!(ring.is_full(), full),
                _ => assert_eq!(ring.is_empty(), list.is_empty()),
            }
        }
    }
}

#[test]
fn each_request_gets_its_answer() {
    let mut ring = Ring::new(3);
    let mut call = Call::Asked(Request::IsEmpty);
    assert!(!ring.serve(&mut call));
    assert!(matches!(call, Call::Answered(Reply::Found(true))));
    let mut call = Call::Asked(Request::PopFront);
    assert!(!ring.serve(&mut call));
    assert!(matches!(call, Call::Answered(Reply::Popped(None))));
    let mut call = Call::Asked(Request::PushBack(1));
    assert!(!ring.serve(&mut call));
    assert!(matches!(call, Call::Answered(Reply::Pushed(None))));
    let mut call = Call::Asked(Request::PushBackNoCache(2));
    assert!(!ring.serve(&mut call));
    assert!(matches!(call, Call::Answered(Reply::Pushed(None))));
    let mut call = Call::Asked(Request::IsFull);
    assert!(!ring.serve(&mut call));
    assert!(matches!(call, Call::Answered(Reply::Found(true))));
    let mut call = Call::Asked(Request::PushBack(3));
    assert!(!ring.serve(&mut call));
    assert!(matches!(call, Call::Answered(Reply::Pushed(Some(3)))));
    let mut call = Call::Asked(Request::PopFront);
    assert!(!ring.serve(&mut call));
    assert!(matches!(call, Call::Answered(Reply::Popped(Some(1)))));
    let mut call = Call::Asked(Request::PopFrontNoCache);
    assert!(!ring.serve(&mut call));
    assert!(matches!(call, Call::Answered(Reply::Popped(Some(2)))));
}

#[test]
fn answered_call_is_left_alone() {
    let mut ring = Ring::new(3);
    assert_eq!(ring.push_back(1), None);
    let mut call = Call::Answered(Reply::Popped(Some(7)));
    assert!(!ring.serve(&mut call));
    assert!(matches!(call, Call::Answered(Reply::Popped(Some(7)))));
    assert_eq!(ring.pop_front(), Some(1));
    assert_eq!(ring.pop_front(), None);
}

#[test]
fn blocking_requests_are_answered_at_once_where_they_can_be() {
    let mut ring = Ring::new(4);
    let mut call = Call::Asked(Request::PushBackBlocking(1));
    assert!(!ring.serve(&mut call));
    assert!(matches!(call, Call::Answered(Reply::Pushed(None))));
    let mut call = Call::Asked(Request::PushBackBlocking(2));
    assert!(!ring.serve(&mut call));
    let mut call = Call::Asked(Request::PopFrontBlocking);
    assert!(!ring.serve(&mut call));
    assert!(matches!(call, Call::Answered(Reply::Popped(Some(1)))));
    assert_eq!(ring.pop_front(), Some(2));
}

#[test]
fn pop_serves_a_waiting_producer() {
    let mut ring = Ring::new(2);
    assert_eq!(ring.push_back(1), None);
    let mut call = Call::Asked(Request::PushBackBlocking(2));
    assert!(ring.serve(&mut call));
    assert!(matches!(call, Call::Asked(Request::PushBackBlocking(2))));
    assert_eq!(ring.push_back(3), Some(3));
    assert!(ring.serve(&mut call));
    assert_eq!(ring.pop_front(), Some(1));
    assert!(!ring.serve(&mut call));
    assert!(matches!(call, Call::Answered(Reply::Pushed(None))));
    assert_eq!(ring.pop_front(), Some(2));
    assert_eq!(ring.pop_front(), None);
}

#[test]
fn push_serves_a_waiting_consumer() {
    let mut ring = Ring::new(2);
    let mut call = Call::Asked(Request::PopFrontBlocking);
    assert!(ring.serve(&mut call));
    assert!(matches!(call, Call::Asked(Request::PopFrontBlocking)));
    assert!(ring.is_empty());
    assert!(ring.serve(&mut call));
    assert_eq!(ring.push_back(5), None);
    assert!(!ring.serve(&mut call));
    assert!(matches!(call, Call::Answered(Reply::Popped(Some(5)))));
    assert!(ring.is_empty());
}

#[test]
fn full_ring_keeps_refusing() {
    let mut ring = Ring::new(3);
    assert_eq!(ring.push_back(1), None);
    assert_eq!(ring.push_back(2), None);
    for value in 10..20 {
        assert_eq!(ring.push_back(value), Some(value));
        assert_eq!(ring.push_back_no_cache(value), Some(value));
        assert!(ring.is_full());
    }
    assert_eq!(ring.pop_front(), Some(1));
    assert_eq!(ring.pop_front(), Some(2));
    for _ in 0..10 {
        assert_eq!(ring.pop_front(), None);
        assert_eq!(ring.pop_front_no_cache(), None);
        assert!(ring.is_empty());
    }
}

struct Logged {
    number: u32,
    log: Rc<RefCell<Vec<u32>>>,
}

impl Drop for Logged {
    fn drop(&mut self) {
        self.log.borrow_mut().push(self.number);
    }
}

#[test]
fn leftovers_are_dropped_oldest_first() {
    let log = Rc::new(RefCell::new(Vec::new()));
    {
        let mut ring = Ring::new(3);
        assert!(ring.push_back(Logged { number: 1, log: log.clone() }).is_none());
        assert!(ring.push_back(Logged { number: 2, log: log.clone() }).is_none());
        drop(ring.pop_front());
        assert!(ring.push_back(Logged { number: 3, log: log.clone() }).is_none());
        drop(ring.pop_front());
        assert!(ring.push_back(Logged { number: 4, log: log.clone() }).is_none());
        assert_eq!(*log.borrow(), vec![1, 2]);
    }
    assert_eq!(*log.borrow(), vec![1, 2, 3, 4]);
}

#[test]
fn drained_ring_can_be_used_again() {
    let log = Rc::new(RefCell::new(Vec::new()));
    let mut ring = Ring::new(4);
    for number in 0..3 {
        assert!(ring.push_back(Logged { number, log: log.clone() }).is_none());
    }
    ring.drain();
    assert_eq!(*log.borrow(), vec![0, 1, 2]);
    assert!(ring.is_empty());
    for number in 3..6 {
        assert!(ring.push_back(Logged { number, log: log.clone() }).is_none());
    }
    assert!(ring.is_full());
    assert_eq!(ring.pop_front().map(|value| value.number), Some(3));
}
