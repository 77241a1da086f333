use std::cell::Cell;
use std::sync::atomic::{AtomicUsize, Ordering};

use spsc_rigtorp::{channel, Consumer, Producer, RingBuffer};

// used for `test_drop_works` and the `TestVal` dummy type to ensure values actually get dropped
// using this in other tests will cause problems without making some changes
static DROP_COUNT: AtomicUsize = AtomicUsize::new(0);

#[derive(Clone)]
struct TestVal {}

impl Drop for TestVal {
    fn drop(&mut self) {
        DROP_COUNT.fetch_add(1, Ordering::Relaxed);
    }
}

#[test]
fn test_drop_works() {
    let vec_size = 100;
    // build a channel with capacity 100
    let (tx, _rx) = channel(100);
    // put my custom type in a vector to ensure heap allocated objects
    // are actually dropped
    let holder = vec![TestVal {}; vec_size];
    // push 50 copies of `holder` into the channel (half the capacity)
    for _ in 0..50 {
        tx.send(holder.clone());
    }
    // tx and _rx drop here with 50 unconsumed vector values
    drop(tx);
    drop(_rx);

    // assert is happening before `holder` is dropped, so its values aren't counted in it
    // We should see 50 vectors with `vec_size` values in each
    assert_eq!(50 * vec_size, DROP_COUNT.load(Ordering::Relaxed));
}

fn assert_send<T: Send>() {}

fn assert_sync<T: Sync>() {}

#[test]
fn ends_can_go_to_other_threads() {
    assert_send::<Producer<Cell<u32>>>();
    assert_send::<Consumer<Cell<u32>>>();
    assert_sync::<Producer<Cell<u32>>>();
    assert_sync::<Consumer<Cell<u32>>>();
}

#[test]
fn send_then_recv() {
    let (tx, rx) = channel(4);
    assert_eq!(tx.send(String::from("a")), None);
    assert_eq!(rx.recv(), Some(String::from("a")));
    assert_eq!(rx.recv(), None);
}

#[test]
fn full_channel_hands_the_value_back() {
    let (tx, rx) = channel(4);
    assert_eq!(tx.send(1), None);
    assert_eq!(tx.send(2), None);
    assert_eq!(tx.send(3), None);
    assert_eq!(tx.send(4), Some(4));
    assert_eq!(tx.send_no_cache(5), Some(5));
    assert_eq!(rx.recv(), Some(1));
    assert_eq!(tx.send(6), None);
    assert_eq!(rx.recv(), Some(2));
    assert_eq!(rx.recv(), Some(3));
    assert_eq!(rx.recv(), Some(6));
    assert_eq!(rx.recv(), None);
}

#[test]
fn smallest_channel_holds_one_value() {
    let (tx, rx) = channel(2);
    for i in 0..10 {
        assert_eq!(tx.send(i), None);
        assert_eq!(tx.send(i + 100), Some(i + 100));
        assert_eq!(rx.recv(), Some(i));
        assert_eq!(rx.recv(), None);
    }
}

#[test]
fn is_full_and_is_empty_tell_what_comes() {
    let (tx, rx) = channel(3);
    assert!(rx.is_empty());
    assert!(!tx.is_full());
    assert_eq!(tx.send(7), None);
    assert!(!rx.is_empty());
    assert!(!tx.is_full());
    assert_eq!(tx.send(8), None);
    assert!(tx.is_full());
    assert_eq!(rx.recv(), Some(7));
    assert!(!tx.is_full());
    assert_eq!(tx.send(9), None);
    assert_eq!(rx.recv(), Some(8));
    assert_eq!(rx.recv(), Some(9));
    assert!(rx.is_empty());
}

#[test]
fn no_cache_versions_send_and_receive() {
    let (tx, rx) = channel(4);
    assert_eq!(rx.recv_no_cache(), None);
    assert_eq!(tx.send_no_cache(1), None);
    assert_eq!(tx.send_no_cache(2), None);
    assert_eq!(tx.send_no_cache(3), None);
    assert_eq!(tx.send_no_cache(4), Some(4));
    assert_eq!(rx.recv_no_cache(), Some(1));
    assert_eq!(rx.recv_no_cache(), Some(2));
    assert_eq!(rx.recv_no_cache(), Some(3));
    assert_eq!(rx.recv_no_cache(), None);
}

#[test]
fn blocking_versions_return_when_they_need_not_wait() {
    let (tx, rx) = channel(4);
    for i in 0..50 {
        tx.send_blocking(format!("[{i}]"));
        tx.send_blocking(format!("<{i}>"));
        assert_eq!(rx.recv_blocking(), format!("[{i}]"));
        assert_eq!(rx.recv_blocking(), format!("<{i}>"));
    }
    assert_eq!(rx.recv(), None);
}

#[test]
fn blocking_sends_queue_in_order() {
    let (tx, rx) = channel::<u32>(4);
    assert!(rx.is_empty());
    assert!(!tx.is_full());
    tx.send_blocking(1);
    tx.send_blocking(2);
    assert_eq!(rx.recv(), Some(1));
    assert_eq!(rx.recv(), Some(2));
    assert_eq!(rx.recv(), None);
}

#[test]
fn channel_has_room_for_all_slots_but_one() {
    for capacity in 2..30 {
        let (tx, rx) = channel(capacity);
        assert!(rx.is_empty());
        for i in 0..capacity - 1 {
            assert!(!tx.is_full());
            assert_eq!(tx.send(i), None);
        }
        assert!(tx.is_full());
        assert_eq!(tx.send(99), Some(99));
    }
}

#[test]
fn blocking_and_plain_versions_mix() {
    let (tx, rx) = channel(4);
    tx.send_blocking(1);
    assert_eq!(tx.send(2), None);
    tx.send_blocking(3);
    assert_eq!(tx.send(4), Some(4));
    assert_eq!(rx.recv(), Some(1));
    assert_eq!(rx.recv_blocking(), 2);
    assert_eq!(rx.recv_no_cache(), Some(3));
    assert!(rx.is_empty());
}

#[test]
fn many_values_come_out_in_order() {
    let num_writes = 2500;
    let (tx, rx) = channel(4);
    let mut sent = 0;
    let mut received = 0;
    while received < num_writes {
        while sent < num_writes && tx.send(format!("[{sent}] String Item")).is_none() {
            sent += 1;
        }
        assert_eq!(rx.recv(), Some(format!("[{received}] String Item")));
        received += 1;
    }
    assert_eq!(sent, received);
    assert_eq!(rx.recv(), None);
}

#[test]
fn what_was_sent_can_be_received_after_the_producer_is_gone() {
    let (tx, rx) = RingBuffer::new_channels(8);
    tx.send(1);
    tx.send(2);
    drop(tx);
    assert_eq!(rx.recv(), Some(1));
    assert_eq!(rx.recv(), Some(2));
    assert_eq!(rx.recv(), None);
}

#[test]
fn values_without_size_can_be_sent() {
    let (tx, rx) = channel(3);
    assert_eq!(tx.send(()), None);
    assert_eq!(tx.send(()), None);
    assert_eq!(tx.send(()), Some(()));
    assert_eq!(rx.recv(), Some(()));
}
