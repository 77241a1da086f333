# spsc_rigtorp

A bounded queue for a single producer and a single consumer, verified with Verus.

## Usage

Create a channel with a defined capacity (in this case 4):

```rust
let (tx, rx) = spsc_rigtorp::channel(4);
```

Push something onto the queue. `None` means success, `Some(val)` gets you your value back:

```rust
let refused = tx.send(val);
```

Pop something off the queue. `None` means that the queue is empty:

```rust
let val = rx.recv();
```

`send_blocking` and `recv_blocking` wait for room and for a value. Once `is_full` has returned
`false`, the next `send` succeeds, whatever the other end does in between; once `is_empty` has
returned `false`, the next `recv` gives a value. A `true` may be out of date at once: a `recv`
makes room, and a `send` brings a value.

## What is proved, and of what

The operations of the ring are stated exactly, for every state. A call on a handle meets the ring
in a state that both ends have made: its contract says that the ring was asked for what the call
is for, at some place in the run of all requests ever made of it, and that the call returns what
the ring answers in the state that the requests before it have led to. What spans several calls
(first in, first out; that room and values, once seen, stay) is proved of all runs of requests in
`src/laws.rs`, as `law_first_in_first_out`, `law_room_stays`, `law_item_stays` and others. The
contracts of the handles do not say where in the run two calls stand to each other.

## Design

* The queue is a ring of slots with a read index and a write index. One slot stays unused, so
  that a full ring can be told from an empty one: a channel of capacity 4 holds 3 values. The
  capacity has to be greater than 1 and stays what it is.
* Each end caches the index of the other. When it checks for room, or for a value, it first
  compares with the cached index. Only if that one indicates full, or empty, it loads the real
  one and confirms. Each time it loads the real index it saves it in the cache.
* `Producer` and `Consumer` cannot be cloned, so there is one of each. They share the ring
  behind a mutex; a condition variable wakes the end that waits.
* Values that were never received are dropped with the ring, oldest first.

## Layout

* `src/state.rs`: the model of the ring and of its operations.
* `src/slots.rs`: the slots and the two indices.
* `src/ring.rs`: the queue, with the cached indices. Its operations are stated exactly.
* `src/monitor.rs`: the lock around the queue, and what is assumed of `std::sync`.
* `src/buffer.rs`: the queue shared by two threads.
* `src/handles.rs`: `channel`, `Producer` and `Consumer`.
* `src/cache_aligned.rs`: the wrapper of the indices.
* `src/history.rs`, `src/laws.rs`: runs of requests, and what holds of all of them.
* `app/`: throughput measurements.
