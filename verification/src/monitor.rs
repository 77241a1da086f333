//! The lock around the ring. A ring that is put in here is reached by [`Held::perform`] and in
//! no other way, so that it only ever changes by [`Ring::serve`].

use vstd::prelude::*;

use std::sync::{Condvar, Mutex, MutexGuard};

use crate::ring::Ring;
use crate::state::{Call, QueueState, Request};

verus! {

/// `std::sync::Mutex`, opaque.
#[verifier::external_type_specification]
#[verifier::external_body]
#[verifier::reject_recursive_types(T)]
pub struct ExMutex<T: ?Sized>(Mutex<T>);

/// `std::sync::MutexGuard`, opaque.
#[verifier::external_type_specification]
#[verifier::external_body]
#[verifier::reject_recursive_types(T)]
pub struct ExMutexGuard<'a, T: ?Sized + 'a>(MutexGuard<'a, T>);

/// `std::sync::Condvar`, opaque.
#[verifier::external_type_specification]
#[verifier::external_body]
pub struct ExCondvar(Condvar);

/// `Condvar::new`. A condition variable holds nothing of which something could be claimed.
pub assume_specification[ Condvar::new ]() -> Condvar;

/// `Condvar::notify_one`, which wakes one waiting thread where there is one. It returns nothing
/// of which something could be claimed.
pub assume_specification[ Condvar::notify_one ](condvar: &Condvar)
    opens_invariants none
;

/// A ring that two threads share, with the means to wait for the other.
#[verifier::reject_recursive_types(T)]
pub struct Monitor<T> {
    ring: Mutex<Ring<T>>,
    changed: Condvar,
    capacity: Ghost<nat>,
    served: Ghost<Seq<Request<()>>>,
}

/// A monitor whose lock the thread holds. Made by [`Monitor::lock`] only, so that the guard is
/// that of the monitor beside it.
#[verifier::reject_recursive_types(T)]
pub struct Held<'a, T> {
    monitor: &'a Monitor<T>,
    guard: MutexGuard<'a, Ring<T>>,
}

/// Whether `after` is the answer to the request in `before` that one of the attempts `served` on
/// a ring of `capacity` slots gives: an attempt of that kind, in the state that the attempts
/// before it have led to.
pub open spec fn performed<T>(
    capacity: nat,
    served: Seq<Request<()>>,
    before: Call<T>,
    after: Call<T>,
) -> bool {
    &&& after is Answered
    &&& exists|n: int, met: QueueState<T>|
        0 <= n < served.len() && served[n] == (before->Asked_0).kind() && #[trigger] met.arises(
            capacity,
            served.take(n),
        ) && met.serve(before->Asked_0).1 == after
}

impl<T> Monitor<T> {
    /// The number of slots of the ring inside.
    pub closed spec fn capacity(&self) -> nat {
        self.capacity@
    }

    /// The kinds of all attempts that are ever made on the ring inside, in the order in which
    /// they are made. (Which kinds of requests are made depends on no ghost value, so the whole
    /// run may be spoken of ahead of time. The values that are sent are left out.)
    pub closed spec fn served(&self) -> Seq<Request<()>> {
        self.served@
    }

    /// Calls `Mutex::new`. Claimed is that the mutex holds the ring that was handed in: the
    /// capacity of the ring inside is that of `ring`. What will be asked of it is left open.
    #[verifier::external_body]
    pub fn new(ring: Ring<T>, changed: Condvar) -> (monitor: Self)
        requires
            ring@ == QueueState::<T>::empty(ring@.capacity),
        ensures
            monitor.capacity() == ring@.capacity,
    {
        Monitor {
            capacity: Ghost(ring@.capacity),
            served: Ghost(arbitrary()),
            ring: Mutex::new(ring),
            changed,
        }
    }

    /// Calls `Mutex::lock`, which waits until no other thread holds the mutex. Claimed is that
    /// what is locked is the ring of this monitor. Poisoning is ignored, so the call does not
    /// panic on it.
    #[verifier::external_body]
    pub fn lock(&self) -> (held: Held<'_, T>)
        ensures
            held.capacity() == self.capacity(),
            held.served() == self.served(),
        opens_invariants none
    {
        match self.ring.lock() {
            Ok(guard) => Held { monitor: self, guard },
            Err(poisoned) => Held { monitor: self, guard: poisoned.into_inner() },
        }
    }

    /// Whether the condition variable on which the two sides of this ring wait has been
    /// notified: `Condvar::notify_one` was called on it and has returned. Only the call shows it.
    pub closed spec fn notified(&self) -> bool {
        call_ensures(Condvar::notify_one, (&self.changed,), ())
    }

    /// Notifies the condition variable, on account of the attempt at place `n`.
    fn notify_for(&self, Ghost(n): Ghost<int>)
        ensures
            self.notified(),
        opens_invariants none
    {
        self.changed.notify_one();
    }

    /// Whether the other side was woken on account of the attempt at place `n`: the condition
    /// variable was notified for it. Only the call shows it, and the place is known only after
    /// the attempt.
    pub closed spec fn woken(&self, n: int) -> bool {
        call_ensures(Monitor::<T>::notify_for, (self, Ghost(n)), ())
    }

    /// Wakes the other side where it waits, on account of the attempt at place `n`.
    pub fn wake(&self, Ghost(n): Ghost<int>)
        ensures
            self.woken(n),
        opens_invariants none
    {
        self.notify_for(Ghost(n));
    }

    /// Where the other side was woken, the condition variable was notified.
    pub proof fn lemma_woken_is_notified(&self, n: int)
        requires
            self.woken(n),
        ensures
            self.notified(),
    {
    }
}

impl<'a, T> Held<'a, T> {
    /// The number of slots of the ring inside.
    pub closed spec fn capacity(&self) -> nat {
        self.monitor.capacity()
    }

    /// The kinds of all attempts that are ever made on the ring inside.
    pub closed spec fn served(&self) -> Seq<Request<()>> {
        self.monitor.served()
    }

    /// Calls `Condvar::wait_while` with [`Ring::serve`] as the condition to wait on: that is
    /// called on the ring at once, and again after each time that the thread is woken, until it
    /// reports that nothing has to wait any more. The lock is free while the thread waits, and
    /// when the call is over.
    ///
    /// Claimed is that `call` is then answered, and that it is so by an attempt at its request
    /// on the ring of this monitor, which was empty at first and has come into its state by the
    /// attempts before that one. (An attempt before the last leaves `call` as it was.)
    ///
    /// The wait ends early on a mutex that was poisoned. This one never is: it is held only
    /// here, and nothing that runs here panics.
    #[verifier::external_body]
    pub fn perform(self, call: &mut Call<T>)
        requires
            *old(call) is Asked,
        ensures
            performed(self.capacity(), self.served(), *old(call), *final(call)),
        opens_invariants [ ((*old(call))->Asked_0).right() ]
    {
        let _released = self.monitor.changed.wait_while(self.guard, |ring| ring.serve(call));
    }
}

} // verus!
