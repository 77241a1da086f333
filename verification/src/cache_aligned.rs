//! The wrapper in which the ring keeps each of its indices.

use vstd::prelude::*;

use std::ops::{Deref, DerefMut};

verus! {

/// Wraps an index of the ring. Each index has one side that writes it, and stands in a wrapper
/// of its own, which reads and writes like the value itself through `Deref` and `DerefMut`. The
/// wrapper has the layout of the value: it asks for no alignment of its own.
#[derive(PartialEq, Eq)]
pub struct CacheAligned<T>(pub(crate) T);

impl<T> CacheAligned<T> {
    /// The wrapped value.
    pub open(crate) spec fn value(&self) -> T {
        self.0
    }
}

impl<T> Deref for CacheAligned<T> {
    type Target = T;

    /// Gives read access to the wrapped value.
    fn deref(&self) -> (target: &T)
        ensures
            *target == self.value(),
    {
        &self.0
    }
}

impl<T> DerefMut for CacheAligned<T> {
    /// Gives write access to the wrapped value: what is written through the reference is the
    /// wrapped value from then on.
    fn deref_mut(&mut self) -> (target: &mut T)
        ensures
            *target == old(self).value(),
            final(self).value() == *final(target),
    {
        &mut self.0
    }
}

impl<T> From<T> for CacheAligned<T> {
    /// Wraps `value`.
    fn from(value: T) -> (wrapped: Self)
        ensures
            wrapped.value() == value,
    {
        Self(value)
    }
}

impl<T> vstd::std_specs::convert::FromSpecImpl<T> for CacheAligned<T> {
    open spec fn obeys_from_spec() -> bool {
        true
    }

    closed spec fn from_spec(value: T) -> Self {
        CacheAligned(value)
    }
}

} // verus!
