//! A bounded queue for a single producer and a single consumer.
//!
//! [`channel`] makes the two ends of a queue. They share a [`RingBuffer`], which lets one thread
//! at a time at a [`Ring`]. The ring is the queue itself, and its operations are stated exactly,
//! over the model in [`state`]. What holds of all runs of requests is in [`laws`].

pub mod buffer;
pub mod cache_aligned;
pub mod handles;
pub mod history;
pub mod laws;
mod monitor;
pub mod ring;
mod slots;
pub mod state;

pub use crate::buffer::RingBuffer;
pub use crate::cache_aligned::CacheAligned;
pub use crate::handles::{channel, Consumer, Producer};
pub use crate::ring::Ring;
