//! A single-producer/single-consumer ring-buffer queue over a fixed-size
//! region of memory.
//!
//! The region starts with a fixed-layout header: a `write` cursor, a `read`
//! cursor, and an immutable capacity, followed by `capacity` fixed-size item
//! slots. Capacity is always a power of two, so a cursor is reduced to a slot
//! index by taking it modulo the capacity. The producer reserves a slot,
//! writes into it and commits; the consumer observes committed slots, reads
//! them and finalizes. Both sides keep private cached copies of the cursors
//! and exchange progress only through the two cursors in the header.

pub mod error;
pub mod laws;
pub mod layout;
pub mod queue;

pub use error::Error;
pub use layout::HEADER_SIZE;
pub use queue::{Consumer, Producer, SharedQueueHeader, SharedRegion};
