//! Errors produced by the queue's layout computations.
//!
//! Setup failures of the backing object (creating, opening or mapping a
//! file) are outside the queue's own logic and are reported by the code that
//! performs them; the queue itself only ever rejects an infeasible layout.
//! Fullness and emptiness are ordinary outcomes, not errors.

use vstd::prelude::*;

verus! {

/// The reason a region cannot back a queue.
#[derive(Clone, Copy, Debug, PartialEq, Eq, Structural)]
pub enum Error {
    /// The region is too small to hold the header and at least one item
    /// slot, or a stored capacity is zero, not a power of two, or larger
    /// than the mapped region allows.
    InvalidBufferSize,
}

} // verus!
