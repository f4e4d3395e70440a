//! A quick, incremental and wasteful memory allocator.
//!
//! Requests are served by bumping a cursor through a growable linear memory
//! region; freed memory is never reused.

mod align;
mod bump;
mod host;

pub use align::{lemma_round_up, round_to_align, round_up};
pub use bump::{pages_for, ranges_disjoint, start_of, AllocErr, QIMalloc};
pub use host::{Host, SimulatedMemory, GROW_FAILED, PAGE_SIZE};
