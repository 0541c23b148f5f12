//! The source of physical frames.

use vstd::prelude::*;

verus! {

/// A source of free physical frames.
pub trait FrameAllocator {
    /// Hands out the physical address of a frame that nobody else holds, or
    /// `None` when no frame is left.
    fn allocate_frame(&mut self) -> Option<u64>;
}

} // verus!
