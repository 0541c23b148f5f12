//! The walker of the page tables, seen from the code that asks for mappings.

use super::frame_distributer::FrameAllocator;
use super::paging::EntryFlags;
use super::types::FRAME_SIZE;
use vstd::prelude::*;

verus! {

/// The walker of the four table levels, which installs one mapping at a time.
pub trait Mapper {
    /// Makes the page at `page_addr` translate to the frame at
    /// `physical_addr` with `flags`, and takes the frames for the tables
    /// that are missing on the way from `frame_allocator`.
    fn map<A: FrameAllocator>(
        &mut self,
        page_addr: u64,
        physical_addr: u64,
        frame_allocator: &mut A,
        flags: EntryFlags,
    )
        requires
            page_addr % FRAME_SIZE == 0,
    ;
}

} // verus!
