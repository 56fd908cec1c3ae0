//! The interface that every arena offers, and the errors of the handles built on it.

use crate::layout::Layout;
use vstd::layout::valid_layout;
use vstd::prelude::*;

verus! {

/// What a handle learns of a block that an arena handed out at address `addr`
/// (0 stands for failure): it is aligned as asked and lies within the address space.
pub open spec fn block_fits(addr: usize, size: usize, align: usize) -> bool {
    addr != 0 ==> addr as int % align as int == 0 && addr + size <= usize::MAX
}

/// An arena: it hands out blocks of memory by address, with 0 standing for failure.
///
/// Blocks are never handed out twice while they are live. An arena tracks where
/// blocks lie, not the bytes in them: the holder of a block keeps its contents (a box
/// its value, an array its elements). `alloc_zeroed` hands out a block that its holder
/// starts out as all zeros; `realloc` gives a block a new place, and its holder carries
/// the first `min(old size, new size)` bytes over. Failure is the result 0, never a
/// panic and never a wait.
pub trait Alloc {
    /// A block that meets `layout`, or 0.
    fn allocate(&self, layout: Layout) -> (r: usize)
        ensures
            block_fits(r, layout.spec_size(), layout.spec_align()),
    ;

    /// Gives back the block at `ptr`, which was handed out for `layout`.
    fn dealloc(&self, ptr: usize, layout: Layout);

    /// A block that meets `layout`, to be started out as all zeros, or 0.
    fn alloc_zeroed(&self, layout: Layout) -> (r: usize)
        ensures
            block_fits(r, layout.spec_size(), layout.spec_align()),
    ;

    /// A block of `new_size` bytes aligned as `layout` asks, in place of the block at
    /// `ptr`, or 0 (the block at `ptr` is then left as it was).
    fn realloc(&self, ptr: usize, layout: Layout, new_size: usize) -> (r: usize)
        requires
            valid_layout(new_size, layout.spec_align()),
        ensures
            block_fits(r, new_size, layout.spec_align()),
    ;
}

/// Why a handle could not get the memory it needed.
#[derive(Clone, Copy, Debug, PartialEq, Eq)]
pub enum AllocError {
    /// The arena could not serve a request for this layout.
    AllocationFailure(Layout),
    /// The size of the memory needed does not fit in `usize`, or forms no valid layout.
    CapacityOverflow,
}

} // verus!
