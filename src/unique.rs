//! A non-null address of a value of type `T`.

use core::marker::PhantomData;
use vstd::layout::{align_of, layout_for_type_is_valid};
use vstd::prelude::*;

verus! {

/// The non-null address of a value of type `T`, held by exactly one owner.
pub struct Unique<T> {
    ptr: usize,
    _marker: PhantomData<T>,
}

impl<T> Unique<T> {
    #[verifier::type_invariant]
    spec fn inv(self) -> bool {
        self.ptr != 0
    }

    pub closed spec fn addr(&self) -> usize {
        self.ptr
    }

    /// A dangling address that is aligned for `T`, for a handle that owns no block yet.
    pub fn empty() -> (r: Self)
        ensures
            r.addr() == align_of::<T>(),
    {
        layout_for_type_is_valid::<T>();
        Unique { ptr: core::mem::align_of::<T>(), _marker: PhantomData }
    }

    /// The address `ptr`, which is not null.
    pub fn new_unchecked(ptr: usize) -> (r: Self)
        requires
            ptr != 0,
        ensures
            r.addr() == ptr,
    {
        Unique { ptr, _marker: PhantomData }
    }

    /// The address `ptr`, or `None` when it is null.
    pub fn new(ptr: usize) -> (r: Option<Self>)
        ensures
            r is Some <==> ptr != 0,
            r matches Some(u) ==> u.addr() == ptr,
    {
        if ptr == 0 {
            None
        } else {
            Some(Unique { ptr, _marker: PhantomData })
        }
    }

    /// The address.
    pub fn as_ptr(&self) -> (r: usize)
        ensures
            r == self.addr(),
            r != 0,
    {
        proof {
            use_type_invariant(self);
        }
        self.ptr
    }
}

} // verus!
