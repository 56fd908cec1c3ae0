//! Size and alignment of a block of memory.

use vstd::arithmetic::div_mod::lemma_mod_decreases;
use vstd::arithmetic::power2::is_pow2;
use vstd::layout::{align_of, layout_for_type_is_valid, size_of, valid_layout};
use vstd::prelude::*;

verus! {

/// The size and alignment of a block: the alignment is a power of two, and the size
/// rounded up to the alignment does not exceed `isize::MAX`.
#[derive(Clone, Copy, Debug, PartialEq, Eq)]
pub struct Layout {
    size: usize,
    align: usize,
}

/// Whether `n` is a power of two.
pub fn is_power_of_two(n: usize) -> (r: bool)
    ensures
        r == is_pow2(n as int),
{
    let mut a: usize = n;
    while a > 1 && a % 2 == 0
        invariant
            is_pow2(a as int) == is_pow2(n as int),
        decreases a,
    {
        proof {
            reveal(is_pow2);
        }
        a = a / 2;
    }
    proof {
        reveal(is_pow2);
    }
    a == 1
}

impl Layout {
    #[verifier::type_invariant]
    spec fn inv(self) -> bool {
        valid_layout(self.size, self.align)
    }

    pub closed spec fn spec_size(&self) -> usize {
        self.size
    }

    pub closed spec fn spec_align(&self) -> usize {
        self.align
    }

    /// The size in bytes.
    #[verifier::when_used_as_spec(spec_size)]
    pub fn size(&self) -> (r: usize)
        ensures
            r == self.spec_size(),
            valid_layout(r, self.spec_align()),
    {
        proof {
            use_type_invariant(self);
        }
        self.size
    }

    /// The alignment in bytes, a power of two.
    #[verifier::when_used_as_spec(spec_align)]
    pub fn align(&self) -> (r: usize)
        ensures
            r == self.spec_align(),
            valid_layout(self.spec_size(), r),
            r > 0,
    {
        proof {
            use_type_invariant(self);
            reveal(is_pow2);
        }
        self.align
    }

    /// The layout of `size` bytes aligned to `align`, if that is a valid layout.
    pub fn from_size_align(size: usize, align: usize) -> (r: Option<Layout>)
        ensures
            r is Some <==> valid_layout(size, align),
            r matches Some(l) ==> l.spec_size() == size && l.spec_align() == align,
    {
        if !is_power_of_two(align) {
            return None;
        }
        proof {
            reveal(is_pow2);
        }
        let max: usize = isize::MAX as usize;
        proof {
            lemma_mod_decreases(max as nat, align as nat);
        }
        if size > max - max % align {
            return None;
        }
        Some(Layout { size, align })
    }

    /// The layout of a value of type `T`.
    pub fn new<T>() -> (r: Layout)
        ensures
            r.spec_size() == size_of::<T>(),
            r.spec_align() == align_of::<T>(),
    {
        layout_for_type_is_valid::<T>();
        Layout { size: core::mem::size_of::<T>(), align: core::mem::align_of::<T>() }
    }
}

} // verus!
