//! A contiguous growable array whose storage is a block of an arena.

use crate::arena::{Alloc, AllocError};
use crate::bump::{aligned_offset, lemma_aligned_offset};
use crate::layout::Layout;
use crate::unique::Unique;
use vstd::arithmetic::div_mod::{
    lemma_fundamental_div_mod, lemma_fundamental_div_mod_converse_mod, lemma_mod_multiples_basic,
};
use vstd::arithmetic::power2::{lemma_pow2_unfold, pow2};
use vstd::layout::{align_of, layout_for_type_is_valid, size_of};
use vstd::prelude::*;

verus! {

/// `size` rounded up to a multiple of `align`.
pub open spec fn padded_size(size: int, align: int) -> int {
    aligned_offset(0, size, align)
}

/// Whether `n` elements of `size` bytes, each padded to `align`, form a valid layout.
pub open spec fn array_fits(size: int, align: int, n: int) -> bool {
    padded_size(size, align) * n <= isize::MAX as int - (isize::MAX as int % align)
}

/// The capacity after growing from `cap` to hold `additional` more elements:
/// `max(2 * cap, cap + additional)`.
pub open spec fn grown_capacity(cap: int, additional: int) -> int {
    if 2 * cap >= cap + additional {
        2 * cap
    } else {
        cap + additional
    }
}

/// The capacity that an array of `T` with capacity `cap` grows to for `additional`
/// more elements, or `None` when that count or its size in bytes overflows.
pub open spec fn growth_capacity<T>(cap: int, additional: int) -> Option<int> {
    if 2 * cap <= usize::MAX && cap + additional <= usize::MAX && array_fits(
        size_of::<T>() as int,
        align_of::<T>() as int,
        grown_capacity(cap, additional),
    ) {
        Some(grown_capacity(cap, additional))
    } else {
        None
    }
}

/// The capacity after a push onto an array of length `len` and capacity `cap`: it
/// grows only when the array is full.
pub open spec fn push_capacity(len: int, cap: int) -> int {
    if len == cap {
        grown_capacity(cap, 1)
    } else {
        cap
    }
}

/// The capacity after `n` pushes onto an empty array whose capacity starts at 0.
pub open spec fn capacity_after_pushes(n: nat) -> int
    decreases n,
{
    if n == 0 {
        0
    } else {
        push_capacity(n - 1, capacity_after_pushes((n - 1) as nat))
    }
}

/// The number of reallocations during `n` pushes onto an empty array whose capacity
/// starts at 0: one for each push that finds the array full.
pub open spec fn reallocations_after_pushes(n: nat) -> nat
    decreases n,
{
    if n == 0 {
        0
    } else {
        reallocations_after_pushes((n - 1) as nat) + if n - 1 == capacity_after_pushes((n - 1) as nat) {
            1nat
        } else {
            0nat
        }
    }
}

/// Growth law: after `n >= 1` pushes onto an empty array, the capacity is the least
/// power of two at or above `n`, so it is at least `n` and below `2 * n`, and there
/// were `k` reallocations with `2^k < 4 * n`, that is at most `log2(n) + 2`.
pub proof fn lemma_growth_law(n: nat)
    requires
        n >= 1,
    ensures
        n <= capacity_after_pushes(n) < 2 * n,
        reallocations_after_pushes(n) >= 1,
        capacity_after_pushes(n) == pow2((reallocations_after_pushes(n) - 1) as nat),
        pow2(reallocations_after_pushes(n)) < 4 * n,
    decreases n,
{
    let k = reallocations_after_pushes(n);
    if n == 1 {
        assert(capacity_after_pushes(0) == 0);
        assert(reallocations_after_pushes(0) == 0);
        assert(reallocations_after_pushes(1) == 1);
        assert(pow2(0) == 1) by {
            vstd::arithmetic::power2::lemma2_to64();
        }
        lemma_pow2_unfold(1);
    } else {
        let m = (n - 1) as nat;
        lemma_growth_law(m);
        let j = reallocations_after_pushes(m);
        if m == capacity_after_pushes(m) {
            assert(k == j + 1);
            lemma_pow2_unfold(j);
        } else {
            assert(k == j);
        }
        lemma_pow2_unfold(k);
    }
}

/// The padding that takes `layout`'s size up to a multiple of `align`.
pub fn padding_needed_for(layout: &Layout, align: usize) -> (r: usize)
    requires
        align > 0,
    ensures
        r == padded_size(layout.spec_size() as int, align as int) - layout.spec_size(),
{
    let len = layout.size();
    (align - len % align) % align
}

/// The layout of `n` copies of `layout`, each padded to its alignment, together with
/// the padded size of one copy; `None` when that is no valid layout.
pub fn layout_repeat(layout: &Layout, n: usize) -> (r: Option<(Layout, usize)>)
    ensures
        r is Some <==> array_fits(layout.spec_size() as int, layout.spec_align() as int, n as int),
        r matches Some((l, padded)) ==> {
            &&& padded == padded_size(layout.spec_size() as int, layout.spec_align() as int)
            &&& l.spec_size() == padded * n
            &&& l.spec_align() == layout.spec_align()
        },
{
    let align = layout.align();
    let size = layout.size();
    proof {
        let m = isize::MAX as int;
        let k = m - m % (align as int);
        lemma_aligned_offset(0, size as int, align as int);
        lemma_aligned_offset(0, m, align as int);
        assert((0 + k) % (align as int) == 0) by {
            let a = align as int;
            lemma_fundamental_div_mod(m, a);
            assert(k == (m / a) * a) by (nonlinear_arith)
                requires
                    m == a * (m / a) + m % a,
                    k == m - m % a,
            ;
            lemma_mod_multiples_basic(m / a, a);
        }
        if padded_size(size as int, align as int) > k {
            assert((0 + k) % (align as int) != 0);
        }
    }
    let padded = match size.checked_add(padding_needed_for(layout, align)) {
        Some(p) => p,
        None => return None,
    };
    let alloc_size = match padded.checked_mul(n) {
        Some(s) => s,
        None => return None,
    };
    match Layout::from_size_align(alloc_size, align) {
        Some(l) => Some((l, padded)),
        None => None,
    }
}

/// The layout of an array of `n` values of type `T`; `None` when that is no valid
/// layout.
pub fn layout_array<T>(n: usize) -> (r: Option<Layout>)
    ensures
        r is Some <==> array_fits(size_of::<T>() as int, align_of::<T>() as int, n as int),
        r matches Some(l) ==> l.spec_size() == size_of::<T>() * n && l.spec_align() == align_of::<T>(),
{
    layout_for_type_is_valid::<T>();
    proof {
        lemma_fundamental_div_mod_converse_mod(align_of::<T>() as int, align_of::<T>() as int, 1, 0);
        assert(padded_size(size_of::<T>() as int, align_of::<T>() as int) == size_of::<T>());
    }
    match layout_repeat(&Layout::new::<T>(), n) {
        Some((k, _)) => Some(k),
        None => None,
    }
}

/// `max(2 * curr, curr + additional)`, or `None` when either does not fit in `usize`.
pub fn amortized_new_capacity(curr: usize, additional: usize) -> (r: Option<usize>)
    ensures
        r is Some <==> 2 * curr <= usize::MAX && curr + additional <= usize::MAX,
        r matches Some(c) ==> c == grown_capacity(curr as int, additional as int),
{
    let double_cap = match curr.checked_mul(2) {
        Some(c) => c,
        None => return None,
    };
    let required_cap = match curr.checked_add(additional) {
        Some(c) => c,
        None => return None,
    };
    if double_cap >= required_cap {
        Some(double_cap)
    } else {
        Some(required_cap)
    }
}

/// A contiguous growable array of `T` whose storage is a block of the arena `A`.
///
/// It holds `len <= capacity` elements in order; the block has room for `capacity`
/// elements. When a push finds the array full, the capacity grows to
/// `max(2 * capacity, capacity + 1)` and the block is moved, keeping the elements as
/// they were. The capacity never shrinks. An array of zero-sized elements needs no
/// storage and has capacity `usize::MAX` from the start.
pub struct Vec<'a, T, A: Alloc> {
    cap: usize,
    elems: std::vec::Vec<T>,
    ptr: Unique<T>,
    arena: &'a A,
}

impl<'a, T, A: Alloc> View for Vec<'a, T, A> {
    type V = Seq<T>;

    closed spec fn view(&self) -> Seq<T> {
        self.elems@
    }
}

impl<'a, T, A: Alloc> Vec<'a, T, A> {
    /// The array's invariant: the length is within the capacity, a block for the
    /// capacity has a valid layout, and zero-sized elements come with capacity
    /// `usize::MAX`.
    pub closed spec fn wf(&self) -> bool {
        &&& self.elems.len() <= self.cap
        &&& self.cap > 0 ==> array_fits(size_of::<T>() as int, align_of::<T>() as int, self.cap as int)
        &&& size_of::<T>() == 0 ==> self.cap == usize::MAX
    }

    /// The number of elements the array can hold before it grows.
    pub closed spec fn spec_capacity(&self) -> usize {
        self.cap
    }

    /// The arena that the storage belongs to.
    pub closed spec fn spec_arena(&self) -> &'a A {
        self.arena
    }

    /// An empty array on `arena`, which owns no block yet.
    pub fn new(arena: &'a A) -> (r: Self)
        ensures
            r@ == Seq::<T>::empty(),
            r.spec_capacity() == if size_of::<T>() == 0 {
                usize::MAX
            } else {
                0
            },
            r.spec_arena() == arena,
            r.wf(),
    {
        let cap = if core::mem::size_of::<T>() == 0 {
            usize::MAX
        } else {
            0
        };
        layout_for_type_is_valid::<T>();
        proof {
            let a = align_of::<T>() as int;
            lemma_aligned_offset(0, 0, a);
            lemma_fundamental_div_mod_converse_mod(0, a, 0, 0);
            assert(padded_size(0, a) == 0);
            assert(0 * (usize::MAX as int) == 0);
            assert(size_of::<T>() == 0 ==> array_fits(size_of::<T>() as int, a, usize::MAX as int));
            vstd::arithmetic::div_mod::lemma_mod_decreases(isize::MAX as nat, a as nat);
        }
        Vec { cap, elems: std::vec::Vec::new(), ptr: Unique::empty(), arena }
    }

    /// The number of elements the array can hold before it grows.
    pub fn capacity(&self) -> (r: usize)
        requires
            self.wf(),
        ensures
            r == self.spec_capacity(),
            self@.len() <= r,
    {
        self.cap
    }

    /// The number of elements.
    pub fn len(&self) -> (r: usize)
        ensures
            r == self@.len(),
    {
        self.elems.len()
    }

    /// The elements, in order.
    pub fn as_slice(&self) -> (r: &[T])
        ensures
            r@ == self@,
    {
        self.elems.as_slice()
    }

    /// The element at `index`, or `None` when `index` is not below the length.
    pub fn get(&self, index: usize) -> (r: Option<&T>)
        ensures
            index < self@.len() ==> r == Some(&self@[index as int]),
            index >= self@.len() ==> r is None,
    {
        if index < self.elems.len() {
            Some(&self.elems[index])
        } else {
            None
        }
    }

    /// The layout of the block the array owns, or `None` when it owns none.
    fn current_layout(&self) -> (r: Option<Layout>)
        requires
            self.wf(),
        ensures
            r is None <==> self.spec_capacity() == 0,
            r matches Some(l) ==> l.spec_size() == size_of::<T>() * self.spec_capacity()
                && l.spec_align() == align_of::<T>(),
    {
        if self.cap == 0 {
            None
        } else {
            layout_array::<T>(self.cap)
        }
    }

    /// Makes room for at least `additional` more elements. When the free room is too
    /// small, the capacity grows to `max(2 * capacity, capacity + additional)` and the
    /// storage moves to a block of the arena of that size; the elements stay as they
    /// were. Fails with `CapacityOverflow` when the new capacity or its size in bytes
    /// overflows, and with the layout asked for when the arena cannot serve it; the
    /// array is then unchanged.
    pub fn reserve(&mut self, additional: usize) -> (r: Result<(), AllocError>)
        requires
            old(self).wf(),
        ensures
            final(self).wf(),
            final(self)@ == old(self)@,
            final(self).spec_arena() == old(self).spec_arena(),
            old(self).spec_capacity() - old(self)@.len() >= additional ==> r is Ok
                && final(self).spec_capacity() == old(self).spec_capacity(),
            r is Ok && old(self).spec_capacity() - old(self)@.len() < additional ==> growth_capacity::<T>(
                old(self).spec_capacity() as int,
                additional as int,
            ) == Some(final(self).spec_capacity() as int),
            r == Err::<(), AllocError>(AllocError::CapacityOverflow) <==> (old(self).spec_capacity() - old(self)@.len()
                < additional && growth_capacity::<T>(old(self).spec_capacity() as int, additional as int) is None),
            r matches Err(AllocError::AllocationFailure(l)) ==> {
                &&& old(self).spec_capacity() - old(self)@.len() < additional
                &&& growth_capacity::<T>(old(self).spec_capacity() as int, additional as int) matches Some(c)
                    && l.spec_size() == size_of::<T>() * c
                &&& l.spec_align() == align_of::<T>()
            },
            r is Err ==> final(self).spec_capacity() == old(self).spec_capacity(),
    {
        if self.cap - self.elems.len() >= additional {
            return Ok(());
        }
        let new_cap = match amortized_new_capacity(self.cap, additional) {
            Some(c) => c,
            None => return Err(AllocError::CapacityOverflow),
        };
        let new_layout = match layout_array::<T>(new_cap) {
            Some(l) => l,
            None => return Err(AllocError::CapacityOverflow),
        };
        let res = match self.current_layout() {
            None => self.arena.allocate(new_layout),
            Some(layout) => self.arena.realloc(self.ptr.as_ptr(), layout, new_layout.size()),
        };
        match Unique::new(res) {
            Some(ptr) => {
                self.ptr = ptr;
                self.cap = new_cap;
                Ok(())
            },
            None => Err(AllocError::AllocationFailure(new_layout)),
        }
    }

    /// Appends `elem`. When the array is full it grows first, as `reserve(1)` does, to
    /// `max(2 * capacity, capacity + 1)`; when that fails the array is unchanged and
    /// `elem` is dropped.
    pub fn push(&mut self, elem: T) -> (r: Result<(), AllocError>)
        requires
            old(self).wf(),
        ensures
            final(self).wf(),
            final(self).spec_arena() == old(self).spec_arena(),
            old(self)@.len() < old(self).spec_capacity() ==> r is Ok,
            r is Ok ==> final(self)@ == old(self)@.push(elem) && final(self).spec_capacity() == push_capacity(
                old(self)@.len() as int,
                old(self).spec_capacity() as int,
            ),
            r is Err ==> final(self)@ == old(self)@ && final(self).spec_capacity() == old(self).spec_capacity(),
            r == Err::<(), AllocError>(AllocError::CapacityOverflow) <==> (old(self)@.len() == old(self).spec_capacity()
                && growth_capacity::<T>(old(self).spec_capacity() as int, 1) is None),
            r matches Err(AllocError::AllocationFailure(l)) ==> {
                &&& old(self)@.len() == old(self).spec_capacity()
                &&& growth_capacity::<T>(old(self).spec_capacity() as int, 1) matches Some(c)
                    && l.spec_size() == size_of::<T>() * c
                &&& l.spec_align() == align_of::<T>()
            },
    {
        if self.elems.len() == self.cap {
            match self.reserve(1) {
                Ok(()) => {},
                Err(e) => return Err(e),
            }
        }
        self.elems.push(elem);
        Ok(())
    }

    /// Removes the last element and returns it, or `None` when the array is empty. The
    /// capacity stays as it was.
    pub fn pop(&mut self) -> (r: Option<T>)
        requires
            old(self).wf(),
        ensures
            final(self).wf(),
            final(self).spec_capacity() == old(self).spec_capacity(),
            final(self).spec_arena() == old(self).spec_arena(),
            old(self)@.len() == 0 ==> r is None && final(self)@ == old(self)@,
            old(self)@.len() > 0 ==> r == Some(old(self)@.last()) && final(self)@ == old(self)@.drop_last(),
    {
        self.elems.pop()
    }

    /// Runs the elements' teardown, then gives the block back to the arena, for the
    /// layout it was taken with.
    pub fn free(self)
        requires
            self.wf(),
    {
        let layout = self.current_layout();
        let Vec { cap, elems, ptr, arena } = self;
        {
            // the elements' teardown runs as they leave this block
            let _elems = elems;
        }
        if core::mem::size_of::<T>() != 0 {
            match layout {
                Some(l) => arena.dealloc(ptr.as_ptr(), l),
                None => {},
            }
        }
    }
}

impl<'a, T, A: Alloc> core::ops::Deref for Vec<'a, T, A> {
    type Target = [T];

    /// The elements, in order.
    fn deref(&self) -> (r: &[T])
        ensures
            r@ == self@,
    {
        self.elems.as_slice()
    }
}

} // verus!
