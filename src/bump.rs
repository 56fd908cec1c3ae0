//! A lock-free bump-pointer arena that never frees memory.
//!
//! The cursor moves by one atomic read-modify-write per served request, retried by the
//! atomic itself while other threads move the cursor in between. Requests that run at
//! the same time are thus served one after another, in some order; the laws at the end
//! of this module hold for every such order. The cursor's loads and stores need no
//! ordering with other memory: each block goes to one caller alone, who publishes its
//! address to other threads by means of its own.

use crate::arena::Alloc;
use crate::layout::Layout;
use core::sync::atomic::{AtomicU16, Ordering};
use vstd::arithmetic::div_mod::{
    lemma_add_mod_noop, lemma_fundamental_div_mod, lemma_fundamental_div_mod_converse_mod,
};
use vstd::prelude::*;

verus! {

/// The offset of the first byte at or after offset `cursor` whose address
/// (`base + offset`) is a multiple of `align`.
pub open spec fn aligned_offset(base: int, cursor: int, align: int) -> int {
    cursor + (align - (base + cursor) % align) % align
}

/// Where a cursor at `cursor` moves when `size` bytes aligned to `align` are served
/// from a region of `capacity` bytes at `base`; `None` when they do not fit.
pub open spec fn bump(base: int, capacity: int, cursor: int, size: int, align: int) -> Option<int> {
    let start = aligned_offset(base, cursor, align);
    if start + size > capacity {
        None
    } else {
        Some(start + size)
    }
}

/// The offset at which `size` bytes aligned to `align` are served when the cursor is
/// at `cursor`; `None` when they do not fit.
pub open spec fn serve(base: int, capacity: int, cursor: int, size: int, align: int) -> Option<int> {
    match bump(base, capacity, cursor, size, align) {
        Some(_) => Some(aligned_offset(base, cursor, align)),
        None => None,
    }
}

/// The offset of the first byte at or after `cursor` whose address is a multiple of
/// `align`.
pub fn aligned_start(base: usize, cursor: u16, align: u16) -> (r: u32)
    requires
        align > 0,
    ensures
        r == aligned_offset(base as int, cursor as int, align as int),
{
    let a = align as usize;
    let rem = (base % a + cursor as usize % a) % a;
    proof {
        lemma_add_mod_noop(base as int, cursor as int, a as int);
    }
    let pad = (a - rem) % a;
    (cursor as usize + pad) as u32
}

/// The cursor after serving `size` bytes aligned to `align` at `cursor`, or `None`
/// when the request does not fit in `capacity` bytes.
pub fn bump_target(base: usize, capacity: u16, cursor: u16, size: u16, align: u16) -> (r: Option<u16>)
    requires
        align > 0,
    ensures
        r matches Some(n) ==> bump(base as int, capacity as int, cursor as int, size as int, align as int) == Some(n as int),
        r is None ==> bump(base as int, capacity as int, cursor as int, size as int, align as int) is None,
{
    let start = aligned_start(base, cursor, align);
    let end = start + size as u32;
    if end > capacity as u32 {
        None
    } else {
        Some(end as u16)
    }
}

/// Relies on `AtomicU16::fetch_update`: it applies the update to the value it reads,
/// retrying while other threads change the value in between; it returns `Ok` with the
/// value that the stored update replaced, or `Err` with the value read when the update
/// gave `None` (nothing is stored then).
#[verifier::external_body]
fn advance_cursor(index: &AtomicU16, base: usize, capacity: u16, size: u16, align: u16) -> (r: Result<u16, u16>)
    requires
        align > 0,
    ensures
        r matches Ok(prev) ==> bump(base as int, capacity as int, prev as int, size as int, align as int) is Some,
        r matches Err(prev) ==> bump(base as int, capacity as int, prev as int, size as int, align as int) is None,
{
    index.fetch_update(Ordering::Relaxed, Ordering::Relaxed, |c| bump_target(base, capacity, c, size, align))
}

/// A lock-free bump-pointer arena of `N` bytes at address `base`.
///
/// Its cursor starts at 0 and only moves forward, to the end of each block it hands
/// out; `dealloc` is a no-op, so memory that was handed out is never reused.
pub struct BumpAlloc_<const N: u16> {
    index: AtomicU16,
    base: usize,
}

/// A lock-free bump-pointer arena of `N` bytes.
pub type BumpAlloc<const N: u16> = BumpAlloc_<N>;

impl<const N: u16> BumpAlloc_<N> {
    #[verifier::type_invariant]
    spec fn inv(self) -> bool {
        0 < self.base && self.base + N <= usize::MAX
    }

    pub closed spec fn spec_base(&self) -> usize {
        self.base
    }

    /// An arena of `N` bytes over the region that starts at address `base`.
    pub fn new(base: usize) -> (r: Self)
        requires
            0 < base,
            base + N <= usize::MAX,
        ensures
            r.spec_base() == base,
    {
        BumpAlloc_ { index: AtomicU16::new(0), base }
    }

    /// The address at which the region starts.
    pub fn base(&self) -> (r: usize)
        ensures
            r == self.spec_base(),
    {
        self.base
    }

    /// The number of bytes in the region.
    pub fn capacity(&self) -> (r: u16)
        ensures
            r == N,
    {
        N
    }
}

impl<const N: u16> Alloc for BumpAlloc_<N> {
    /// Serves the request at the cursor: the block starts at the first address at or
    /// after the cursor that is a multiple of the alignment, and the cursor moves to its
    /// end. Fails when the block would pass the end of the region, or when the size or
    /// the alignment exceeds `u16::MAX`.
    fn allocate(&self, layout: Layout) -> (r: usize)
        ensures
            r != 0 ==> exists|prev: u16|
                #[trigger] serve(self.spec_base() as int, N as int, prev as int, layout.spec_size() as int, layout.spec_align() as int)
                    == Some(r - self.spec_base()),
            r != 0 ==> self.spec_base() <= r && r + layout.spec_size() <= self.spec_base() + N,
            layout.spec_size() > N || layout.spec_align() > u16::MAX ==> r == 0,
    {
        proof {
            use_type_invariant(self);
        }
        let size = layout.size();
        let align = layout.align();
        if align > u16::MAX as usize || size > u16::MAX as usize {
            return 0;
        }
        let size16 = size as u16;
        let align16 = align as u16;
        assert(size16 == size && align16 == align);
        match advance_cursor(&self.index, self.base, N, size16, align16) {
            Ok(prev) => {
                let start = aligned_start(self.base, prev, align16);
                proof {
                    lemma_aligned_offset(self.base as int, prev as int, align as int);
                }
                let addr = self.base + start as usize;
                assert(serve(self.spec_base() as int, N as int, prev as int, layout.spec_size() as int, layout.spec_align() as int) == Some(addr - self.spec_base()));
                assert(exists|p: u16| #[trigger] serve(self.spec_base() as int, N as int, p as int, layout.spec_size() as int, layout.spec_align() as int) == Some(addr - self.spec_base()));
                addr
            },
            Err(_) => 0,
        }
    }

    /// Does nothing: memory that was handed out is never reused.
    fn dealloc(&self, ptr: usize, layout: Layout) {
    }

    /// Serves the request as `allocate` does; the region is never written by the arena,
    /// so a block that was not handed out before reads as it did at start-up.
    fn alloc_zeroed(&self, layout: Layout) -> (r: usize) {
        self.allocate(layout)
    }

    /// Serves a fresh block of `new_size` bytes as `allocate` does; the old block is
    /// not reclaimed.
    fn realloc(&self, ptr: usize, layout: Layout, new_size: usize) -> (r: usize) {
        match Layout::from_size_align(new_size, layout.align()) {
            Some(new_layout) => self.allocate(new_layout),
            None => 0,
        }
    }
}

/// The aligned offset is the first offset at or after `cursor` whose address is a
/// multiple of `align`, and it lies less than `align` bytes after `cursor`.
pub proof fn lemma_aligned_offset(base: int, cursor: int, align: int)
    requires
        align > 0,
    ensures
        cursor <= aligned_offset(base, cursor, align) < cursor + align,
        (base + aligned_offset(base, cursor, align)) % align == 0,
        forall|s: int|
            cursor <= s < aligned_offset(base, cursor, align) ==> #[trigger] ((base + s) % align) != 0,
{
    let x = base + cursor;
    let q = x / align;
    let r = x % align;
    lemma_fundamental_div_mod(x, align);
    assert(x == q * align + r) by (nonlinear_arith)
        requires
            x == align * q + r,
    ;
    if r == 0 {
        lemma_fundamental_div_mod_converse_mod(align, align, 1, 0);
    } else {
        lemma_fundamental_div_mod_converse_mod(align - r, align, 0, align - r);
        assert(base + aligned_offset(base, cursor, align) == (q + 1) * align + 0) by (nonlinear_arith)
            requires
                x == q * align + r,
                x == base + cursor,
                aligned_offset(base, cursor, align) == cursor + align - r,
        ;
        lemma_fundamental_div_mod_converse_mod(base + aligned_offset(base, cursor, align), align, q + 1, 0);
        assert forall|s: int| cursor <= s < aligned_offset(base, cursor, align) implies #[trigger] ((base + s) % align) != 0 by {
            assert(base + s == q * align + (r + s - cursor));
            lemma_fundamental_div_mod_converse_mod(base + s, align, q, r + s - cursor);
        }
    }
}

/// Each request has a size of zero or more bytes and a positive alignment.
pub open spec fn requests_valid(reqs: Seq<(int, int)>) -> bool {
    forall|k: int| 0 <= k < reqs.len() ==> (#[trigger] reqs[k]).0 >= 0 && reqs[k].1 > 0
}

/// The cursor after the requests `reqs` (size, alignment) were served one after
/// another from `cursor`; a request that does not fit leaves the cursor where it was.
pub open spec fn cursor_after(base: int, capacity: int, cursor: int, reqs: Seq<(int, int)>) -> int
    decreases reqs.len(),
{
    if reqs.len() == 0 {
        cursor
    } else {
        let prev = cursor_after(base, capacity, cursor, reqs.drop_last());
        match bump(base, capacity, prev, reqs.last().0, reqs.last().1) {
            Some(next) => next,
            None => prev,
        }
    }
}

/// The offset at which request `i` of `reqs` was served, or `None` if it failed.
pub open spec fn served_offset(base: int, capacity: int, cursor: int, reqs: Seq<(int, int)>, i: int) -> Option<int> {
    serve(base, capacity, cursor_after(base, capacity, cursor, reqs.take(i)), reqs[i].0, reqs[i].1)
}

proof fn lemma_cursor_step(base: int, capacity: int, cursor: int, reqs: Seq<(int, int)>, i: int)
    requires
        0 <= i < reqs.len(),
    ensures
        cursor_after(base, capacity, cursor, reqs.take(i + 1)) == match bump(
            base,
            capacity,
            cursor_after(base, capacity, cursor, reqs.take(i)),
            reqs[i].0,
            reqs[i].1,
        ) {
            Some(next) => next,
            None => cursor_after(base, capacity, cursor, reqs.take(i)),
        },
{
    assert(reqs.take(i + 1).drop_last() =~= reqs.take(i));
}

/// Serving a request never moves the cursor back, nor past the end of the region.
pub proof fn lemma_bump_monotone(base: int, capacity: int, cursor: int, size: int, align: int)
    requires
        size >= 0,
        align > 0,
    ensures
        bump(base, capacity, cursor, size, align) matches Some(next) ==> cursor <= next <= capacity,
{
    lemma_aligned_offset(base, cursor, align);
}

/// A request that does not fit at one cursor does not fit at any later cursor.
pub proof fn lemma_bump_exhausted(base: int, capacity: int, cursor: int, later: int, size: int, align: int)
    requires
        align > 0,
        cursor <= later,
        bump(base, capacity, cursor, size, align) is None,
    ensures
        bump(base, capacity, later, size, align) is None,
{
    lemma_aligned_offset(base, cursor, align);
    lemma_aligned_offset(base, later, align);
    let s = aligned_offset(base, later, align);
    assert((base + s) % align == 0);
    assert(aligned_offset(base, cursor, align) <= s);
}

/// Once the cursor has reached the end of the region, every request for one byte or
/// more fails.
pub proof fn lemma_full_region_fails(base: int, capacity: int, cursor: int, size: int, align: int)
    requires
        align > 0,
        cursor >= capacity,
        size > 0,
    ensures
        bump(base, capacity, cursor, size, align) is None,
{
    lemma_aligned_offset(base, cursor, align);
}

/// Monotonicity: along any order in which requests are served, the cursor never
/// decreases and, starting within the region, never passes its end.
pub proof fn lemma_cursor_monotone(base: int, capacity: int, cursor: int, reqs: Seq<(int, int)>, i: int, j: int)
    requires
        requests_valid(reqs),
        0 <= cursor <= capacity,
        0 <= i <= j <= reqs.len(),
    ensures
        cursor <= cursor_after(base, capacity, cursor, reqs.take(i)),
        cursor_after(base, capacity, cursor, reqs.take(i)) <= cursor_after(base, capacity, cursor, reqs.take(j)),
        cursor_after(base, capacity, cursor, reqs.take(j)) <= capacity,
    decreases j,
{
    if j == 0 {
        assert(reqs.take(0) =~= Seq::<(int, int)>::empty());
    } else if i == j {
        lemma_cursor_monotone(base, capacity, cursor, reqs, i - 1, j - 1);
        lemma_cursor_step(base, capacity, cursor, reqs, j - 1);
        assert(requests_valid(reqs) && 0 <= j - 1 < reqs.len());
        let r = reqs[j - 1];
        lemma_bump_monotone(base, capacity, cursor_after(base, capacity, cursor, reqs.take(j - 1)), r.0, r.1);
    } else {
        lemma_cursor_monotone(base, capacity, cursor, reqs, i, j - 1);
        lemma_cursor_step(base, capacity, cursor, reqs, j - 1);
        let r = reqs[j - 1];
        lemma_bump_monotone(base, capacity, cursor_after(base, capacity, cursor, reqs.take(j - 1)), r.0, r.1);
    }
}

/// Alignment: every request that is served gets an address that is a multiple of its
/// alignment, and a block that lies within the region.
pub proof fn lemma_served_aligned(base: int, capacity: int, cursor: int, reqs: Seq<(int, int)>, i: int)
    requires
        requests_valid(reqs),
        0 <= cursor <= capacity,
        0 <= i < reqs.len(),
    ensures
        served_offset(base, capacity, cursor, reqs, i) matches Some(off) ==> {
            &&& (base + off) % reqs[i].1 == 0
            &&& 0 <= off
            &&& off + reqs[i].0 <= capacity
        },
{
    lemma_cursor_monotone(base, capacity, cursor, reqs, i, i);
    lemma_aligned_offset(base, cursor_after(base, capacity, cursor, reqs.take(i)), reqs[i].1);
}

/// Disjointness: along any order in which requests are served, the blocks handed out
/// do not overlap; each lies after every block served before it.
pub proof fn lemma_served_disjoint(base: int, capacity: int, cursor: int, reqs: Seq<(int, int)>, i: int, j: int)
    requires
        requests_valid(reqs),
        0 <= cursor <= capacity,
        0 <= i < j < reqs.len(),
        served_offset(base, capacity, cursor, reqs, i) is Some,
        served_offset(base, capacity, cursor, reqs, j) is Some,
    ensures
        served_offset(base, capacity, cursor, reqs, i)->0 + reqs[i].0 <= served_offset(base, capacity, cursor, reqs, j)->0,
{
    lemma_cursor_step(base, capacity, cursor, reqs, i);
    lemma_cursor_monotone(base, capacity, cursor, reqs, i + 1, j);
    lemma_aligned_offset(base, cursor_after(base, capacity, cursor, reqs.take(j)), reqs[j].1);
}

/// Exhaustion: once a request does not fit, it fails again at every later point of
/// any order in which requests are served.
pub proof fn lemma_exhaustion_final(base: int, capacity: int, cursor: int, reqs: Seq<(int, int)>, i: int, j: int, size: int, align: int)
    requires
        requests_valid(reqs),
        0 <= cursor <= capacity,
        0 <= i <= j <= reqs.len(),
        align > 0,
        bump(base, capacity, cursor_after(base, capacity, cursor, reqs.take(i)), size, align) is None,
    ensures
        bump(base, capacity, cursor_after(base, capacity, cursor, reqs.take(j)), size, align) is None,
{
    lemma_cursor_monotone(base, capacity, cursor, reqs, i, j);
    lemma_bump_exhausted(
        base,
        capacity,
        cursor_after(base, capacity, cursor, reqs.take(i)),
        cursor_after(base, capacity, cursor, reqs.take(j)),
        size,
        align,
    );
}

} // verus!
