use std::cell::Cell;

use alloc_many::{Alloc, Box, BumpAlloc, Layout};

struct Z<'c>(&'c Cell<u8>);

impl Drop for Z<'_> {
    fn drop(&mut self) {
        self.0.set(self.0.get() - 1);
    }
}

#[test]
fn sanity() {
    let a: BumpAlloc<128> = BumpAlloc::new(0x1000);

    let x = Box::new(&a, 0u8).unwrap();
    assert_eq!(*x, 0);

    // test aligned allocation
    let y = Box::new(&a, 1).unwrap();
    assert_eq!(y.addr() % 4, 0);
    assert_eq!(*y, 1);

    let z = Box::new(&a, [2, 3]).unwrap();
    assert_eq!(*z, [2, 3]);

    // test teardown
    let count = Cell::new(2u8);
    let w = Box::new(&a, [Z(&count), Z(&count)]).unwrap();
    drop(w);
    assert_eq!(count.get(), 0);

    // OOM
    assert_eq!(a.allocate(Layout::from_size_align(128, 1).unwrap()), 0);
}

#[test]
fn free_runs_teardown_once() {
    let a: BumpAlloc<64> = BumpAlloc::new(0x1000);
    let count = Cell::new(1u8);
    let b = Box::new(&a, Z(&count)).unwrap();
    assert_eq!(count.get(), 1);
    b.free();
    assert_eq!(count.get(), 0);
}

#[test]
fn box_as_mut_keeps_block() {
    let a: BumpAlloc<64> = BumpAlloc::new(0x1000);
    let mut b = Box::new(&a, 41i32).unwrap();
    let addr = b.addr();
    *b.as_mut() += 1;
    assert_eq!(*b.as_ref(), 42);
    assert_eq!(b.addr(), addr);
}

#[test]
fn box_out_of_memory_reports_layout() {
    let a: BumpAlloc<4> = BumpAlloc::new(0x1000);
    let r = Box::new(&a, 7u64);
    assert_eq!(
        r.err(),
        Some(alloc_many::AllocError::AllocationFailure(Layout::new::<u64>()))
    );
}

#[test]
fn equality_and_order_ignore_the_arena() {
    let a: BumpAlloc<64> = BumpAlloc::new(0x1000);
    let b: BumpAlloc<32> = BumpAlloc::new(0x9000);
    let x = Box::new(&a, 5u32).unwrap();
    let y = Box::new(&b, 5u32).unwrap();
    let z = Box::new(&b, 9u32).unwrap();
    assert!(x == y);
    assert!(x != z);
    assert!(x < z);
    assert_eq!(x.partial_cmp(&y), Some(std::cmp::Ordering::Equal));
    assert_eq!(z.partial_cmp(&x), Some(std::cmp::Ordering::Greater));
}
