use std::rc::Rc;

use alloc_many::vec::{amortized_new_capacity, layout_array, layout_repeat, padding_needed_for};
use alloc_many::{AllocError, BumpAlloc, Layout, Vec};

#[test]
fn scenario_capacity_doubles() {
    let a: BumpAlloc<1024> = BumpAlloc::new(0x1000);
    let mut v: Vec<'_, u32, _> = Vec::new(&a);
    assert_eq!(v.capacity(), 0);
    assert_eq!(v.len(), 0);
    v.push(10).unwrap();
    assert_eq!((v.len(), v.capacity()), (1, 1));
    v.push(20).unwrap();
    assert_eq!((v.len(), v.capacity()), (2, 2));
    v.push(30).unwrap();
    assert_eq!((v.len(), v.capacity()), (3, 4));
    assert_eq!(v.as_slice(), &[10, 20, 30]);
}

#[test]
fn growth_law_powers_of_two() {
    let a: BumpAlloc<65535> = BumpAlloc::new(0x10000);
    let mut v: Vec<'_, u8, _> = Vec::new(&a);
    let mut growths = 0u32;
    for n in 1..=1000usize {
        let before = v.capacity();
        v.push((n % 256) as u8).unwrap();
        if v.capacity() != before {
            growths += 1;
        }
        assert_eq!(v.len(), n);
        assert_eq!(v.capacity(), n.next_power_of_two());
        assert!(v.capacity() >= v.len());
    }
    assert_eq!(growths, 11);
    assert!(2u64.pow(growths) < 4 * 1000);
}

#[test]
fn growth_keeps_contents() {
    let a: BumpAlloc<4096> = BumpAlloc::new(0x1000);
    let mut v: Vec<'_, u64, _> = Vec::new(&a);
    for i in 0..40u64 {
        v.push(i * 3).unwrap();
        let expected: std::vec::Vec<u64> = (0..=i).map(|k| k * 3).collect();
        assert_eq!(&v[..], &expected[..]);
    }
    v.reserve(100).unwrap();
    assert_eq!(v.capacity(), 164);
    let expected: std::vec::Vec<u64> = (0..40).map(|k| k * 3).collect();
    assert_eq!(&v[..], &expected[..]);
}

#[test]
fn pop_keeps_capacity() {
    let a: BumpAlloc<256> = BumpAlloc::new(0x1000);
    let mut v: Vec<'_, i16, _> = Vec::new(&a);
    assert_eq!(v.pop(), None);
    v.push(1).unwrap();
    v.push(2).unwrap();
    v.push(3).unwrap();
    assert_eq!(v.pop(), Some(3));
    assert_eq!(v.pop(), Some(2));
    assert_eq!(v.len(), 1);
    assert_eq!(v.capacity(), 4);
    assert_eq!(v.pop(), Some(1));
    assert_eq!(v.pop(), None);
    assert_eq!(v.capacity(), 4);
}

#[test]
fn get_reads_in_range() {
    let a: BumpAlloc<256> = BumpAlloc::new(0x1000);
    let mut v: Vec<'_, char, _> = Vec::new(&a);
    v.push('a').unwrap();
    v.push('b').unwrap();
    assert_eq!(v.get(0), Some(&'a'));
    assert_eq!(v.get(1), Some(&'b'));
    assert_eq!(v.get(2), None);
    assert_eq!(v[1], 'b');
}

#[test]
fn reserve_within_room_does_nothing() {
    let a: BumpAlloc<256> = BumpAlloc::new(0x1000);
    let mut v: Vec<'_, u32, _> = Vec::new(&a);
    v.reserve(5).unwrap();
    assert_eq!(v.capacity(), 5);
    v.push(1).unwrap();
    v.reserve(4).unwrap();
    assert_eq!(v.capacity(), 5);
    v.reserve(5).unwrap();
    assert_eq!(v.capacity(), 10);
}

#[test]
fn zero_sized_elements_need_no_storage() {
    let a: BumpAlloc<1> = BumpAlloc::new(0x1000);
    let mut v: Vec<'_, (), _> = Vec::new(&a);
    assert_eq!(v.capacity(), usize::MAX);
    for _ in 0..10 {
        v.push(()).unwrap();
    }
    assert_eq!(v.len(), 10);
    assert_eq!(v.capacity(), usize::MAX);
    assert_eq!(v.reserve(usize::MAX), Err(AllocError::CapacityOverflow));
    assert_eq!(v.len(), 10);
}

#[test]
fn reserve_overflow_is_capacity_overflow() {
    let a: BumpAlloc<64> = BumpAlloc::new(0x1000);
    let mut v: Vec<'_, u32, _> = Vec::new(&a);
    assert_eq!(v.reserve(usize::MAX), Err(AllocError::CapacityOverflow));
    assert_eq!(v.reserve(usize::MAX / 4), Err(AllocError::CapacityOverflow));
    assert_eq!(v.capacity(), 0);
}

#[test]
fn arena_exhaustion_is_allocation_failure() {
    let a: BumpAlloc<32> = BumpAlloc::new(0x1000);
    let mut v: Vec<'_, u64, _> = Vec::new(&a);
    v.push(1).unwrap();
    v.push(2).unwrap();
    assert_eq!(v.capacity(), 2);
    assert_eq!(
        v.push(3),
        Err(AllocError::AllocationFailure(Layout::from_size_align(32, 8).unwrap()))
    );
    assert_eq!(v.len(), 2);
    assert_eq!(v.capacity(), 2);
    assert_eq!(&v[..], &[1, 2]);
}

#[test]
fn free_releases_elements() {
    let a: BumpAlloc<256> = BumpAlloc::new(0x1000);
    let shared = Rc::new(5);
    let mut v: Vec<'_, Rc<i32>, _> = Vec::new(&a);
    v.push(shared.clone()).unwrap();
    v.push(shared.clone()).unwrap();
    assert_eq!(Rc::strong_count(&shared), 3);
    v.free();
    assert_eq!(Rc::strong_count(&shared), 1);
}

#[test]
fn amortized_capacity_formula() {
    assert_eq!(amortized_new_capacity(0, 1), Some(1));
    assert_eq!(amortized_new_capacity(1, 1), Some(2));
    assert_eq!(amortized_new_capacity(2, 1), Some(4));
    assert_eq!(amortized_new_capacity(4, 10), Some(14));
    assert_eq!(amortized_new_capacity(usize::MAX / 2 + 1, 1), None);
    assert_eq!(amortized_new_capacity(1, usize::MAX), None);
}

#[test]
fn padding_and_repeat() {
    let l = Layout::from_size_align(5, 4).unwrap();
    assert_eq!(padding_needed_for(&l, 4), 3);
    assert_eq!(padding_needed_for(&l, 1), 0);
    assert_eq!(padding_needed_for(&l, 8), 3);
    let (r, padded) = layout_repeat(&l, 3).unwrap();
    assert_eq!(padded, 8);
    assert_eq!((r.size(), r.align()), (24, 4));
    assert!(layout_repeat(&l, usize::MAX).is_none());
}

#[test]
fn array_layouts() {
    let l = layout_array::<u32>(10).unwrap();
    assert_eq!((l.size(), l.align()), (40, 4));
    let l = layout_array::<u64>(0).unwrap();
    assert_eq!((l.size(), l.align()), (0, 8));
    assert!(layout_array::<u64>(usize::MAX / 8).is_none());
}

#[test]
fn layout_validity() {
    assert!(Layout::from_size_align(8, 3).is_none());
    assert!(Layout::from_size_align(8, 0).is_none());
    assert!(Layout::from_size_align(usize::MAX, 1).is_none());
    let l = Layout::from_size_align(isize::MAX as usize, 1).unwrap();
    assert_eq!(l.size(), isize::MAX as usize);
    let l = Layout::new::<u64>();
    assert_eq!((l.size(), l.align()), (8, 8));
}
