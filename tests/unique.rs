use alloc_many::Unique;

#[test]
fn null_is_refused() {
    assert!(Unique::<u32>::new(0).is_none());
    assert_eq!(Unique::<u32>::new(0x40).unwrap().as_ptr(), 0x40);
    assert_eq!(Unique::<u32>::new_unchecked(0x44).as_ptr(), 0x44);
}

#[test]
fn empty_is_aligned_dangling() {
    assert_eq!(Unique::<u64>::empty().as_ptr(), std::mem::align_of::<u64>());
    assert_eq!(Unique::<u8>::empty().as_ptr(), 1);
}
