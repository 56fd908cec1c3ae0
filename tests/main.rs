use alloc_many::{Box, BumpAlloc};

#[test]
fn main() {
    let a: BumpAlloc<128> = BumpAlloc::new(0x2000);
    let x = Box::new(&a, 1i32).unwrap();
    assert_eq!(*x, 1);
}
