use wireview::{serialize, to_vec, Allocator, Error, SliceAllocator, VecAllocator};

#[test]
fn slice_allocator_fills_from_start() {
    let allocator = serialize(&0x0201u16, SliceAllocator::new(vec![0xAA; 4]));
    let allocator = serialize(&3u8, allocator);
    assert_eq!(allocator.into_inner(), vec![1, 2, 3, 0xAA]);
}

#[test]
fn vec_allocator_appends() {
    let mut allocator = VecAllocator::new();
    allocator.write(&[1, 2]);
    allocator.write(&[]);
    allocator.write(&[3]);
    assert_eq!(allocator.into_inner(), vec![1, 2, 3]);
}

#[test]
fn vec_allocator_reserve_failure() {
    let mut allocator = VecAllocator::new();
    allocator.write(&[5]);
    match allocator.reserve(usize::MAX) {
        Err(Error::Allocation { .. }) => {},
        other => panic!("unexpected {:?}", other),
    }
    assert!(allocator.reserve(16).is_ok());
    assert_eq!(allocator.into_inner(), vec![5]);
}

#[test]
fn to_vec_encodes_whole_value() {
    assert_eq!(to_vec(&core::result::Result::<u8, u64>::Err(1)).unwrap(), vec![1, 1, 0, 0, 0, 0, 0, 0, 0]);
}
