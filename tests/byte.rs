use std::fmt::Debug;
use wireview::{load, serialize, to_vec, Native, SliceAllocator, State, U8Serializer, VecAllocator};

fn ok<N: Native + PartialEq + Debug>(value: N, expected: &[u8]) {
    let bytes = to_vec(&value).unwrap();
    assert_eq!(bytes, expected);
    assert_eq!(load::<N>(&bytes).unwrap(), value);
    let bounded = serialize(&value, SliceAllocator::new(vec![0xAA; expected.len()]));
    assert_eq!(bounded.into_inner(), expected);
}

#[test]
fn u8_success() {
    ok(0u8, &[0x00]);
    ok(1u8, &[0x01]);
    ok(u8::MAX, &[0xFF]);
}

#[test]
fn unambiguous_load() {
    let buffer: &[u8] = &[10];
    load::<u8>(&buffer).unwrap();
}

#[test]
fn u8_every_byte_loads() {
    for b in 0..=255u8 {
        assert_eq!(load::<u8>(&[b]).unwrap(), b);
    }
}

#[test]
fn u8_serializer_writes_byte() {
    let state = U8Serializer::new(State::new(VecAllocator::new())).serialize(7);
    let state = U8Serializer::new(state).serialize(9);
    assert_eq!(state.finish().into_inner(), vec![7, 9]);
}
