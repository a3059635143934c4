use std::fmt::Debug;
use wireview::{load, serialize, to_vec, Native, SliceAllocator};

fn ok<N: Native + PartialEq + Debug>(value: N, expected: &[u8]) {
    let bytes = to_vec(&value).unwrap();
    assert_eq!(bytes, expected);
    assert_eq!(load::<N>(&bytes).unwrap(), value);
    let bounded = serialize(&value, SliceAllocator::new(vec![0xAA; expected.len()]));
    assert_eq!(bounded.into_inner(), expected);
}

#[test]
fn integer_success() {
    ok(0u16, &[0x00, 0x00]);
    ok(1u16, &[0x01, 0x00]);
    ok(u16::MAX, &[0xFF, 0xFF]);
    ok(0i16, &[0x00, 0x00]);
    ok(1i16, &[0x01, 0x00]);
    ok(-1i16, &[0xFF, 0xFF]);
    ok(i16::MAX, &[0xFF, 0x7F]);
    ok(i16::MIN, &[0x00, 0x80]);

    ok(0u32, &[0x00, 0x00, 0x00, 0x00]);
    ok(1u32, &[0x01, 0x00, 0x00, 0x00]);
    ok(u32::MAX, &[0xFF, 0xFF, 0xFF, 0xFF]);
    ok(0i32, &[0x00, 0x00, 0x00, 0x00]);
    ok(1i32, &[0x01, 0x00, 0x00, 0x00]);
    ok(-1i32, &[0xFF, 0xFF, 0xFF, 0xFF]);
    ok(i32::MAX, &[0xFF, 0xFF, 0xFF, 0x7F]);
    ok(i32::MIN, &[0x00, 0x00, 0x00, 0x80]);

    ok(0u64, &[0x00, 0x00, 0x00, 0x00, 0x00, 0x00, 0x00, 0x00]);
    ok(1u64, &[0x01, 0x00, 0x00, 0x00, 0x00, 0x00, 0x00, 0x00]);
    ok(u64::MAX, &[0xFF, 0xFF, 0xFF, 0xFF, 0xFF, 0xFF, 0xFF, 0xFF]);
    ok(0i64, &[0x00, 0x00, 0x00, 0x00, 0x00, 0x00, 0x00, 0x00]);
    ok(1i64, &[0x01, 0x00, 0x00, 0x00, 0x00, 0x00, 0x00, 0x00]);
    ok(-1i64, &[0xFF, 0xFF, 0xFF, 0xFF, 0xFF, 0xFF, 0xFF, 0xFF]);
    ok(i64::MAX, &[0xFF, 0xFF, 0xFF, 0xFF, 0xFF, 0xFF, 0xFF, 0x7F]);
    ok(i64::MIN, &[0x00, 0x00, 0x00, 0x00, 0x00, 0x00, 0x00, 0x80]);

    ok(0u128, &[0x00, 0x00, 0x00, 0x00, 0x00, 0x00, 0x00, 0x00,
                0x00, 0x00, 0x00, 0x00, 0x00, 0x00, 0x00, 0x00]);
    ok(1u128, &[0x01, 0x00, 0x00, 0x00, 0x00, 0x00, 0x00, 0x00,
                0x00, 0x00, 0x00, 0x00, 0x00, 0x00, 0x00, 0x00]);
    ok(u128::MAX, &[0xFF, 0xFF, 0xFF, 0xFF, 0xFF, 0xFF, 0xFF, 0xFF,
                    0xFF, 0xFF, 0xFF, 0xFF, 0xFF, 0xFF, 0xFF, 0xFF]);
    ok(0i128, &[0x00, 0x00, 0x00, 0x00, 0x00, 0x00, 0x00, 0x00,
                0x00, 0x00, 0x00, 0x00, 0x00, 0x00, 0x00, 0x00]);
    ok(1i128, &[0x01, 0x00, 0x00, 0x00, 0x00, 0x00, 0x00, 0x00,
                0x00, 0x00, 0x00, 0x00, 0x00, 0x00, 0x00, 0x00]);
    ok(-1i128, &[0xFF, 0xFF, 0xFF, 0xFF, 0xFF, 0xFF, 0xFF, 0xFF,
                 0xFF, 0xFF, 0xFF, 0xFF, 0xFF, 0xFF, 0xFF, 0xFF]);
    ok(i128::MAX, &[0xFF, 0xFF, 0xFF, 0xFF, 0xFF, 0xFF, 0xFF, 0xFF,
                    0xFF, 0xFF, 0xFF, 0xFF, 0xFF, 0xFF, 0xFF, 0x7F]);
    ok(i128::MIN, &[0x00, 0x00, 0x00, 0x00, 0x00, 0x00, 0x00, 0x00,
                    0x00, 0x00, 0x00, 0x00, 0x00, 0x00, 0x00, 0x80]);
}

#[test]
fn integer_little_endian_order() {
    ok(0x0102u16, &[0x02, 0x01]);
    ok(0x01020304u32, &[0x04, 0x03, 0x02, 0x01]);
    ok(0x0102030405060708u64, &[8, 7, 6, 5, 4, 3, 2, 1]);
    ok(-2i32, &[0xFE, 0xFF, 0xFF, 0xFF]);
}

#[test]
fn integer_any_bytes_load() {
    assert_eq!(load::<u16>(&[0x34, 0x12]).unwrap(), 0x1234);
    assert_eq!(load::<i16>(&[0x00, 0xFF]).unwrap(), -256);
    assert_eq!(load::<u32>(&[0xEF, 0xBE, 0xAD, 0xDE]).unwrap(), 0xDEADBEEF);
    assert_eq!(load::<i64>(&[0xFF; 8]).unwrap(), -1);
    assert_eq!(load::<u128>(&[0xAB; 16]).unwrap(), u128::from_le_bytes([0xAB; 16]));
}
