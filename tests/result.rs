use std::fmt::Debug;
use wireview::result::{ERR_DISCRIMINANT, OK_DISCRIMINANT};
use wireview::{
    load, serialize, to_vec, view, Error, Native, Result, ResultSerializer, SliceAllocator, State,
    VecAllocator,
};

fn ok<N: Native + PartialEq + Debug>(value: N, expected: &[u8]) {
    let bytes = to_vec(&value).unwrap();
    assert_eq!(bytes, expected);
    assert_eq!(load::<N>(&bytes).unwrap(), value);
    let bounded = serialize(&value, SliceAllocator::new(vec![0xAA; expected.len()]));
    assert_eq!(bounded.into_inner(), expected);
}

#[test]
fn result_basic() {
    ok(core::result::Result::<char, u32>::Ok('a'), &[0, 97, 0, 0, 0]);
    ok(core::result::Result::<char, u32>::Err(67305985), &[1, 1, 2, 3, 4]);
    ok(core::result::Result::<u32, char>::Ok(67305985), &[0, 1, 2, 3, 4]);
    ok(core::result::Result::<u32, char>::Err('a'), &[1, 97, 0, 0, 0]);
}

#[test]
fn invalid_discriminant() {
    assert_eq!(
        view::<core::result::Result<u8, u8>>(&[2, 0]).unwrap_err(),
        Error::Discriminant { value: 2, maximum: ERR_DISCRIMINANT, ty: "Result" }
    );
}

#[test]
fn invalid_ok() {
    assert_eq!(
        view::<core::result::Result<char, u8>>(&[OK_DISCRIMINANT, 0xFF, 0xFF, 0xFF]).unwrap_err(),
        Error::Char { value: 0xFFFFFF }
    );
}

#[test]
fn invalid_err() {
    assert_eq!(
        view::<core::result::Result<u8, char>>(&[ERR_DISCRIMINANT, 0xFF, 0xFF, 0xFF]).unwrap_err(),
        Error::Char { value: 0xFFFFFF }
    );
}

#[test]
fn result_largest_tag_value() {
    assert_eq!(
        load::<core::result::Result<u16, char>>(&[0xFF, 1, 2, 3]).unwrap_err(),
        Error::Discriminant { value: 0xFF, maximum: 1, ty: "Result" }
    );
}

#[test]
fn result_padding_not_inspected() {
    let loaded = load::<core::result::Result<char, u32>>(&[0, 0x61, 0, 0, 0xEE]).unwrap();
    assert_eq!(loaded, Ok('a'));
    let loaded = load::<core::result::Result<u8, u16>>(&[0, 7, 0x99]).unwrap();
    assert_eq!(loaded, Ok(7));
}

#[test]
fn result_tags_select_variant() {
    assert_eq!(load::<core::result::Result<u8, u8>>(&[0, 5]).unwrap(), Ok(5));
    assert_eq!(load::<core::result::Result<u8, u8>>(&[1, 5]).unwrap(), Err(5));
    match view::<core::result::Result<u8, u16>>(&[1, 0x34, 0x12]).unwrap() {
        Result::Failure(v) => assert_eq!(v, 0x1234),
        Result::Success(_) => panic!("wrong variant"),
    }
}

#[test]
fn result_nested() {
    type Inner = core::result::Result<u8, char>;
    type Outer = core::result::Result<Inner, u16>;
    ok::<Outer>(Ok(Err('b')), &[0, 1, 0x62, 0, 0]);
    ok::<Outer>(Err(0x0201), &[1, 1, 2, 0, 0]);
    assert_eq!(
        load::<Outer>(&[0, 0, 0xFF, 0xFF, 0xFF]).unwrap(),
        Ok(Ok(0xFF))
    );
    assert_eq!(
        load::<Outer>(&[0, 1, 0xFF, 0xFF, 0xFF]).unwrap_err(),
        Error::Char { value: 0xFFFFFF }
    );
    assert_eq!(
        load::<Outer>(&[0, 3, 0, 0, 0]).unwrap_err(),
        Error::Discriminant { value: 3, maximum: 1, ty: "Result" }
    );
}

#[test]
fn result_serializer_pads_shorter_variant() {
    let state = State::new(VecAllocator::new());
    let state = ResultSerializer::<_, u8, u32>::new(state).ok(&9);
    let state = ResultSerializer::<_, u8, u32>::new(state).err(&0x0A0B0C0D);
    assert_eq!(state.finish().into_inner(), vec![0, 9, 0, 0, 0, 1, 0x0D, 0x0C, 0x0B, 0x0A]);
}
