//! Tests of the integer codec: exact decoded values and encode/decode round
//! trips in both byte orders.

use segsource::codec::be_decode;
use segsource::codec::be_encode;
use segsource::codec::le_decode;
use segsource::codec::le_encode;
use segsource::Endidness;
use segsource::Integer;
use segsource::Segment;

#[test]
fn le_decode_values() {
    assert_eq!(le_decode(&[]), 0);
    assert_eq!(le_decode(&[0xab]), 0xab);
    assert_eq!(le_decode(&[0x34, 0x12]), 0x1234);
    assert_eq!(le_decode(&[0x78, 0x56, 0x34, 0x12]), 0x12345678);
    assert_eq!(le_decode(&[0xff; 16]), u128::MAX);
}

#[test]
fn be_decode_values() {
    assert_eq!(be_decode(&[]), 0);
    assert_eq!(be_decode(&[0xab]), 0xab);
    assert_eq!(be_decode(&[0x12, 0x34]), 0x1234);
    assert_eq!(be_decode(&[0x12, 0x34, 0x56, 0x78]), 0x12345678);
    assert_eq!(be_decode(&[0xff; 16]), u128::MAX);
}

#[test]
fn encode_values() {
    assert_eq!(le_encode(0x1234, 2), vec![0x34, 0x12]);
    assert_eq!(be_encode(0x1234, 2), vec![0x12, 0x34]);
    assert_eq!(le_encode(0, 4), vec![0, 0, 0, 0]);
    assert_eq!(be_encode(0x01020304, 4), vec![0x01, 0x02, 0x03, 0x04]);
}

#[test]
fn round_trip_bytes_to_value_to_bytes() {
    let samples: [&[u8]; 5] = [
        &[0x00],
        &[0xde, 0xad, 0xbe, 0xef],
        &[0x00, 0x00, 0x01],
        &[0xff, 0x00, 0xff, 0x00, 0x12, 0x34, 0x56, 0x78],
        &[0x01; 16],
    ];
    for bytes in samples {
        let n = bytes.len();
        assert_eq!(le_encode(le_decode(bytes), n).as_slice(), bytes);
        assert_eq!(be_encode(be_decode(bytes), n).as_slice(), bytes);
    }
}

#[test]
fn round_trip_value_to_bytes_to_value() {
    for v in [0u128, 1, 0xff, 0x100, 0xfffe, 0x12345678, u64::MAX as u128] {
        assert_eq!(le_decode(le_encode(v, 8).as_slice()), v);
        assert_eq!(be_decode(be_encode(v, 8).as_slice()), v);
    }
    assert_eq!(le_decode(le_encode(u128::MAX, 16).as_slice()), u128::MAX);
    assert_eq!(be_decode(be_encode(u128::MAX, 16).as_slice()), u128::MAX);
}

#[test]
fn segment_decode_then_reencode_reproduces_bytes() {
    let data = [0x9au8, 0x3c, 0x51, 0x07];
    let mut le = Segment::with_endidness(&data, Endidness::Little);
    let v = le.next_u32().unwrap();
    assert_eq!(le_encode(v as u128, 4).as_slice(), &data);
    let mut be = Segment::with_endidness(&data, Endidness::Big);
    let w = be.next_u32().unwrap();
    assert_eq!(be_encode(w as u128, 4).as_slice(), &data);
    assert_eq!(v.swap_bytes(), w);
}

#[test]
fn integer_trait_decodes() {
    assert_eq!(<u16 as Integer>::from_le(&[0x01, 0x02]), 0x0201);
    assert_eq!(<u16 as Integer>::from_be(&[0x01, 0x02]), 0x0102);
    assert_eq!(<i8 as Integer>::from_le(&[0xff]), -1);
    assert_eq!(<i16 as Integer>::from_be(&[0x80, 0x00]), i16::MIN);
    assert_eq!(<i16 as Integer>::from_le(&[0x00, 0x80]), i16::MIN);
    assert_eq!(<i32 as Integer>::from_be(&[0xff, 0xff, 0xff, 0xff]), -1);
    assert_eq!(
        <u64 as Integer>::from_be(&[0x01, 0x02, 0x03, 0x04, 0x05, 0x06, 0x07, 0x08]),
        0x0102030405060708
    );
    assert_eq!(<i128 as Integer>::from_le(&[0xff; 16]), -1);
    assert_eq!(<u128 as Integer>::from_be(&[0xff; 16]), u128::MAX);
    assert_eq!(
        <i128 as Integer>::from_be(&[
            0x80, 0x00, 0x00, 0x00, 0x00, 0x00, 0x00, 0x00, 0x00, 0x00, 0x00, 0x00, 0x00, 0x00,
            0x00, 0x00
        ]),
        i128::MIN
    );
    assert_eq!(u8::width(), 1);
    assert_eq!(i64::width(), 8);
    assert_eq!(u128::width(), 16);
}

#[test]
fn with_endidness_dispatches() {
    assert_eq!(
        <u32 as Integer>::with_endidness(&[0x01, 0x02, 0x03, 0x04], Endidness::Big),
        0x01020304
    );
    assert_eq!(
        <u32 as Integer>::with_endidness(&[0x01, 0x02, 0x03, 0x04], Endidness::Little),
        0x04030201
    );
}

#[test]
fn iter_to_result_collects_or_stops() {
    let all_ok: Vec<Result<u8, segsource::Error>> = vec![Ok(1), Ok(2), Ok(3)];
    assert_eq!(segsource::iter_to_result(all_ok).unwrap(), vec![1, 2, 3]);
    let with_err: Vec<Result<u8, segsource::Error>> = vec![
        Ok(1),
        Err(segsource::Error::NoMoreData),
        Err(segsource::Error::OffsetTooSmall { offset: 9 }),
    ];
    assert!(matches!(
        segsource::iter_to_result(with_err),
        Err(segsource::Error::NoMoreData)
    ));
    let empty: Vec<Result<u8, segsource::Error>> = vec![];
    assert_eq!(segsource::iter_to_result(empty).unwrap(), Vec::<u8>::new());
}
