//! Tests of the shared-buffer source.

use bytes::Bytes;
use segsource::BytesSource;
use segsource::VecSource;
use segsource::Endidness;
use segsource::Error;

const TEST_U8_DATA: [u8; 16] = [
    0x00, 0x01, 0x02, 0x03, 0x04, 0x05, 0x06, 0x07, 0x08, 0x09, 0x0a, 0x0b, 0x0c, 0x0d, 0x0e,
    0x0f,
];

#[test]
fn from_bytes_and_read() {
    let bytes = Bytes::from(TEST_U8_DATA.to_vec());
    let source = BytesSource::from_bytes(bytes, Endidness::Big).unwrap();
    assert_eq!(source.size(), 16);
    assert_eq!(source.endidness(), Endidness::Big);
    let mut segment = source.all().unwrap();
    assert_eq!(segment.next_u16().unwrap(), 0x0001);
    assert_eq!(segment.u32_at(4).unwrap(), 0x04050607);
}

#[test]
fn from_bytes_with_offset_and_bounds() {
    let bytes = Bytes::from(TEST_U8_DATA.to_vec());
    let source = BytesSource::from_bytes_with_offset(bytes, 100, Endidness::Little).unwrap();
    assert_eq!(source.lower_offset_limit(), 100);
    assert_eq!(source.upper_offset_limit(), 116);
    let segment = source.all().unwrap();
    assert_eq!(segment.u8_at(100).unwrap(), 0);
    assert!(matches!(
        segment.u8_at(99),
        Err(Error::OffsetTooSmall { offset: 99 })
    ));
    assert!(matches!(
        BytesSource::from_bytes_with_offset(
            Bytes::from(vec![1u8, 2]),
            usize::MAX,
            Endidness::Little
        ),
        Err(Error::OffsetTooLarge { offset: usize::MAX })
    ));
}

#[test]
fn bytes_source_segment_minting() {
    let source = BytesSource::from_u8_slice(&TEST_U8_DATA, Endidness::Little).unwrap();
    let child = source.segment(3, 7).unwrap();
    assert_eq!(child.initial_offset(), 3);
    assert_eq!(child.as_slice(), &TEST_U8_DATA[3..7]);
    let before = source.all_before(4).unwrap();
    assert_eq!(before.as_slice(), &TEST_U8_DATA[..4]);
    let after = source.all_after(4).unwrap();
    assert_eq!(after.as_slice(), &TEST_U8_DATA[4..]);
    let four = source.get_n(5, 4).unwrap();
    assert_eq!(four.as_slice(), &TEST_U8_DATA[5..9]);
    assert!(matches!(
        source.segment(3, 17),
        Err(Error::OffsetTooLarge { offset: 17 })
    ));
}

#[test]
fn bytes_source_offset_and_endidness_changes() {
    let mut source =
        BytesSource::from_u8_vec(TEST_U8_DATA.to_vec(), Endidness::Little).unwrap();
    assert_eq!(source.endidness(), Endidness::Little);
    source.change_endidness(Endidness::Big);
    assert_eq!(source.endidness(), Endidness::Big);
    source.change_initial_offset(10);
    assert_eq!(source.initial_offset(), 10);
    assert_eq!(source.validate_offset(26), Ok(()));
    assert!(matches!(
        source.validate_offset(9),
        Err(Error::OffsetTooSmall { offset: 9 })
    ));
    let segment = source.all().unwrap();
    assert_eq!(segment.u16_at(10).unwrap(), 0x0001);
}

#[test]
fn shared_handles_view_same_memory() {
    let bytes = Bytes::from(TEST_U8_DATA.to_vec());
    let twin = bytes.clone();
    let a = BytesSource::from_bytes(bytes, Endidness::Little).unwrap();
    let b = BytesSource::from_u8_vec_with_offset(twin.to_vec(), 2, Endidness::Little).unwrap();
    assert_eq!(a.all().unwrap().u8_at(7).unwrap(), 0x07);
    assert_eq!(b.all().unwrap().u8_at(7).unwrap(), 0x05);
}

#[test]
fn vec_source_from_bytes() {
    let bytes = Bytes::from(TEST_U8_DATA.to_vec());
    let source = VecSource::from_bytes(bytes, Endidness::Little).unwrap();
    assert_eq!(source.size(), 16);
    let segment = source.all().unwrap();
    assert_eq!(segment.u16_at(0).unwrap(), 0x0100);
    let shifted =
        VecSource::from_bytes_with_offset(Bytes::from(vec![7u8, 8]), 5, Endidness::Big).unwrap();
    assert_eq!(shifted.all().unwrap().u8_at(6).unwrap(), 8);
}
