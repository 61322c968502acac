//! Tests of the owning buffer: construction, offset handling and segment
//! minting.

use segsource::Endidness;
use segsource::Error;
use segsource::VecSource;

const TEST_U8_DATA: [u8; 16] = [
    0x00, 0x01, 0x02, 0x03, 0x04, 0x05, 0x06, 0x07, 0x08, 0x09, 0x0a, 0x0b, 0x0c, 0x0d, 0x0e,
    0x0f,
];

#[test]
fn doc_example_offset_100() {
    let test_data = [0x00u8, 0x01, 0x02, 0x03, 0x04, 0x05];
    let source =
        VecSource::from_u8_slice_with_offset(&test_data, 100, Endidness::Big).unwrap();
    let segment = source.all().unwrap();
    assert_eq!(segment.u8_at(100).unwrap(), 0);
    assert!(matches!(
        segment.u8_at(99),
        Err(Error::OffsetTooSmall { offset: 99 })
    ));
}

#[test]
fn change_offset_tests() {
    let mut source = VecSource::from_u8_slice(&TEST_U8_DATA, Endidness::Little).unwrap();
    assert_eq!(source.initial_offset(), 0);
    assert_eq!(source.lower_offset_limit(), 0);
    assert_eq!(source.upper_offset_limit(), source.size());
    source.change_initial_offset(10);
    assert_eq!(source.initial_offset(), 10);
    assert_eq!(source.lower_offset_limit(), 10);
    assert_eq!(source.upper_offset_limit(), 10 + source.size());
    source.change_initial_offset(3);
    assert_eq!(source.initial_offset(), 3);
    assert_eq!(source.lower_offset_limit(), 3);
    assert_eq!(source.upper_offset_limit(), 3 + source.size());
    source.change_initial_offset(1001);
    assert_eq!(source.initial_offset(), 1001);
    assert_eq!(source.lower_offset_limit(), 1001);
    assert_eq!(source.upper_offset_limit(), 1001 + source.size());
}

#[test]
fn basic_u8_source_tests() {
    let mut source = VecSource::from_u8_vec(TEST_U8_DATA.to_vec(), Endidness::Little).unwrap();
    assert_eq!(source.endidness(), Endidness::Little);
    source.change_endidness(Endidness::Big);
    assert_eq!(source.endidness(), Endidness::Big);
    let segment = source.all().unwrap();
    assert_eq!(segment.endidness(), Endidness::Big);
    assert_eq!(segment.u16_at(0).unwrap(), 0x0001);
}

#[test]
fn source_segment_minting() {
    let source = VecSource::from_u8_slice(&TEST_U8_DATA, Endidness::Little).unwrap();
    let child = source.segment(3, 7).unwrap();
    assert_eq!(child.initial_offset(), 3);
    assert_eq!(child.as_slice(), &TEST_U8_DATA[3..7]);
    let all = source.all().unwrap();
    assert_eq!(all.size(), 16);
    assert_eq!(all.as_slice(), &TEST_U8_DATA);
    let before = source.all_before(4).unwrap();
    assert_eq!(before.as_slice(), &TEST_U8_DATA[..4]);
    assert_eq!(before.initial_offset(), 0);
    let after = source.all_after(4).unwrap();
    assert_eq!(after.as_slice(), &TEST_U8_DATA[4..]);
    assert_eq!(after.initial_offset(), 4);
    let four = source.get_n(5, 4).unwrap();
    assert_eq!(four.as_slice(), &TEST_U8_DATA[5..9]);
    assert_eq!(four.initial_offset(), 5);
}

#[test]
fn source_bounds_errors() {
    let source =
        VecSource::from_u8_slice_with_offset(&TEST_U8_DATA, 10, Endidness::Little).unwrap();
    assert!(matches!(
        source.segment(9, 12),
        Err(Error::OffsetTooSmall { offset: 9 })
    ));
    assert!(matches!(
        source.segment(10, 27),
        Err(Error::OffsetTooLarge { offset: 27 })
    ));
    assert_eq!(source.validate_offset(26), Ok(()));
    assert!(matches!(
        source.validate_offset(27),
        Err(Error::OffsetTooLarge { offset: 27 })
    ));
    let empty = source.segment(26, 26).unwrap();
    assert_eq!(empty.size(), 0);
}

#[test]
fn generic_vec_source() {
    let words = vec![5u64, 6, 7];
    let source = VecSource::from_vec_with_offset(words, 2).unwrap();
    let mut segment = source.all().unwrap();
    assert_eq!(segment.initial_offset(), 2);
    assert_eq!(segment.next_item().unwrap(), 5);
    assert_eq!(segment.item_at(4).unwrap(), 7);
}

#[test]
fn from_segment_keeps_offset_and_endidness() {
    let source = VecSource::from_u8_slice(&TEST_U8_DATA, Endidness::Big).unwrap();
    let mut segment = source.all().unwrap();
    segment.move_to(6).unwrap();
    let derived = VecSource::from_segment(segment).unwrap();
    assert_eq!(derived.initial_offset(), 6);
    assert_eq!(derived.size(), 16);
    assert_eq!(derived.endidness(), Endidness::Big);
    let view = derived.all().unwrap();
    assert_eq!(view.u16_at(6).unwrap(), 0x0001);
}

#[test]
fn from_slice_and_from_vec() {
    let a = VecSource::from_slice(&TEST_U8_DATA[..4]).unwrap();
    assert_eq!(a.size(), 4);
    assert_eq!(a.initial_offset(), 0);
    let b: VecSource<u8> = VecSource::from_vec(TEST_U8_DATA.to_vec()).unwrap();
    assert_eq!(b.size(), 16);
    let c = VecSource::from_u8_vec_with_offset(vec![1u8, 2], 7, Endidness::Little).unwrap();
    assert_eq!(c.lower_offset_limit(), 7);
    assert_eq!(c.upper_offset_limit(), 9);
}
