//! Tests of the segment cursor: sequential consumption, cursor control,
//! random access and lookahead.

use segsource::DataSegment;
use segsource::Endidness;
use segsource::Error;
use segsource::Integer;
use segsource::Segment;

const TEST_U8_DATA: [u8; 16] = [
    0x00, 0x01, 0x02, 0x03, 0x04, 0x05, 0x06, 0x07, 0x08, 0x09, 0x0a, 0x0b, 0x0c, 0x0d, 0x0e,
    0x0f,
];

const LE_U16_U8_DATA: [u16; 8] = [
    0x0100, 0x0302, 0x0504, 0x0706, 0x0908, 0x0b0a, 0x0d0c, 0x0f0e,
];
const BE_U16_U8_DATA: [u16; 8] = [
    0x0001, 0x0203, 0x0405, 0x0607, 0x0809, 0x0a0b, 0x0c0d, 0x0e0f,
];

const LE_U32_U8_DATA: [u32; 4] = [0x03020100, 0x07060504, 0x0b0a0908, 0x0f0e0d0c];
const BE_U32_U8_DATA: [u32; 4] = [0x00010203, 0x04050607, 0x08090a0b, 0x0c0d0e0f];

const LE_U64_U8_DATA: [u64; 2] = [0x0706050403020100, 0x0f0e0d0c0b0a0908];
const BE_U64_U8_DATA: [u64; 2] = [0x0001020304050607, 0x08090a0b0c0d0e0f];

const LE_U128_U8_DATA: [u128; 1] = [0x0f0e0d0c0b0a09080706050403020100];
const BE_U128_U8_DATA: [u128; 1] = [0x000102030405060708090a0b0c0d0e0f];

fn basic_cmp<N: Integer + PartialEq + std::fmt::Debug>(
    segment: &mut DataSegment<'_>,
    compare_to: &[N],
) -> Result<(), Error> {
    for num in compare_to.iter() {
        assert_eq!(*num, segment.next_int::<N>()?);
    }
    Ok(())
}

fn basic_test_1_impl(segment: &mut DataSegment<'_>) -> Result<(), Error> {
    let initial_offset = segment.initial_offset();
    assert_eq!(segment.current_offset(), initial_offset);
    assert_eq!(segment.size(), TEST_U8_DATA.len());
    assert_eq!(
        segment.upper_offset_limit(),
        TEST_U8_DATA.len() + initial_offset
    );
    assert_eq!(segment.remaining(), TEST_U8_DATA.len());
    for i in 0..TEST_U8_DATA.len() {
        assert_eq!(i as u8, segment.item_at(i + initial_offset)?);
    }
    for i in 0..TEST_U8_DATA.len() {
        assert_eq!(segment.current_offset(), i + initial_offset);
        assert_eq!(segment.size(), TEST_U8_DATA.len());
        assert_eq!(segment.remaining(), TEST_U8_DATA.len() - i);
        assert_eq!(i as u8, segment.next_u8()?);
    }
    Ok(())
}

fn move_by_test_impl(segment: &mut DataSegment<'_>) -> Result<(), Error> {
    let initial_offset = segment.initial_offset();
    for i in 0..TEST_U8_DATA.len() {
        assert_eq!(segment.current_offset(), i + initial_offset);
        assert_eq!(segment.size(), TEST_U8_DATA.len());
        assert_eq!(segment.remaining(), TEST_U8_DATA.len() - i);
        assert_eq!(segment.current_item()?, TEST_U8_DATA[i]);
        segment.move_by(1)?;
    }
    Ok(())
}

fn move_to_test_impl(segment: &mut DataSegment<'_>) -> Result<(), Error> {
    let initial_offset = segment.initial_offset();
    for i in 0..TEST_U8_DATA.len() {
        assert_eq!(segment.current_offset(), i + initial_offset);
        assert_eq!(segment.size(), TEST_U8_DATA.len());
        assert_eq!(segment.remaining(), TEST_U8_DATA.len() - i);
        assert_eq!(segment.current_item()?, TEST_U8_DATA[i]);
        segment.move_to(i + 1 + segment.initial_offset())?;
    }
    Ok(())
}

fn next_n_as_slice_test_impl(segment: &mut DataSegment<'_>) -> Result<(), Error> {
    let slice1 = segment.next_n_as_slice(5)?;
    assert_eq!(slice1, &TEST_U8_DATA[..5]);
    let slice2 = segment.next_n_as_slice(5)?;
    assert_eq!(slice2, &TEST_U8_DATA[5..10]);
    assert_eq!(segment.get_remaining_as_slice()?, &TEST_U8_DATA[10..]);
    Ok(())
}

fn next_items_are_test_impl(segment: &mut DataSegment<'_>) -> Result<(), Error> {
    assert!(!segment.next_items_are(&[0x1, 0x2, 0x3])?);
    assert!(segment.next_items_are(&[0x0, 0x1, 0x2])?);
    segment.move_by(1)?;
    assert!(segment.next_items_are(&[0x1, 0x2, 0x3])?);
    assert!(!segment.next_items_are(&[0x0, 0x1, 0x2])?);
    Ok(())
}

fn next_n_test_impl(
    segment: &mut DataSegment<'_>,
    move_by: usize,
    n: usize,
) -> Result<(), Error> {
    let initial_offset = segment.initial_offset();
    segment.move_by(move_by as i128)?;
    let mut child1 = segment.next_n(n)?;
    assert_eq!(child1.initial_offset(), segment.current_offset() - n);
    assert_eq!(child1.current_offset(), segment.current_offset() - n);
    assert_eq!(child1.size(), n);
    assert_eq!(child1.upper_offset_limit(), segment.current_offset());
    for i in move_by..n + move_by {
        assert_eq!(child1.next_item()?, TEST_U8_DATA[i]);
    }
    let mut remaining = segment.get_remaining()?;
    assert_eq!(
        remaining.initial_offset(),
        segment.current_offset() - remaining.size()
    );
    assert_eq!(
        remaining.current_offset(),
        segment.current_offset() - remaining.size()
    );
    assert_eq!(remaining.upper_offset_limit(), segment.current_offset());
    let child2 = remaining.next_n(n)?;
    assert_eq!(child2.initial_offset(), remaining.current_offset() - n);
    assert_eq!(child2.current_offset(), remaining.current_offset() - n);
    assert_eq!(child2.size(), n);
    assert_eq!(child2.upper_offset_limit(), remaining.current_offset());
    for i in move_by + n..(n * 2) + move_by {
        assert_eq!(
            child2.item_at(i + initial_offset)?,
            TEST_U8_DATA[i]
        );
    }
    remaining.move_by(1)?;
    let child3 = remaining.next_n(n)?;
    assert_eq!(child3.initial_offset(), remaining.current_offset() - n);
    assert_eq!(child3.current_offset(), remaining.current_offset() - n);
    assert_eq!(child3.size(), n);
    assert_eq!(child3.upper_offset_limit(), remaining.current_offset());
    for i in move_by + (n * 2) + 1..(n * 3) + move_by + 1 {
        assert_eq!(
            child3.item_at(i + initial_offset)?,
            TEST_U8_DATA[i]
        );
    }
    Ok(())
}

fn all_before_impl(segment: &mut DataSegment<'_>, start_at: usize) -> Result<(), Error> {
    let initial_offset = segment.initial_offset();
    segment.move_by(3)?;
    let before = segment.all_before(start_at + initial_offset)?;
    assert_eq!(before.as_slice(), &TEST_U8_DATA[..start_at]);
    Ok(())
}

fn all_after_impl(segment: &mut DataSegment<'_>, start_at: usize) -> Result<(), Error> {
    let initial_offset = segment.initial_offset();
    segment.move_by(3)?;
    let after = segment.all_after(start_at + initial_offset)?;
    assert_eq!(after.as_slice(), &TEST_U8_DATA[start_at..]);
    Ok(())
}

#[test]
fn basic_test_1() -> Result<(), Error> {
    for offset in [0usize, 1, 5, 8] {
        let mut segment =
            Segment::with_offset_and_endidness(&TEST_U8_DATA, offset, Endidness::Little);
        basic_test_1_impl(&mut segment)?;
    }
    Ok(())
}

#[test]
fn move_by_test() -> Result<(), Error> {
    for offset in [0usize, 1, 5, 8] {
        let mut segment =
            Segment::with_offset_and_endidness(&TEST_U8_DATA, offset, Endidness::Little);
        move_by_test_impl(&mut segment)?;
    }
    Ok(())
}

#[test]
fn move_to_test() -> Result<(), Error> {
    for offset in [0usize, 1, 5, 8] {
        let mut segment =
            Segment::with_offset_and_endidness(&TEST_U8_DATA, offset, Endidness::Little);
        move_to_test_impl(&mut segment)?;
    }
    Ok(())
}

#[test]
fn next_n_as_slice_test() -> Result<(), Error> {
    for offset in [0usize, 1, 5, 8] {
        let mut segment =
            Segment::with_offset_and_endidness(&TEST_U8_DATA, offset, Endidness::Little);
        next_n_as_slice_test_impl(&mut segment)?;
    }
    Ok(())
}

#[test]
fn next_items_are_test() -> Result<(), Error> {
    for offset in [0usize, 1, 5, 8] {
        let mut segment =
            Segment::with_offset_and_endidness(&TEST_U8_DATA, offset, Endidness::Little);
        next_items_are_test_impl(&mut segment)?;
    }
    Ok(())
}

#[test]
fn next_n_test() -> Result<(), Error> {
    let cases = [(0usize, (3usize, 3usize)), (10, (2, 4)), (50, (1, 4))];
    for (offset, (move_by, n)) in cases {
        let mut segment =
            Segment::with_offset_and_endidness(&TEST_U8_DATA, offset, Endidness::Little);
        next_n_test_impl(&mut segment, move_by, n)?;
    }
    Ok(())
}

#[test]
fn all_before() -> Result<(), Error> {
    let cases = [(0usize, 4usize), (1, 3), (100, 2), (8, 5)];
    for (offset, start_at) in cases {
        let mut segment =
            Segment::with_offset_and_endidness(&TEST_U8_DATA, offset, Endidness::Little);
        all_before_impl(&mut segment, start_at)?;
    }
    Ok(())
}

#[test]
fn all_after() -> Result<(), Error> {
    let cases = [(0usize, 4usize), (1, 4), (100, 4), (8, 6)];
    for (offset, start_at) in cases {
        let mut segment =
            Segment::with_offset_and_endidness(&TEST_U8_DATA, offset, Endidness::Little);
        all_after_impl(&mut segment, start_at)?;
    }
    Ok(())
}

#[test]
fn basic_le_test() -> Result<(), Error> {
    let mut segment = Segment::with_endidness(&TEST_U8_DATA, Endidness::Little);
    basic_cmp(&mut segment, &LE_U16_U8_DATA)?;
    let mut segment = Segment::with_endidness(&TEST_U8_DATA, Endidness::Little);
    basic_cmp(&mut segment, &LE_U32_U8_DATA)?;
    let mut segment = Segment::with_endidness(&TEST_U8_DATA, Endidness::Little);
    basic_cmp(&mut segment, &LE_U64_U8_DATA)?;
    let mut segment = Segment::with_endidness(&TEST_U8_DATA, Endidness::Little);
    basic_cmp(&mut segment, &LE_U128_U8_DATA)?;
    Ok(())
}

#[test]
fn basic_be_test() -> Result<(), Error> {
    let mut segment = Segment::with_endidness(&TEST_U8_DATA, Endidness::Big);
    basic_cmp(&mut segment, &BE_U16_U8_DATA)?;
    let mut segment = Segment::with_endidness(&TEST_U8_DATA, Endidness::Big);
    basic_cmp(&mut segment, &BE_U32_U8_DATA)?;
    let mut segment = Segment::with_endidness(&TEST_U8_DATA, Endidness::Big);
    basic_cmp(&mut segment, &BE_U64_U8_DATA)?;
    let mut segment = Segment::with_endidness(&TEST_U8_DATA, Endidness::Big);
    basic_cmp(&mut segment, &BE_U128_U8_DATA)?;
    Ok(())
}

#[test]
fn sixteen_bytes_then_no_more_data() {
    let mut segment = Segment::new(&TEST_U8_DATA);
    for i in 0..16u8 {
        assert_eq!(segment.next_u8().unwrap(), i);
    }
    assert!(matches!(segment.next_u8(), Err(Error::NoMoreData)));
    assert_eq!(segment.current_offset(), 16);
}

#[test]
fn u16_endianness_of_first_two_bytes() {
    let mut le = Segment::with_endidness(&TEST_U8_DATA, Endidness::Little);
    assert_eq!(le.next_u16().unwrap(), 0x0100);
    let mut be = Segment::with_endidness(&TEST_U8_DATA, Endidness::Big);
    assert_eq!(be.next_u16().unwrap(), 0x0001);
}

#[test]
fn offset_100_item_at_bounds() {
    let segment = Segment::with_offset(&TEST_U8_DATA, 100);
    assert!(matches!(
        segment.item_at(99),
        Err(Error::OffsetTooSmall { offset: 99 })
    ));
    assert_eq!(segment.item_at(100).unwrap(), TEST_U8_DATA[0]);
}

#[test]
fn segment_carving_3_to_7() {
    let segment = Segment::new(&TEST_U8_DATA);
    let child = segment.segment(3, 7).unwrap();
    assert_eq!(child.size(), 4);
    assert_eq!(child.initial_offset(), 3);
    assert_eq!(child.current_offset(), 3);
    assert_eq!(child.as_slice(), &TEST_U8_DATA[3..7]);
}

#[test]
fn move_by_minus_one_at_start_fails() {
    let mut segment = Segment::new(&TEST_U8_DATA);
    assert!(matches!(
        segment.move_by(-1),
        Err(Error::OffsetTooSmall { offset: 0 })
    ));
    assert_eq!(segment.current_offset(), 0);
}

#[test]
fn clones_advance_independently() {
    let segment = Segment::new(&TEST_U8_DATA);
    let mut a = segment.clone();
    let mut b = segment.clone();
    assert_eq!(a.next_u8().unwrap(), 0x00);
    assert_eq!(a.next_u8().unwrap(), 0x01);
    assert_eq!(b.next_u8().unwrap(), 0x00);
    assert_eq!(a.current_offset(), 2);
    assert_eq!(b.current_offset(), 1);
    assert_eq!(segment.current_offset(), 0);
}

#[test]
fn zero_size_request_at_end_succeeds() {
    let mut segment = Segment::new(&TEST_U8_DATA);
    segment.move_to(16).unwrap();
    assert!(segment.is_empty());
    assert!(!segment.has_more());
    assert_eq!(segment.remaining(), 0);
    assert_eq!(segment.validate_offset(16, 0), Ok(()));
    assert!(matches!(segment.next_u8(), Err(Error::NoMoreData)));
    assert!(matches!(segment.current_u8(), Err(Error::NoMoreData)));
}

#[test]
fn upper_offset_limit_is_marker_position() {
    let mut segment = Segment::with_offset(&TEST_U8_DATA, 10);
    assert_eq!(segment.upper_offset_limit(), 26);
    assert_eq!(segment.move_to(26), Ok(()));
    assert_eq!(segment.current_offset(), 26);
    assert!(matches!(
        segment.move_to(27),
        Err(Error::OffsetTooLarge { offset: 27 })
    ));
    assert!(matches!(
        segment.validate_offset(27, 0),
        Err(Error::OffsetTooLarge { offset: 27 })
    ));
}

#[test]
fn failed_next_u32_leaves_cursor() {
    let mut segment = Segment::new(&TEST_U8_DATA);
    segment.move_to(14).unwrap();
    assert!(matches!(
        segment.next_u32(),
        Err(Error::NotEnoughData {
            requested: 4,
            left: 2
        })
    ));
    assert_eq!(segment.current_offset(), 14);
}

#[test]
fn peek_does_not_advance() {
    let segment = Segment::with_endidness(&TEST_U8_DATA, Endidness::Little);
    assert_eq!(segment.peek_u16().unwrap(), 0x0100);
    assert_eq!(segment.peek_u16().unwrap(), 0x0100);
    assert_eq!(segment.current_offset(), 0);
    assert_eq!(segment.peek_int::<u32>().unwrap(), 0x03020100);
}

#[test]
fn current_and_at_reads_do_not_advance() {
    let segment = Segment::with_endidness(&TEST_U8_DATA, Endidness::Big);
    assert_eq!(segment.current_u16().unwrap(), 0x0001);
    assert_eq!(segment.current_u16().unwrap(), 0x0001);
    assert_eq!(segment.u16_at(4).unwrap(), 0x0405);
    assert_eq!(segment.u32_at(0).unwrap(), 0x00010203);
    assert_eq!(segment.current_offset(), 0);
}

#[test]
fn signed_reads() {
    let data = [0xffu8, 0x80, 0x00, 0x7f];
    let mut le = Segment::with_endidness(&data, Endidness::Little);
    assert_eq!(le.next_i8().unwrap(), -1);
    assert_eq!(le.next_i8().unwrap(), -128);
    assert_eq!(le.next_i8().unwrap(), 0);
    assert_eq!(le.next_i8().unwrap(), 127);
    let be = Segment::with_endidness(&data, Endidness::Big);
    assert_eq!(be.i16_at(0).unwrap(), -128i16);
    assert_eq!(be.i16_at(2).unwrap(), 0x7f);
    assert_eq!(be.i32_at(0).unwrap(), -8388481);
}

#[test]
fn item_refs_and_buffers() {
    let mut segment = Segment::new(&TEST_U8_DATA);
    let mut buf = [0u8; 4];
    segment.items_at(2, &mut buf).unwrap();
    assert_eq!(buf, [0x02, 0x03, 0x04, 0x05]);
    assert_eq!(segment.current_offset(), 0);
    segment.next_items(&mut buf).unwrap();
    assert_eq!(buf, [0x00, 0x01, 0x02, 0x03]);
    assert_eq!(segment.current_offset(), 4);
    segment.next_bytes(&mut buf).unwrap();
    assert_eq!(buf, [0x04, 0x05, 0x06, 0x07]);
    assert_eq!(segment.current_offset(), 8);
    let zero = 0u8;
    let mut refs: [&u8; 2] = [&zero, &zero];
    segment.item_refs_at(9, &mut refs).unwrap();
    assert_eq!(*refs[0], 0x09);
    assert_eq!(*refs[1], 0x0a);
    segment.next_item_refs(&mut refs).unwrap();
    assert_eq!(*refs[0], 0x08);
    assert_eq!(*refs[1], 0x09);
    assert_eq!(segment.current_offset(), 10);
}

#[test]
fn failed_buffer_reads_leave_everything() {
    let mut segment = Segment::new(&TEST_U8_DATA);
    segment.move_to(14).unwrap();
    let mut buf = [0xaau8; 4];
    assert!(matches!(
        segment.next_items(&mut buf),
        Err(Error::NotEnoughData {
            requested: 4,
            left: 2
        })
    ));
    assert_eq!(buf, [0xaa; 4]);
    assert_eq!(segment.current_offset(), 14);
    assert!(matches!(
        segment.items_at(14, &mut buf),
        Err(Error::NotEnoughData {
            requested: 4,
            left: 2
        })
    ));
    assert_eq!(buf, [0xaa; 4]);
}

#[test]
fn relative_offset_test() {
    let mut segment = Segment::with_offset(&TEST_U8_DATA, 10);
    segment.move_to(13).unwrap();
    assert_eq!(segment.relative_offset(15), Ok(2));
    assert_eq!(segment.relative_offset(13), Ok(0));
    assert!(matches!(
        segment.relative_offset(12),
        Err(Error::OffsetTooSmall { offset: 12 })
    ));
    assert!(matches!(
        segment.relative_offset(9),
        Err(Error::OffsetTooSmall { offset: 9 })
    ));
    assert!(matches!(
        segment.relative_offset(27),
        Err(Error::OffsetTooLarge { offset: 27 })
    ));
}

#[test]
fn next_item_and_refs() {
    let mut segment = Segment::new(&TEST_U8_DATA);
    assert_eq!(segment.next_item().unwrap(), 0x00);
    assert_eq!(*segment.next_item_ref().unwrap(), 0x01);
    assert_eq!(*segment.current_item_ref().unwrap(), 0x02);
    assert_eq!(*segment.item_ref_at(5).unwrap(), 0x05);
    assert_eq!(segment.current_item().unwrap(), 0x02);
    assert_eq!(segment.current_offset(), 2);
}

#[test]
fn get_n_and_slices() {
    let segment = Segment::new(&TEST_U8_DATA);
    let child = segment.get_n(4, 3).unwrap();
    assert_eq!(child.initial_offset(), 4);
    assert_eq!(child.as_slice(), &TEST_U8_DATA[4..7]);
    assert_eq!(segment.get_n_as_slice(4, 3).unwrap(), &TEST_U8_DATA[4..7]);
    assert_eq!(segment.get_as_slice(2, 6).unwrap(), &TEST_U8_DATA[2..6]);
    assert_eq!(segment.current_offset(), 0);
    assert!(matches!(
        segment.get_n(15, 3),
        Err(Error::NotEnoughData {
            requested: 3,
            left: 1
        })
    ));
}

#[test]
fn change_initial_offset_shifts_limits() {
    let mut segment = Segment::new(&TEST_U8_DATA);
    segment.change_initial_offset(40);
    assert_eq!(segment.lower_offset_limit(), 40);
    assert_eq!(segment.upper_offset_limit(), 56);
    assert_eq!(segment.item_at(42).unwrap(), 0x02);
}

#[test]
fn generic_segments_over_other_items() {
    let words = [10u32, 20, 30, 40];
    let mut segment = Segment::new(&words);
    assert_eq!(segment.next_item().unwrap(), 10);
    assert_eq!(segment.item_at(3).unwrap(), 40);
    assert_eq!(segment.remaining(), 3);
    let child = segment.segment(1, 3).unwrap();
    assert_eq!(child.as_slice(), &words[1..3]);
}

#[test]
fn next_n_as_array_test() {
    let mut segment = Segment::new(&TEST_U8_DATA);
    let first: [u8; 4] = segment.next_n_as_array().unwrap();
    assert_eq!(first, [0x00, 0x01, 0x02, 0x03]);
    assert_eq!(segment.current_offset(), 4);
    let second: [u8; 2] = segment.next_n_as_array().unwrap();
    assert_eq!(second, [0x04, 0x05]);
    segment.move_to(15).unwrap();
    let short: Result<[u8; 4], Error> = segment.next_n_as_array();
    assert!(matches!(
        short,
        Err(Error::NotEnoughData {
            requested: 4,
            left: 1
        })
    ));
    assert_eq!(segment.current_offset(), 15);
}
