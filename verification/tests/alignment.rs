use block::iovec::{total_len, IoVec, Scratch, Segment};
use block::{Frame, RawFileSync};

#[test]
fn round_down_gives_the_multiple_below() {
    assert_eq!(RawFileSync::round_down(0, 512), 0);
    assert_eq!(RawFileSync::round_down(1, 512), 0);
    assert_eq!(RawFileSync::round_down(511, 512), 0);
    assert_eq!(RawFileSync::round_down(512, 512), 512);
    assert_eq!(RawFileSync::round_down(1000, 512), 512);
    assert_eq!(RawFileSync::round_down(4096, 4096), 4096);
}

#[test]
fn round_up_gives_the_multiple_above() {
    assert_eq!(RawFileSync::round_up(0, 512), 0);
    assert_eq!(RawFileSync::round_up(1, 512), 512);
    assert_eq!(RawFileSync::round_up(511, 512), 512);
    assert_eq!(RawFileSync::round_up(512, 512), 512);
    assert_eq!(RawFileSync::round_up(513, 512), 1024);
    assert_eq!(RawFileSync::round_up(1000, 512), 1024);
}

#[test]
fn rounding_takes_any_positive_divisor() {
    assert_eq!(RawFileSync::round_down(10, 3), 9);
    assert_eq!(RawFileSync::round_up(10, 3), 12);
    assert_eq!(RawFileSync::round_down(12, 3), 12);
    assert_eq!(RawFileSync::round_up(12, 3), 12);
    assert_eq!(RawFileSync::round_down(77, 1), 77);
    assert_eq!(RawFileSync::round_up(77, 1), 77);
}

#[test]
fn round_up_reaches_the_largest_value() {
    assert_eq!(RawFileSync::round_up(u64::MAX, 1), u64::MAX);
    assert_eq!(RawFileSync::round_up(u64::MAX - 4, 5), u64::MAX);
    assert_eq!(RawFileSync::round_down(u64::MAX, u64::MAX), u64::MAX);
}

#[test]
fn total_len_adds_up_the_lengths() {
    assert_eq!(total_len(&[]), Some(0));
    assert_eq!(total_len(&[IoVec { base: 16, len: 100 }]), Some(100));
    assert_eq!(
        total_len(&[
            IoVec { base: 16, len: 100 },
            IoVec { base: 4096, len: 0 },
            IoVec { base: 8192, len: 412 },
        ]),
        Some(512)
    );
}

#[test]
fn total_len_is_none_beyond_64_bits() {
    assert_eq!(
        total_len(&[IoVec { base: 0, len: u64::MAX }, IoVec { base: 0, len: 1 }]),
        None
    );
    assert_eq!(
        total_len(&[IoVec { base: 0, len: u64::MAX - 1 }, IoVec { base: 0, len: 1 }]),
        Some(u64::MAX)
    );
}

#[test]
fn segment_len_is_the_length_it_carries() {
    assert_eq!(Segment::Caller(IoVec { base: 7, len: 33 }).len(), 33);
    assert_eq!(Segment::Scratch { slot: Scratch::Before, len: 50, align: 512 }.len(), 50);
}

#[test]
fn frame_within_one_sector() {
    let frame = Frame::around(50, 100, 512);
    assert_eq!(
        frame,
        Frame {
            align: 512,
            start: 0,
            before: 50,
            first: 462,
            last_start: 0,
            last: 150,
            after: 362,
        }
    );
}

#[test]
fn frame_over_several_sectors() {
    let frame = Frame::around(1000, 2000, 512);
    assert_eq!(
        frame,
        Frame {
            align: 512,
            start: 512,
            before: 488,
            first: 24,
            last_start: 2560,
            last: 440,
            after: 72,
        }
    );
}

#[test]
fn frame_of_an_aligned_extent_is_empty_at_both_ends() {
    let frame = Frame::around(1024, 1536, 512);
    assert_eq!(
        frame,
        Frame { align: 512, start: 1024, before: 0, first: 0, last_start: 2560, last: 0, after: 0 }
    );
}

#[test]
fn frame_of_nothing_at_a_misaligned_offset() {
    let frame = Frame::around(700, 0, 512);
    assert_eq!(
        frame,
        Frame {
            align: 512,
            start: 512,
            before: 188,
            first: 324,
            last_start: 512,
            last: 188,
            after: 324,
        }
    );
}

#[test]
fn frame_check_refuses_what_cannot_be_laid_out() {
    assert!(Frame::check(0, 0, 512));
    assert!(Frame::check(50, 100, 512));
    assert!(!Frame::check(50, 100, 0));
    assert!(!Frame::check(-1, 100, 512));
    assert!(!Frame::check(i64::MAX, 1, 512));
    assert!(!Frame::check(0, u64::MAX, 512));
}

#[test]
fn frame_check_at_the_last_offsets() {
    // The last sector that ends within the offsets of a file ends at
    // 2^63 - 512.
    let last_boundary = i64::MAX - 511;
    assert!(Frame::check(last_boundary - 512, 512, 512));
    assert!(Frame::check(last_boundary - 100, 100, 512));
    assert!(!Frame::check(last_boundary - 100, 101, 512));
    assert!(!Frame::check(last_boundary, 1, 512));
    assert!(Frame::check(last_boundary, 0, 512));
    assert!(Frame::check(i64::MAX - 10, 10, 1));
    assert!(!Frame::check(i64::MAX - 10, 11, 1));
}

#[test]
fn engine_without_sector_size_admits_every_extent() {
    let engine = RawFileSync::new(5, None);
    assert!(engine.check_extent(-1, &[IoVec { base: 0, len: u64::MAX }]));
    assert!(engine.check_extent(
        i64::MAX,
        &[IoVec { base: 0, len: u64::MAX }, IoVec { base: 0, len: u64::MAX }]
    ));
}

#[test]
fn engine_with_sector_size_admits_what_fits() {
    let engine = RawFileSync::new(5, Some(4096));
    assert!(engine.check_extent(0, &[]));
    assert!(engine.check_extent(50, &[IoVec { base: 0, len: 100 }]));
    assert!(!engine.check_extent(-50, &[IoVec { base: 0, len: 100 }]));
    assert!(!engine.check_extent(
        0,
        &[IoVec { base: 0, len: u64::MAX }, IoVec { base: 0, len: 1 }]
    ));
    assert!(!engine.check_extent(i64::MAX - 4096, &[IoVec { base: 0, len: 100 }]));
}

#[test]
fn engine_with_sector_size_zero_admits_nothing() {
    let engine = RawFileSync::new(5, Some(0));
    assert!(!engine.check_extent(0, &[]));
    assert!(!engine.check_extent(50, &[IoVec { base: 0, len: 100 }]));
}
