//! The sector-aligned extent around a transfer.

use crate::align::{
    lemma_rounding_bounds, lemma_rounding_by_remainder, lemma_rounding_is_monotonic,
    spec_round_down, spec_round_up,
};
use crate::raw_sync::RawFileSync;
use vstd::prelude::*;

verus! {

/// Where the sectors lie that a transfer of some bytes at some offset
/// touches, and how the first and the last of them are divided by the
/// transfer's two ends.
#[derive(Clone, Copy, Debug, PartialEq, Eq, Structural)]
pub struct Frame {
    /// The sector size.
    pub align: u64,
    /// Where the first touched sector begins.
    pub start: i64,
    /// The bytes between `start` and the transfer's offset.
    pub before: u64,
    /// The bytes between the transfer's offset and the next boundary.
    pub first: u64,
    /// Where the sector begins that holds the transfer's end, or that begins
    /// there.
    pub last_start: i64,
    /// The bytes between `last_start` and the transfer's end.
    pub last: u64,
    /// The bytes between the transfer's end and the next boundary.
    pub after: u64,
}

impl Frame {
    /// Whether there are sectors around `total` bytes at `offset`, and all of
    /// them within the offsets that a file can have: the sector size is not
    /// zero, the offset is not negative, and where the last touched sector
    /// ends is an offset still.
    pub open spec fn fits(offset: i64, total: nat, align: u64) -> bool {
        &&& align > 0
        &&& offset >= 0
        &&& spec_round_up(offset + total, align as int) <= i64::MAX
    }

    /// The frame around `total` bytes at `offset`, for sectors of `align`
    /// bytes.
    pub open spec fn spec_around(offset: i64, total: nat, align: u64) -> Frame {
        let end = offset + total;
        Frame {
            align,
            start: spec_round_down(offset as int, align as int) as i64,
            before: (offset - spec_round_down(offset as int, align as int)) as u64,
            first: (spec_round_up(offset as int, align as int) - offset) as u64,
            last_start: spec_round_down(end, align as int) as i64,
            last: (end - spec_round_down(end, align as int)) as u64,
            after: (spec_round_up(end, align as int) - end) as u64,
        }
    }

    /// The frame of an extent that fits starts in the file, ends where the
    /// rounded end lies, and cuts less than one sector off at each side.
    pub proof fn lemma_around(offset: i64, total: nat, align: u64)
        requires
            Frame::fits(offset, total, align),
        ensures
            ({
                let frame = Frame::spec_around(offset, total, align);
                &&& 0 <= frame.start <= offset
                &&& frame.start == spec_round_down(offset as int, align as int)
                &&& frame.start + frame.before == offset
                &&& offset + frame.first == spec_round_up(offset as int, align as int)
                &&& offset + frame.first <= offset + total + frame.after
                &&& frame.last_start == spec_round_down(offset + total, align as int)
                &&& frame.start <= frame.last_start
                &&& frame.last_start + frame.last == offset + total
                &&& offset + total + frame.after == spec_round_up(offset + total, align as int)
                &&& frame.before < align
                &&& frame.first < align
                &&& frame.last < align
                &&& frame.after < align
                &&& offset + total <= i64::MAX
            }),
    {
        lemma_rounding_bounds(offset as int, align as int);
        lemma_rounding_bounds(offset + total, align as int);
        lemma_rounding_is_monotonic(offset as int, offset + total, align as int);
    }

    /// Decides [`Frame::fits`].
    pub fn check(offset: i64, total: u64, align: u64) -> (fits: bool)
        ensures
            fits == Frame::fits(offset, total as nat, align),
    {
        if align == 0 || offset < 0 {
            return false;
        }
        let begin = offset as u64;
        if total > (i64::MAX as u64) - begin {
            proof {
                lemma_rounding_bounds(offset + total, align as int);
            }
            return false;
        }
        let end = begin + total;
        proof {
            lemma_rounding_by_remainder(end as int, align as int);
        }
        let remainder = end % align;
        remainder == 0 || align - remainder <= (i64::MAX as u64) - end
    }

    /// Computes [`Frame::spec_around`].
    pub fn around(offset: i64, total: u64, align: u64) -> (frame: Frame)
        requires
            Frame::fits(offset, total as nat, align),
        ensures
            frame == Frame::spec_around(offset, total as nat, align),
    {
        proof {
            Frame::lemma_around(offset, total as nat, align);
        }
        let begin = offset as u64;
        let end = begin + total;
        let start = RawFileSync::round_down(begin, align);
        let first_end = RawFileSync::round_up(begin, align);
        let last_start = RawFileSync::round_down(end, align);
        let last_end = RawFileSync::round_up(end, align);
        Frame {
            align,
            start: start as i64,
            before: begin - start,
            first: first_end - begin,
            last_start: last_start as i64,
            last: end - last_start,
            after: last_end - end,
        }
    }
}

} // verus!
