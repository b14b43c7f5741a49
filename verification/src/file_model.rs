//! What positioned vectored transfers do to a file and to memory, as far as
//! the engine relies on it, and the proof that a transfer widened to whole
//! sectors does to the submitter's bytes what the plain transfer would do.
//!
//! A file is the sequence of its bytes. A read at an offset finds the bytes
//! from there to the read's length or the file's end, whichever comes
//! first, and lays them into the segments of its list one after another. A
//! write takes the bytes that its segments hold, one after another, and
//! puts them into the file from its offset on.

use crate::frame::Frame;
use crate::iovec::{
    caller_segments, framed_segments, lemma_caller_segments_len, lemma_framed_layout,
    lemma_segments_len_pair, lemma_total_len_prefix, spec_segment_start, spec_segments_len,
    spec_total_len, IoVec, Scratch, Segment,
};
use crate::submission::{Stage, SubmissionView};
use vstd::prelude::*;

verus! {

/// The bytes that a read of `len` bytes at `offset` finds in `file`.
pub open spec fn read_at(file: Seq<u8>, offset: int, len: int) -> Seq<u8> {
    if 0 <= offset < file.len() && 0 < len {
        if offset + len <= file.len() {
            file.subrange(offset, offset + len)
        } else {
            file.subrange(offset, file.len() as int)
        }
    } else {
        Seq::empty()
    }
}

/// The file after `data` was written at `offset`: `data` where the write
/// went, the old bytes elsewhere, and zeroes where the write began beyond
/// the old end.
pub open spec fn write_at(file: Seq<u8>, offset: int, data: Seq<u8>) -> Seq<u8> {
    let len = if data.len() > 0 && offset + data.len() > file.len() {
        offset + data.len()
    } else {
        file.len() as int
    };
    Seq::new(
        len as nat,
        |i: int|
            if offset <= i < offset + data.len() {
                data[i - offset]
            } else if i < file.len() {
                file[i]
            } else {
                0u8
            },
    )
}

/// What a segment holds after a read laid `stream` into its list, where the
/// segment begins `start` bytes into the list and held `held` before: the
/// stream's bytes from `start` on as far as they reach, and behind them
/// what it held.
pub open spec fn fill(held: Seq<u8>, stream: Seq<u8>, start: int) -> Seq<u8> {
    Seq::new(
        held.len(),
        |i: int|
            if start + i < stream.len() {
                stream[start + i]
            } else {
                held[i]
            },
    )
}

/// An element of the submitter's memory ends where the memory ends, or
/// before.
pub proof fn lemma_caller_segment_within_total(iovecs: Seq<IoVec>, index: int)
    requires
        0 <= index < iovecs.len(),
    ensures
        spec_segment_start(caller_segments(iovecs), index) + iovecs[index].len <= spec_total_len(
            iovecs,
        ),
{
    let callers = caller_segments(iovecs);
    assert(callers.take(index) =~= caller_segments(iovecs.take(index)));
    assert(callers.take(index + 1) =~= caller_segments(iovecs.take(index + 1)));
    lemma_caller_segments_len(iovecs.take(index));
    lemma_caller_segments_len(iovecs.take(index + 1));
    assert(iovecs.take(index + 1).drop_last() =~= iovecs.take(index));
    lemma_total_len_prefix(iovecs, index + 1);
}

/// A read that an engine with a sector size widened puts into every element
/// of the submitter's memory exactly what the read of the submitter's own
/// extent would have put there: bytes of the file from `offset` on, and
/// none of the bytes ahead of `offset` or behind the extent's end that the
/// widened read also fetched. This holds of any file, also one that ends
/// within the extent.
pub proof fn law_framed_read_fills_memory_as_plain_read(
    file: Seq<u8>,
    offset: i64,
    iovecs: Seq<IoVec>,
    align: u64,
    user_data: u64,
    index: int,
    held: Seq<u8>,
)
    requires
        Frame::fits(offset, spec_total_len(iovecs), align),
        0 <= index < iovecs.len(),
        held.len() == iovecs[index].len,
    ensures
        ({
            let framed = SubmissionView::read(offset, iovecs, Some(align), user_data).request();
            let plain = SubmissionView::read(offset, iovecs, None, user_data).request();
            &&& framed is Read
            &&& plain is Read
            &&& plain.offset() == offset
            &&& plain.segments() == caller_segments(iovecs)
            &&& framed.segments()[index + 1] == Segment::Caller(iovecs[index])
            &&& plain.segments()[index] == Segment::Caller(iovecs[index])
            &&& fill(
                held,
                read_at(file, framed.offset(), spec_segments_len(framed.segments()) as int),
                spec_segment_start(framed.segments(), index + 1) as int,
            ) == fill(
                held,
                read_at(file, plain.offset(), spec_segments_len(plain.segments()) as int),
                spec_segment_start(plain.segments(), index) as int,
            )
        }),
{
    let total = spec_total_len(iovecs);
    let frame = Frame::spec_around(offset, total, align);
    let head = Segment::Scratch { slot: Scratch::Before, len: frame.before, align: frame.align };
    let tail = Segment::Scratch { slot: Scratch::After, len: frame.after, align: frame.align };
    Frame::lemma_around(offset, total, align);
    lemma_framed_layout(head, iovecs, tail, index);
    lemma_caller_segments_len(iovecs);
    lemma_caller_segment_within_total(iovecs, index);
    let framed = SubmissionView::read(offset, iovecs, Some(align), user_data).request();
    let plain = SubmissionView::read(offset, iovecs, None, user_data).request();
    let wide = read_at(file, framed.offset(), spec_segments_len(framed.segments()) as int);
    let narrow = read_at(file, plain.offset(), spec_segments_len(plain.segments()) as int);
    let begin = spec_segment_start(caller_segments(iovecs), index) as int;
    assert forall|i: int| 0 <= i < held.len() implies fill(held, wide, frame.before + begin)[i]
        == fill(held, narrow, begin)[i] by {
        assert(begin + i < total);
    }
    assert(fill(held, wide, frame.before + begin) =~= fill(held, narrow, begin));
}

/// A write that an engine with a sector size widened changes in the file
/// what the plain write would change and nothing else: the bytes of the
/// extent become the submitter's, and every other byte that the file held
/// stays as it was, those of the first and the last touched sector too.
/// They stay because the widened write puts them back: its list begins with
/// the buffer that the read of the first sector filled and ends with the
/// buffer that the read of the last sector filled. Where the file reaches
/// to the end of the last touched sector, the file after the widened write
/// is the file after the plain write.
///
/// Here `data` stands for the bytes that the submitter's memory holds, one
/// element after the other, and `held_before` and `held_after` for what the
/// two buffers held before they were read into.
pub proof fn law_framed_write_keeps_surroundings(
    file: Seq<u8>,
    offset: i64,
    iovecs: Seq<IoVec>,
    align: u64,
    user_data: u64,
    data: Seq<u8>,
    held_before: Seq<u8>,
    held_after: Seq<u8>,
)
    requires
        Frame::fits(offset, spec_total_len(iovecs), align),
        data.len() == spec_total_len(iovecs),
        held_before.len() == Frame::spec_around(offset, spec_total_len(iovecs), align).before,
        held_after.len() == Frame::spec_around(offset, spec_total_len(iovecs), align).after,
    ensures
        ({
            let submitted = SubmissionView::write(offset, iovecs, Some(align), user_data);
            let head = submitted.request();
            let tail = SubmissionView { stage: Stage::Tail, ..submitted }.request();
            let transfer = SubmissionView { stage: Stage::Transfer, ..submitted }.request();
            let first_sector = read_at(
                file,
                head.offset(),
                spec_segments_len(head.segments()) as int,
            );
            let last_sector = read_at(
                file,
                tail.offset(),
                spec_segments_len(tail.segments()) as int,
            );
            let before = fill(
                held_before,
                first_sector,
                spec_segment_start(head.segments(), 0) as int,
            );
            let after = fill(
                held_after,
                last_sector,
                spec_segment_start(tail.segments(), 1) as int,
            );
            let written = write_at(file, transfer.offset(), before + data + after);
            &&& head is Read
            &&& tail is Read
            &&& transfer is Write
            &&& transfer.segments() == framed_segments(
                head.segments()[0],
                iovecs,
                tail.segments()[1],
            )
            &&& before.len() == head.segments()[0].spec_len()
            &&& after.len() == tail.segments()[1].spec_len()
            &&& written.len() >= file.len()
            &&& forall|i: int|
                0 <= i < file.len() ==> written[i] == if offset <= i < offset + data.len() {
                    data[i - offset]
                } else {
                    file[i]
                }
            &&& file.len() >= transfer.offset() + spec_segments_len(transfer.segments())
                ==> written == write_at(file, offset as int, data)
        }),
{
    let total = spec_total_len(iovecs);
    let frame = Frame::spec_around(offset, total, align);
    Frame::lemma_around(offset, total, align);
    let submitted = SubmissionView::write(offset, iovecs, Some(align), user_data);
    let head = submitted.request();
    let tail = SubmissionView { stage: Stage::Tail, ..submitted }.request();
    let transfer = SubmissionView { stage: Stage::Transfer, ..submitted }.request();
    lemma_segments_len_pair(head.segments()[0], head.segments()[1]);
    lemma_segments_len_pair(tail.segments()[0], tail.segments()[1]);
    assert(head.segments() =~= seq![head.segments()[0], head.segments()[1]]);
    assert(tail.segments() =~= seq![tail.segments()[0], tail.segments()[1]]);
    lemma_framed_layout(head.segments()[0], iovecs, tail.segments()[1], 0);
    let first_sector = read_at(file, frame.start as int, frame.before + frame.first);
    let last_sector = read_at(file, frame.last_start as int, frame.last + frame.after);
    let before = fill(held_before, first_sector, 0);
    let after = fill(held_after, last_sector, frame.last as int);
    let gathered = before + data + after;
    let written = write_at(file, frame.start as int, gathered);
    let end = offset + total;
    assert forall|i: int| 0 <= i < file.len() implies written[i] == if offset <= i < end {
        data[i - offset]
    } else {
        file[i]
    } by {
        if frame.start <= i < offset {
            assert(gathered[i - frame.start] == before[i - frame.start]);
        } else if offset <= i < end {
            assert(gathered[i - frame.start] == data[i - offset]);
        } else if end <= i < end + frame.after {
            assert(gathered[i - frame.start] == after[i - end]);
            assert(last_sector[frame.last + (i - end)] == file[i]);
        }
    }
    if file.len() >= end + frame.after {
        assert(written =~= write_at(file, offset as int, data));
    }
}

} // verus!
