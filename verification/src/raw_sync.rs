//! The disk backend over a plain file, and its engine that emulates
//! asynchronous operation with blocking system calls.

use crate::align::{
    is_aligned, lemma_aligned_difference, lemma_rounding_bounds, lemma_rounding_by_remainder,
    lemma_rounding_of_aligned, spec_round_down, spec_round_up,
};
use crate::completion::{spec_after_poll, spec_poll, spec_settle};
use crate::error::{AsyncIoError, DiskFileError};
use crate::frame::Frame;
use crate::iovec::{
    caller_segments, framed_segments, lemma_framed_layout, lemma_segments_len_pair,
    lemma_total_len_prefix, lemma_total_len_push, spec_segments_len, spec_total_len, total_len,
    IoVec, Scratch, Segment,
};
use crate::submission::{
    Operation, RequestView, Stage, Step, StepView, Submission, SubmissionView,
};
use crate::topology::DiskTopology;
use std::collections::VecDeque;
use vstd::prelude::*;

verus! {

/// A disk kept in a plain file, known by the file's descriptor, with the
/// sector size that the guest is to see where one was configured.
pub struct RawFileDiskSync {
    fd: i32,
    logical_block_size: Option<u64>,
}

impl RawFileDiskSync {
    /// The descriptor of the file that holds the disk.
    pub closed spec fn spec_fd(&self) -> i32 {
        self.fd
    }

    /// The sector size that the guest sees, where one was configured.
    pub closed spec fn spec_logical_block_size(&self) -> Option<u64> {
        self.logical_block_size
    }

    /// A disk in the file behind `fd`.
    pub fn new(fd: i32, logical_block_size: Option<u64>) -> (disk: RawFileDiskSync)
        ensures
            disk.spec_fd() == fd,
            disk.spec_logical_block_size() == logical_block_size,
    {
        RawFileDiskSync { fd, logical_block_size }
    }

    /// The descriptor of the file that holds the disk.
    pub fn fd(&self) -> (fd: i32)
        ensures
            fd == self.spec_fd(),
    {
        self.fd
    }

    /// The sector size that the guest sees, where one was configured.
    pub fn logical_block_size(&self) -> (size: Option<u64>)
        ensures
            size == self.spec_logical_block_size(),
    {
        self.logical_block_size
    }

    /// The size of the disk, from what seeking to the end of its file gave:
    /// the end offset, or the size error with the system's code.
    pub fn size(&self, end: Result<u64, i32>) -> (size: Result<u64, DiskFileError>)
        ensures
            size == match end {
                Ok(bytes) => Ok::<u64, DiskFileError>(bytes),
                Err(errno) => Err(DiskFileError::Size(errno)),
            },
    {
        match end {
            Ok(bytes) => Ok(bytes),
            Err(errno) => Err(DiskFileError::Size(errno)),
        }
    }

    /// An engine on this disk's file, with this disk's sector size and
    /// nothing completed yet. The depth of a submission ring means nothing
    /// to an engine that finishes every call before it takes the next.
    pub fn new_async_io(&self, ring_depth: u32) -> (engine: Result<RawFileSync, DiskFileError>)
        ensures
            engine matches Ok(engine) && engine.spec_fd() == self.spec_fd()
                && engine.spec_logical_block_size() == self.spec_logical_block_size()
                && engine.completions() == Seq::<(u64, i32)>::empty(),
    {
        Ok(RawFileSync::new(self.fd, self.logical_block_size))
    }

    /// The geometry that the disk shows, from what probing its file gave:
    /// what was found, or the default where probing failed, and in either
    /// case with the configured sector size as the logical block size.
    pub fn topology(&self, probed: Result<DiskTopology, i32>) -> (topology: DiskTopology)
        ensures
            topology == DiskTopology::spec_resolve(probed, self.spec_logical_block_size()),
    {
        let topology = match probed {
            Ok(topology) => topology,
            Err(_) => DiskTopology::default(),
        };
        match self.logical_block_size {
            Some(logical_block_size) => DiskTopology { logical_block_size, ..topology },
            None => topology,
        }
    }
}

/// The engine of a disk over a plain file. It lays out every read, write and
/// flush for the system calls that carry it out, and queues what each one
/// came to until the submitter asks for it.
pub struct RawFileSync {
    fd: i32,
    completion_list: VecDeque<(u64, i32)>,
    logical_block_size: Option<u64>,
}

impl RawFileSync {
    /// The descriptor of the file that the engine works on.
    pub closed spec fn spec_fd(&self) -> i32 {
        self.fd
    }

    /// The sector size that the guest sees, where one was configured.
    pub closed spec fn spec_logical_block_size(&self) -> Option<u64> {
        self.logical_block_size
    }

    /// The completions that wait to be collected, oldest first.
    pub closed spec fn completions(&self) -> Seq<(u64, i32)> {
        self.completion_list@
    }

    /// An engine on the file behind `fd`, with nothing completed yet.
    pub fn new(fd: i32, logical_block_size: Option<u64>) -> (engine: RawFileSync)
        ensures
            engine.spec_fd() == fd,
            engine.spec_logical_block_size() == logical_block_size,
            engine.completions() == Seq::<(u64, i32)>::empty(),
    {
        RawFileSync { fd, completion_list: VecDeque::new(), logical_block_size }
    }

    /// The descriptor of the file that the engine works on.
    pub fn fd(&self) -> (fd: i32)
        ensures
            fd == self.spec_fd(),
    {
        self.fd
    }

    /// The sector size that the guest sees, where one was configured.
    pub fn logical_block_size(&self) -> (size: Option<u64>)
        ensures
            size == self.spec_logical_block_size(),
    {
        self.logical_block_size
    }

    /// Whether the engine can lay out a transfer at `offset` over `iovecs`:
    /// always without a sector size; with one, when the size is not zero
    /// and the touched sectors lie within the offsets that a file can have.
    pub open spec fn admits(&self, offset: i64, iovecs: Seq<IoVec>) -> bool {
        match self.spec_logical_block_size() {
            Some(align) => Frame::fits(offset, spec_total_len(iovecs), align),
            None => true,
        }
    }

    /// Decides [`RawFileSync::admits`].
    pub fn check_extent(&self, offset: i64, iovecs: &[IoVec]) -> (admitted: bool)
        ensures
            admitted == self.admits(offset, iovecs@),
    {
        match self.logical_block_size {
            Some(align) => match total_len(iovecs) {
                Some(total) => Frame::check(offset, total, align),
                None => {
                    proof {
                        if align > 0 {
                            lemma_rounding_bounds(offset + spec_total_len(iovecs@), align as int);
                        }
                    }
                    false
                },
            },
            None => true,
        }
    }

    /// Copies a list of memory and adds up its lengths.
    fn measure(iovecs: &[IoVec]) -> (measured: (Vec<IoVec>, u64))
        requires
            spec_total_len(iovecs@) <= u64::MAX,
        ensures
            measured.0@ == iovecs@,
            measured.1 == spec_total_len(iovecs@),
    {
        let mut copy: Vec<IoVec> = Vec::new();
        let mut total: u64 = 0;
        let mut index: usize = 0;
        while index < iovecs.len()
            invariant
                index <= iovecs.len(),
                spec_total_len(iovecs@) <= u64::MAX,
                copy@ == iovecs@.take(index as int),
                total == spec_total_len(iovecs@.take(index as int)),
            decreases iovecs.len() - index,
        {
            proof {
                lemma_total_len_push(iovecs@.take(index as int), iovecs@[index as int]);
                assert(iovecs@.take(index as int).push(iovecs@[index as int]) =~= iovecs@.take(
                    index as int + 1,
                ));
                lemma_total_len_prefix(iovecs@, index as int + 1);
            }
            copy.push(iovecs[index]);
            total = total + iovecs[index].len;
            index += 1;
        }
        assert(iovecs@.take(index as int) =~= iovecs@);
        (copy, total)
    }

    /// The sectors around a transfer, and the transfer's memory.
    fn lay_out(&self, offset: i64, iovecs: &[IoVec]) -> (laid: (Vec<IoVec>, Option<Frame>))
        requires
            self.admits(offset, iovecs@),
        ensures
            laid.0@ == iovecs@,
            laid.1 == SubmissionView::frame_for(offset, iovecs@, self.spec_logical_block_size()),
    {
        match self.logical_block_size {
            Some(align) => {
                proof {
                    Frame::lemma_around(offset, spec_total_len(iovecs@), align);
                }
                let (copy, total) = RawFileSync::measure(iovecs);
                (copy, Some(Frame::around(offset, total, align)))
            },
            None => (vstd::slice::slice_to_vec(iovecs), None),
        }
    }

    /// Submits a read of the file at `offset` into `iovecs`, to be completed
    /// under `user_data`.
    ///
    /// Without a sector size the read is made as it stands. With one, it is
    /// widened to the sectors it touches: it begins at the first sector's
    /// start, with a disposable buffer ahead of the submitter's memory for
    /// the bytes before `offset` and one behind it for the bytes after the
    /// end. The completion reports the bytes read less those two buffers.
    pub fn read_vectored(&self, offset: i64, iovecs: &[IoVec], user_data: u64) -> (submission:
        Submission)
        requires
            self.admits(offset, iovecs@),
        ensures
            submission@ == SubmissionView::read(
                offset,
                iovecs@,
                self.spec_logical_block_size(),
                user_data,
            ),
    {
        let (copy, frame) = self.lay_out(offset, iovecs);
        Submission::new(Operation::Read, Stage::Transfer, offset, copy, frame, Some(user_data))
    }

    /// Submits a write of `iovecs` to the file at `offset`, to be completed
    /// under `user_data`.
    ///
    /// Without a sector size the write is made as it stands. With one, whole
    /// sectors are written: the first touched sector is read, then the last,
    /// and the write begins at the first sector's start with the bytes read
    /// before `offset` ahead of the submitter's memory and the bytes read
    /// after the end behind it, so that what the file held around the
    /// transfer is written back unchanged. The completion reports the bytes
    /// written less those two buffers.
    pub fn write_vectored(&self, offset: i64, iovecs: &[IoVec], user_data: u64) -> (submission:
        Submission)
        requires
            self.admits(offset, iovecs@),
        ensures
            submission@ == SubmissionView::write(
                offset,
                iovecs@,
                self.spec_logical_block_size(),
                user_data,
            ),
    {
        let (copy, frame) = self.lay_out(offset, iovecs);
        let stage = match frame {
            Some(_) => Stage::Head,
            None => Stage::Transfer,
        };
        Submission::new(Operation::Write, stage, offset, copy, frame, Some(user_data))
    }

    /// Submits a flush of the file to stable storage. With `user_data` its
    /// completion is queued under that tag; without, nobody waits for its
    /// end and nothing is queued.
    pub fn fsync(&self, user_data: Option<u64>) -> (submission: Submission)
        ensures
            submission@ == SubmissionView::flush(user_data),
    {
        Submission::new(Operation::Flush, Stage::Transfer, 0, Vec::new(), None, user_data)
    }

    /// Takes what the system call that `submission` waited for returned:
    /// `ret`, and `errno`, the system's error code where `ret` is negative.
    ///
    /// Where this ends the operation with a completion, the completion is in
    /// the queue before the step is handed back: whoever raises the notifier
    /// on [`Step::Completed`], once for each, raises it after the entry can
    /// be seen and as often as entries were queued. Any other step leaves
    /// the queue as it was.
    pub fn resume(&mut self, submission: Submission, ret: i64, errno: i32) -> (step: Step)
        ensures
            step@ == submission@.advance(ret, errno),
            final(self).completions() == spec_settle(old(self).completions(), step@),
            final(self).spec_fd() == old(self).spec_fd(),
            final(self).spec_logical_block_size() == old(self).spec_logical_block_size(),
    {
        let step = submission.advance(ret, errno);
        match step {
            Step::Completed { user_data, result } => {
                self.completion_list.push_back((user_data, result));
            },
            _ => {},
        }
        step
    }

    /// Hands out the oldest completion that waits, as the tag it was
    /// submitted under and its result, or nothing where none waits.
    pub fn next_completed_request(&mut self) -> (completion: Option<(u64, i32)>)
        ensures
            completion == spec_poll(old(self).completions()),
            final(self).completions() == spec_after_poll(old(self).completions()),
            final(self).spec_fd() == old(self).spec_fd(),
            final(self).spec_logical_block_size() == old(self).spec_logical_block_size(),
    {
        self.completion_list.pop_front()
    }

    /// Rounds `offset` down to a multiple of `alignment`.
    pub fn round_down(offset: u64, alignment: u64) -> (rounded: u64)
        requires
            alignment > 0,
        ensures
            rounded == spec_round_down(offset as int, alignment as int),
    {
        proof {
            lemma_rounding_by_remainder(offset as int, alignment as int);
        }
        offset - offset % alignment
    }

    /// Rounds `offset` up to a multiple of `alignment`.
    pub fn round_up(offset: u64, alignment: u64) -> (rounded: u64)
        requires
            alignment > 0,
            spec_round_up(offset as int, alignment as int) <= u64::MAX,
        ensures
            rounded == spec_round_up(offset as int, alignment as int),
    {
        proof {
            lemma_rounding_by_remainder(offset as int, alignment as int);
        }
        let remainder = offset % alignment;
        if remainder == 0 {
            offset
        } else {
            offset - remainder + alignment
        }
    }
}

/// Without a sector size a read or a write is one system call, at the
/// offset and over the memory that the submitter named. Its completion
/// carries the submitter's tag and the call's return value as it is, for
/// every return value that 32 bits hold.
pub proof fn law_plain_transfer_reports_return_value(
    offset: i64,
    iovecs: Seq<IoVec>,
    user_data: u64,
    ret: i64,
    errno: i32,
)
    requires
        0 <= ret,
    ensures
        SubmissionView::read(offset, iovecs, None, user_data).request() == (RequestView::Read {
            offset,
            segments: caller_segments(iovecs),
        }),
        SubmissionView::write(offset, iovecs, None, user_data).request() == (RequestView::Write {
            offset,
            segments: caller_segments(iovecs),
        }),
        SubmissionView::read(offset, iovecs, None, user_data).advance(ret, errno) == (
        StepView::Completed { user_data, result: ret as i32 }),
        SubmissionView::write(offset, iovecs, None, user_data).advance(ret, errno) == (
        StepView::Completed { user_data, result: ret as i32 }),
        ret <= i32::MAX ==> ret as i32 == ret,
{
}

/// With a sector size a read is one system call over the sectors that it
/// touches: it begins where the first of them begins, and its list is the
/// submitter's memory between a buffer for the bytes from there to `offset`
/// and a buffer for the bytes from the end of the extent to the end of the
/// last sector. The completion reports the return value less the two
/// buffers, so a read that got every byte reports the submitter's length.
pub proof fn law_framed_read_covers_touched_sectors(
    offset: i64,
    iovecs: Seq<IoVec>,
    align: u64,
    user_data: u64,
    ret: i64,
    errno: i32,
)
    requires
        Frame::fits(offset, spec_total_len(iovecs), align),
        0 <= ret,
    ensures
        ({
            let read = SubmissionView::read(offset, iovecs, Some(align), user_data);
            let start = spec_round_down(offset as int, align as int);
            let end = offset + spec_total_len(iovecs);
            let before = offset - start;
            let after = spec_round_up(end, align as int) - end;
            &&& read.request() == (RequestView::Read {
                offset: start as i64,
                segments: framed_segments(
                    Segment::Scratch { slot: Scratch::Before, len: before as u64, align },
                    iovecs,
                    Segment::Scratch { slot: Scratch::After, len: after as u64, align },
                ),
            })
            &&& spec_segments_len(read.transfer_segments()) == spec_round_up(end, align as int)
                - start
            &&& read.advance(ret, errno) == (StepView::Completed {
                user_data,
                result: (ret - before - after) as i32,
            })
            &&& ret == spec_round_up(end, align as int) - start ==> read.result(ret)
                == spec_total_len(iovecs) as i32
        }),
{
    let total = spec_total_len(iovecs);
    let frame = Frame::spec_around(offset, total, align);
    Frame::lemma_around(offset, total, align);
    lemma_framed_layout(
        Segment::Scratch { slot: Scratch::Before, len: frame.before, align },
        iovecs,
        Segment::Scratch { slot: Scratch::After, len: frame.after, align },
        0,
    );
}

/// A read whose offset and end both lie on sector boundaries needs no bytes
/// around it: the two buffers of its list are empty, it begins at the
/// submitter's offset, and its completion reports the return value as it
/// is, for every return value that 32 bits hold.
pub proof fn law_aligned_read_has_empty_buffers(
    offset: i64,
    iovecs: Seq<IoVec>,
    align: u64,
    user_data: u64,
    ret: i64,
    errno: i32,
)
    requires
        Frame::fits(offset, spec_total_len(iovecs), align),
        is_aligned(offset as int, align as int),
        is_aligned(offset + spec_total_len(iovecs), align as int),
        0 <= ret,
    ensures
        SubmissionView::read(offset, iovecs, Some(align), user_data).request() == (
        RequestView::Read {
            offset,
            segments: framed_segments(
                Segment::Scratch { slot: Scratch::Before, len: 0, align },
                iovecs,
                Segment::Scratch { slot: Scratch::After, len: 0, align },
            ),
        }),
        SubmissionView::read(offset, iovecs, Some(align), user_data).advance(ret, errno) == (
        StepView::Completed { user_data, result: ret as i32 }),
        ret <= i32::MAX ==> ret as i32 == ret,
{
    let total = spec_total_len(iovecs);
    Frame::lemma_around(offset, total, align);
    lemma_rounding_of_aligned(offset as int, align as int);
    lemma_rounding_of_aligned(offset + total, align as int);
}

/// With a sector size a write is three system calls in this order: a read
/// of the first touched sector, a read of the last touched sector, and the
/// write of all touched sectors, whose list is the submitter's memory
/// between the buffer that the first read filled with the bytes ahead of
/// `offset` and the buffer that the second read filled with the bytes
/// behind the extent's end. Each call is made only when the one before it
/// succeeded; where any of them fails the write ends with the write error
/// that carries the system's code. The completion reports the write's
/// return value less the two buffers.
pub proof fn law_framed_write_reads_before_it_writes(
    offset: i64,
    iovecs: Seq<IoVec>,
    align: u64,
    user_data: u64,
    first: (i64, i32),
    second: (i64, i32),
    third: (i64, i32),
)
    requires
        Frame::fits(offset, spec_total_len(iovecs), align),
    ensures
        ({
            let frame = Frame::spec_around(offset, spec_total_len(iovecs), align);
            let failure = |errno: i32| StepView::Failed(AsyncIoError::WriteVectored(errno));
            let head = SubmissionView::write(offset, iovecs, Some(align), user_data);
            let tail = SubmissionView { stage: Stage::Tail, ..head };
            let transfer = SubmissionView { stage: Stage::Transfer, ..head };
            &&& head.request() == (RequestView::Read {
                offset: frame.start,
                segments: seq![
                    Segment::Scratch { slot: Scratch::Before, len: frame.before, align },
                    Segment::Scratch { slot: Scratch::First, len: frame.first, align },
                ],
            })
            &&& head.advance(first.0, first.1) == if first.0 < 0 {
                failure(first.1)
            } else {
                StepView::Pending(tail)
            }
            &&& tail.request() == (RequestView::Read {
                offset: frame.last_start,
                segments: seq![
                    Segment::Scratch { slot: Scratch::Last, len: frame.last, align },
                    Segment::Scratch { slot: Scratch::After, len: frame.after, align },
                ],
            })
            &&& tail.advance(second.0, second.1) == if second.0 < 0 {
                failure(second.1)
            } else {
                StepView::Pending(transfer)
            }
            &&& transfer.request() == (RequestView::Write {
                offset: frame.start,
                segments: framed_segments(
                    Segment::Scratch { slot: Scratch::Before, len: frame.before, align },
                    iovecs,
                    Segment::Scratch { slot: Scratch::After, len: frame.after, align },
                ),
            })
            &&& transfer.advance(third.0, third.1) == if third.0 < 0 {
                failure(third.1)
            } else {
                StepView::Completed {
                    user_data,
                    result: (third.0 - frame.before - frame.after) as i32,
                }
            }
            &&& frame.start == spec_round_down(offset as int, align as int)
            &&& frame.start + frame.before == offset
            &&& frame.start + frame.before + frame.first == spec_round_up(
                offset as int,
                align as int,
            )
            &&& frame.last_start == spec_round_down(
                offset + spec_total_len(iovecs),
                align as int,
            )
            &&& frame.last_start + frame.last == offset + spec_total_len(iovecs)
            &&& frame.last_start + frame.last + frame.after == spec_round_up(
                offset + spec_total_len(iovecs),
                align as int,
            )
        }),
{
    Frame::lemma_around(offset, spec_total_len(iovecs), align);
}

/// With a sector size every read and every write that the engine asks for
/// begins on a sector boundary and runs over a whole number of sectors,
/// wherever the submitter's extent begins and ends: the one call of a read,
/// and each of the three calls of a write.
pub proof fn law_framed_requests_are_whole_sectors(
    offset: i64,
    iovecs: Seq<IoVec>,
    align: u64,
    user_data: u64,
)
    requires
        Frame::fits(offset, spec_total_len(iovecs), align),
    ensures
        ({
            let read = SubmissionView::read(offset, iovecs, Some(align), user_data).request();
            let write = SubmissionView::write(offset, iovecs, Some(align), user_data);
            let head = write.request();
            let tail = SubmissionView { stage: Stage::Tail, ..write }.request();
            let transfer = SubmissionView { stage: Stage::Transfer, ..write }.request();
            &&& is_aligned(read.offset(), align as int)
            &&& is_aligned(spec_segments_len(read.segments()) as int, align as int)
            &&& is_aligned(head.offset(), align as int)
            &&& is_aligned(spec_segments_len(head.segments()) as int, align as int)
            &&& is_aligned(tail.offset(), align as int)
            &&& is_aligned(spec_segments_len(tail.segments()) as int, align as int)
            &&& is_aligned(transfer.offset(), align as int)
            &&& is_aligned(spec_segments_len(transfer.segments()) as int, align as int)
        }),
{
    let total = spec_total_len(iovecs);
    let end = offset + total;
    let frame = Frame::spec_around(offset, total, align);
    Frame::lemma_around(offset, total, align);
    lemma_rounding_bounds(offset as int, align as int);
    lemma_rounding_bounds(end, align as int);
    let before = Segment::Scratch { slot: Scratch::Before, len: frame.before, align };
    let first = Segment::Scratch { slot: Scratch::First, len: frame.first, align };
    let last = Segment::Scratch { slot: Scratch::Last, len: frame.last, align };
    let after = Segment::Scratch { slot: Scratch::After, len: frame.after, align };
    lemma_framed_layout(before, iovecs, after, 0);
    lemma_segments_len_pair(before, first);
    lemma_segments_len_pair(last, after);
    lemma_aligned_difference(
        spec_round_down(offset as int, align as int),
        spec_round_up(offset as int, align as int),
        align as int,
    );
    lemma_aligned_difference(
        spec_round_down(end, align as int),
        spec_round_up(end, align as int),
        align as int,
    );
    lemma_aligned_difference(
        spec_round_down(offset as int, align as int),
        spec_round_up(end, align as int),
        align as int,
    );
}

/// A flush is one system call. Where it succeeds and the submitter gave no
/// tag, the operation is over with nothing queued, so nothing asks for the
/// notifier; where the submitter gave a tag, exactly one completion is
/// queued, under that tag and with the call's return value. Where the call
/// fails the flush ends with the flush error and the queue stays as it was.
pub proof fn law_flush_completes_only_under_a_tag(
    queue: Seq<(u64, i32)>,
    user_data: u64,
    ret: i32,
    errno: i32,
)
    ensures
        SubmissionView::flush(None).request() == RequestView::Sync,
        SubmissionView::flush(Some(user_data)).request() == RequestView::Sync,
        ret >= 0 ==> SubmissionView::flush(None).advance(ret as i64, errno)
            == StepView::Finished,
        ret >= 0 ==> spec_settle(queue, SubmissionView::flush(None).advance(ret as i64, errno))
            == queue,
        ret >= 0 ==> SubmissionView::flush(Some(user_data)).advance(ret as i64, errno) == (
        StepView::Completed { user_data, result: ret }),
        ret >= 0 ==> spec_settle(
            queue,
            SubmissionView::flush(Some(user_data)).advance(ret as i64, errno),
        ) == queue.push((user_data, ret)),
        ret < 0 ==> SubmissionView::flush(None).advance(ret as i64, errno) == StepView::Failed(
            AsyncIoError::Fsync(errno),
        ),
        ret < 0 ==> SubmissionView::flush(Some(user_data)).advance(ret as i64, errno)
            == StepView::Failed(AsyncIoError::Fsync(errno)),
        ret < 0 ==> spec_settle(
            queue,
            SubmissionView::flush(Some(user_data)).advance(ret as i64, errno),
        ) == queue,
{
}

/// A system call that fails ends its submission at once, with the error of
/// the submitted operation and the system's code, and leaves the queue as
/// it was: a failure is reported to the submitter and never queued.
pub proof fn law_failure_queues_nothing(
    queue: Seq<(u64, i32)>,
    submission: SubmissionView,
    ret: i64,
    errno: i32,
)
    requires
        ret < 0,
    ensures
        submission.advance(ret, errno) == StepView::Failed(submission.failure(errno)),
        spec_settle(queue, submission.advance(ret, errno)) == queue,
{
}

} // verus!
