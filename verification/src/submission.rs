//! One submitted operation on its way through the system calls it needs.
//!
//! A submission never makes a system call. It says which call is due next,
//! is told what that call returned, and decides from the return value how
//! the operation goes on or ends.

use crate::error::AsyncIoError;
use crate::frame::Frame;
use crate::iovec::{
    caller_segments, framed_segments, spec_total_len, IoVec, Scratch, Segment,
};
use vstd::prelude::*;

verus! {

/// What the submitter asked for.
#[derive(Clone, Copy, Debug, PartialEq, Eq, Structural)]
pub enum Operation {
    Read,
    Write,
    Flush,
}

/// How far a submission has come.
#[derive(Clone, Copy, Debug, PartialEq, Eq, Structural)]
pub enum Stage {
    /// The first touched sector is to be read.
    Head,
    /// The last touched sector is to be read.
    Tail,
    /// The operation itself is to be carried out.
    Transfer,
}

/// The system call that a submission waits for.
#[derive(Debug, PartialEq, Eq)]
pub enum Request {
    /// One positioned vectored read at `offset` into `segments`, in order.
    Read { offset: i64, segments: Vec<Segment> },
    /// One positioned vectored write at `offset` out of `segments`, in order.
    Write { offset: i64, segments: Vec<Segment> },
    /// One flush of the file to stable storage.
    Sync,
}

/// What a [`Request`] is to the contracts: the same call over a sequence.
pub enum RequestView {
    Read { offset: i64, segments: Seq<Segment> },
    Write { offset: i64, segments: Seq<Segment> },
    Sync,
}

impl RequestView {
    /// Where in the file the call takes place; zero for a flush, which
    /// takes place nowhere.
    pub open spec fn offset(self) -> int {
        match self {
            RequestView::Read { offset, .. } => offset as int,
            RequestView::Write { offset, .. } => offset as int,
            RequestView::Sync => 0,
        }
    }

    /// The list that the call runs over; empty for a flush.
    pub open spec fn segments(self) -> Seq<Segment> {
        match self {
            RequestView::Read { segments, .. } => segments,
            RequestView::Write { segments, .. } => segments,
            RequestView::Sync => Seq::empty(),
        }
    }
}

impl View for Request {
    type V = RequestView;

    open spec fn view(&self) -> RequestView {
        match self {
            Request::Read { offset, segments } => RequestView::Read {
                offset: *offset,
                segments: segments@,
            },
            Request::Write { offset, segments } => RequestView::Write {
                offset: *offset,
                segments: segments@,
            },
            Request::Sync => RequestView::Sync,
        }
    }
}

/// A submitted operation that still has a system call to wait for.
#[derive(Debug, PartialEq, Eq)]
pub struct Submission {
    operation: Operation,
    stage: Stage,
    offset: i64,
    iovecs: Vec<IoVec>,
    frame: Option<Frame>,
    user_data: Option<u64>,
}

/// What a [`Submission`] is to the contracts.
pub struct SubmissionView {
    /// What was asked for.
    pub operation: Operation,
    /// The system call that is due.
    pub stage: Stage,
    /// The offset that the submitter named.
    pub offset: i64,
    /// The memory that the submitter named.
    pub iovecs: Seq<IoVec>,
    /// The sectors around the transfer, where the engine has a sector size.
    pub frame: Option<Frame>,
    /// The tag under which the completion is queued; none for an operation
    /// whose end nobody waits for.
    pub user_data: Option<u64>,
}

impl SubmissionView {
    /// The sectors around a transfer, for an engine with a sector size.
    pub open spec fn frame_for(
        offset: i64,
        iovecs: Seq<IoVec>,
        logical_block_size: Option<u64>,
    ) -> Option<Frame> {
        match logical_block_size {
            Some(align) => Some(Frame::spec_around(offset, spec_total_len(iovecs), align)),
            None => None,
        }
    }

    /// A read as it is submitted: one system call, the read itself.
    pub open spec fn read(
        offset: i64,
        iovecs: Seq<IoVec>,
        logical_block_size: Option<u64>,
        user_data: u64,
    ) -> SubmissionView {
        SubmissionView {
            operation: Operation::Read,
            stage: Stage::Transfer,
            offset,
            iovecs,
            frame: SubmissionView::frame_for(offset, iovecs, logical_block_size),
            user_data: Some(user_data),
        }
    }

    /// A write as it is submitted. For an engine with a sector size the
    /// first and the last touched sector are read before the write; for one
    /// without, the write is the only call.
    pub open spec fn write(
        offset: i64,
        iovecs: Seq<IoVec>,
        logical_block_size: Option<u64>,
        user_data: u64,
    ) -> SubmissionView {
        SubmissionView {
            operation: Operation::Write,
            stage: if logical_block_size is Some {
                Stage::Head
            } else {
                Stage::Transfer
            },
            offset,
            iovecs,
            frame: SubmissionView::frame_for(offset, iovecs, logical_block_size),
            user_data: Some(user_data),
        }
    }

    /// A flush as it is submitted: one system call, with or without a tag
    /// to queue its completion under.
    pub open spec fn flush(user_data: Option<u64>) -> SubmissionView {
        SubmissionView {
            operation: Operation::Flush,
            stage: Stage::Transfer,
            offset: 0,
            iovecs: Seq::empty(),
            frame: None,
            user_data,
        }
    }

    /// The two buffers that the first touched sector is read into.
    pub open spec fn head_segments(frame: Frame) -> Seq<Segment> {
        seq![
            Segment::Scratch { slot: Scratch::Before, len: frame.before, align: frame.align },
            Segment::Scratch { slot: Scratch::First, len: frame.first, align: frame.align },
        ]
    }

    /// The two buffers that the last touched sector is read into.
    pub open spec fn tail_segments(frame: Frame) -> Seq<Segment> {
        seq![
            Segment::Scratch { slot: Scratch::Last, len: frame.last, align: frame.align },
            Segment::Scratch { slot: Scratch::After, len: frame.after, align: frame.align },
        ]
    }

    /// Where in the file the operation itself takes place: at the first
    /// touched sector where there is a frame, else where the submitter said.
    pub open spec fn transfer_offset(self) -> i64 {
        match self.frame {
            Some(frame) => frame.start,
            None => self.offset,
        }
    }

    /// The list that the operation itself runs over: the submitter's memory,
    /// and where there is a frame, the buffer for the bytes ahead of the
    /// transfer before it and the buffer for the bytes behind the transfer
    /// after it.
    pub open spec fn transfer_segments(self) -> Seq<Segment> {
        match self.frame {
            Some(frame) => framed_segments(
                Segment::Scratch { slot: Scratch::Before, len: frame.before, align: frame.align },
                self.iovecs,
                Segment::Scratch { slot: Scratch::After, len: frame.after, align: frame.align },
            ),
            None => caller_segments(self.iovecs),
        }
    }

    /// The system call that is due.
    pub open spec fn request(self) -> RequestView {
        match (self.stage, self.frame) {
            (Stage::Head, Some(frame)) => RequestView::Read {
                offset: frame.start,
                segments: SubmissionView::head_segments(frame),
            },
            (Stage::Tail, Some(frame)) => RequestView::Read {
                offset: frame.last_start,
                segments: SubmissionView::tail_segments(frame),
            },
            _ => match self.operation {
                Operation::Read => RequestView::Read {
                    offset: self.transfer_offset(),
                    segments: self.transfer_segments(),
                },
                Operation::Write => RequestView::Write {
                    offset: self.transfer_offset(),
                    segments: self.transfer_segments(),
                },
                Operation::Flush => RequestView::Sync,
            },
        }
    }

    /// The bytes of a framed transfer that are not the submitter's.
    pub open spec fn trim(self) -> int {
        match self.frame {
            Some(frame) => frame.before + frame.after,
            None => 0,
        }
    }

    /// What the completion reports when the operation itself returned `ret`:
    /// the return value less the bytes that are not the submitter's, cut to
    /// 32 bits.
    pub open spec fn result(self, ret: i64) -> i32 {
        (ret - self.trim()) as i32
    }

    /// The error that a failed system call ends the submission with.
    pub open spec fn failure(self, errno: i32) -> AsyncIoError {
        match self.operation {
            Operation::Read => AsyncIoError::ReadVectored(errno),
            Operation::Write => AsyncIoError::WriteVectored(errno),
            Operation::Flush => AsyncIoError::Fsync(errno),
        }
    }

    /// How the submission goes on when the call that was due returned `ret`,
    /// with `errno` as the system's error code where `ret` is negative.
    pub open spec fn advance(self, ret: i64, errno: i32) -> StepView {
        if ret < 0 {
            StepView::Failed(self.failure(errno))
        } else {
            match self.stage {
                Stage::Head => StepView::Pending(SubmissionView { stage: Stage::Tail, ..self }),
                Stage::Tail => StepView::Pending(
                    SubmissionView { stage: Stage::Transfer, ..self },
                ),
                Stage::Transfer => match self.user_data {
                    Some(user_data) => StepView::Completed {
                        user_data,
                        result: self.result(ret),
                    },
                    None => StepView::Finished,
                },
            }
        }
    }
}

impl View for Submission {
    type V = SubmissionView;

    closed spec fn view(&self) -> SubmissionView {
        SubmissionView {
            operation: self.operation,
            stage: self.stage,
            offset: self.offset,
            iovecs: self.iovecs@,
            frame: self.frame,
            user_data: self.user_data,
        }
    }
}

/// What became of a submission when a system call returned.
#[derive(Debug, PartialEq, Eq)]
pub enum Step {
    /// Another system call is due.
    Pending(Submission),
    /// The operation is over and its completion is `(user_data, result)`.
    Completed { user_data: u64, result: i32 },
    /// The operation is over and nobody waits for its end.
    Finished,
    /// The operation failed; nothing of it is left.
    Failed(AsyncIoError),
}

/// What a [`Step`] is to the contracts.
pub enum StepView {
    Pending(SubmissionView),
    Completed { user_data: u64, result: i32 },
    Finished,
    Failed(AsyncIoError),
}

impl View for Step {
    type V = StepView;

    open spec fn view(&self) -> StepView {
        match self {
            Step::Pending(submission) => StepView::Pending(submission@),
            Step::Completed { user_data, result } => StepView::Completed {
                user_data: *user_data,
                result: *result,
            },
            Step::Finished => StepView::Finished,
            Step::Failed(error) => StepView::Failed(*error),
        }
    }
}

impl Submission {
    /// A submission in the given state.
    pub(crate) fn new(
        operation: Operation,
        stage: Stage,
        offset: i64,
        iovecs: Vec<IoVec>,
        frame: Option<Frame>,
        user_data: Option<u64>,
    ) -> (submission: Submission)
        ensures
            submission@ == (SubmissionView {
                operation,
                stage,
                offset,
                iovecs: iovecs@,
                frame,
                user_data,
            }),
    {
        Submission { operation, stage, offset, iovecs, frame, user_data }
    }

    /// The submitter's memory as segments.
    fn caller_list(&self) -> (segments: Vec<Segment>)
        ensures
            segments@ == caller_segments(self@.iovecs),
    {
        let mut segments: Vec<Segment> = Vec::new();
        let mut index: usize = 0;
        while index < self.iovecs.len()
            invariant
                index <= self.iovecs.len(),
                segments@ == caller_segments(self.iovecs@.take(index as int)),
            decreases self.iovecs.len() - index,
        {
            segments.push(Segment::Caller(self.iovecs[index]));
            index += 1;
            assert(segments@ =~= caller_segments(self.iovecs@.take(index as int)));
        }
        assert(self.iovecs@.take(index as int) =~= self.iovecs@);
        segments
    }

    /// The list that the operation itself runs over.
    fn transfer_list(&self) -> (segments: Vec<Segment>)
        ensures
            segments@ == self@.transfer_segments(),
    {
        match self.frame {
            Some(frame) => {
                let mut segments: Vec<Segment> = Vec::new();
                segments.push(
                    Segment::Scratch {
                        slot: Scratch::Before,
                        len: frame.before,
                        align: frame.align,
                    },
                );
                let mut callers = self.caller_list();
                segments.append(&mut callers);
                segments.push(
                    Segment::Scratch { slot: Scratch::After, len: frame.after, align: frame.align },
                );
                assert(segments@ =~= self@.transfer_segments());
                segments
            },
            None => self.caller_list(),
        }
    }

    /// The system call that is due.
    pub fn request(&self) -> (request: Request)
        ensures
            request@ == self@.request(),
    {
        match (self.stage, self.frame) {
            (Stage::Head, Some(frame)) => {
                let mut segments: Vec<Segment> = Vec::new();
                segments.push(
                    Segment::Scratch {
                        slot: Scratch::Before,
                        len: frame.before,
                        align: frame.align,
                    },
                );
                segments.push(
                    Segment::Scratch { slot: Scratch::First, len: frame.first, align: frame.align },
                );
                assert(segments@ =~= SubmissionView::head_segments(frame));
                Request::Read { offset: frame.start, segments }
            },
            (Stage::Tail, Some(frame)) => {
                let mut segments: Vec<Segment> = Vec::new();
                segments.push(
                    Segment::Scratch { slot: Scratch::Last, len: frame.last, align: frame.align },
                );
                segments.push(
                    Segment::Scratch { slot: Scratch::After, len: frame.after, align: frame.align },
                );
                assert(segments@ =~= SubmissionView::tail_segments(frame));
                Request::Read { offset: frame.last_start, segments }
            },
            _ => {
                let offset = match self.frame {
                    Some(frame) => frame.start,
                    None => self.offset,
                };
                match self.operation {
                    Operation::Read => Request::Read { offset, segments: self.transfer_list() },
                    Operation::Write => Request::Write { offset, segments: self.transfer_list() },
                    Operation::Flush => Request::Sync,
                }
            },
        }
    }

    /// What the completion reports when the operation itself returned `ret`.
    fn result(&self, ret: i64) -> (result: i32)
        ensures
            result == self@.result(ret),
    {
        let trim: i128 = match self.frame {
            Some(frame) => frame.before as i128 + frame.after as i128,
            None => 0,
        };
        #[verifier::truncate]
        ((ret as i128 - trim) as i32)
    }

    /// Takes the return value of the call that was due, and `errno`, the
    /// system's error code where the call failed, and decides how the
    /// submission goes on.
    pub(crate) fn advance(self, ret: i64, errno: i32) -> (step: Step)
        ensures
            step@ == self@.advance(ret, errno),
    {
        if ret < 0 {
            let error = match self.operation {
                Operation::Read => AsyncIoError::ReadVectored(errno),
                Operation::Write => AsyncIoError::WriteVectored(errno),
                Operation::Flush => AsyncIoError::Fsync(errno),
            };
            return Step::Failed(error);
        }
        match self.stage {
            Stage::Head => Step::Pending(Submission { stage: Stage::Tail, ..self }),
            Stage::Tail => Step::Pending(Submission { stage: Stage::Transfer, ..self }),
            Stage::Transfer => match self.user_data {
                Some(user_data) => Step::Completed { user_data, result: self.result(ret) },
                None => Step::Finished,
            },
        }
    }
}

} // verus!
