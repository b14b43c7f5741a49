//! Scatter-gather lists: the memory that one vectored transfer runs over.

use vstd::prelude::*;

verus! {

/// One stretch of memory owned by whoever submits an operation: where it
/// begins and how many bytes it holds. The address is carried through and
/// never looked at.
#[derive(Clone, Copy, Debug, PartialEq, Eq, Structural)]
pub struct IoVec {
    pub base: u64,
    pub len: u64,
}

/// The disposable buffers that a sector-aligned transfer adds around the
/// submitter's memory. A buffer keeps its name for the whole submission, so
/// what one request reads into it a later request can write out again.
#[derive(Clone, Copy, Debug, PartialEq, Eq, Structural)]
pub enum Scratch {
    /// The bytes of the first sector that lie ahead of the transfer.
    Before,
    /// The bytes of the first sector from the transfer's start on. They are
    /// read so that the read covers the sector, and used for nothing.
    First,
    /// The bytes of the last sector up to the transfer's end. They are read
    /// so that the read covers the sector, and used for nothing.
    Last,
    /// The bytes of the last sector that lie behind the transfer.
    After,
}

/// One element of the list handed to a vectored read or write.
#[derive(Clone, Copy, Debug, PartialEq, Eq, Structural)]
pub enum Segment {
    /// Memory of the submitter.
    Caller(IoVec),
    /// A disposable buffer of `len` bytes whose address is a multiple of
    /// `align`. Whoever carries the request out provides it; where that is
    /// not possible the request counts as a call that failed.
    Scratch { slot: Scratch, len: u64, align: u64 },
}

impl Segment {
    /// How many bytes the segment takes part in a transfer with.
    pub open spec fn spec_len(self) -> nat {
        match self {
            Segment::Caller(iovec) => iovec.len as nat,
            Segment::Scratch { len, .. } => len as nat,
        }
    }

    /// How many bytes the segment takes part in a transfer with.
    pub fn len(&self) -> (len: u64)
        ensures
            len == self.spec_len(),
    {
        match self {
            Segment::Caller(iovec) => iovec.len,
            Segment::Scratch { len, .. } => *len,
        }
    }
}

/// The bytes that a list of the submitter's memory holds in all.
pub open spec fn spec_total_len(iovecs: Seq<IoVec>) -> nat
    decreases iovecs.len(),
{
    if iovecs.len() == 0 {
        0
    } else {
        spec_total_len(iovecs.drop_last()) + iovecs.last().len as nat
    }
}

/// The bytes that a list of segments holds in all.
pub open spec fn spec_segments_len(segments: Seq<Segment>) -> nat
    decreases segments.len(),
{
    if segments.len() == 0 {
        0
    } else {
        spec_segments_len(segments.drop_last()) + segments.last().spec_len()
    }
}

/// How far into a transfer's byte stream the segment at `index` begins.
pub open spec fn spec_segment_start(segments: Seq<Segment>, index: int) -> nat {
    spec_segments_len(segments.take(index))
}

/// The submitter's memory as segments, in the same order.
pub open spec fn caller_segments(iovecs: Seq<IoVec>) -> Seq<Segment> {
    Seq::new(iovecs.len(), |i: int| Segment::Caller(iovecs[i]))
}

/// The submitter's memory with one disposable buffer ahead of it and one
/// behind it.
pub open spec fn framed_segments(head: Segment, iovecs: Seq<IoVec>, tail: Segment) -> Seq<
    Segment,
> {
    seq![head] + caller_segments(iovecs) + seq![tail]
}

/// Adding one element to a list adds its length to the total.
pub proof fn lemma_total_len_push(iovecs: Seq<IoVec>, iovec: IoVec)
    ensures
        spec_total_len(iovecs.push(iovec)) == spec_total_len(iovecs) + iovec.len,
{
    assert(iovecs.push(iovec).drop_last() =~= iovecs);
}

/// Adding one segment to a list adds its length to the total.
pub proof fn lemma_segments_len_push(segments: Seq<Segment>, segment: Segment)
    ensures
        spec_segments_len(segments.push(segment)) == spec_segments_len(segments)
            + segment.spec_len(),
{
    assert(segments.push(segment).drop_last() =~= segments);
}

/// A list of one segment holds what that segment holds.
pub proof fn lemma_segments_len_single(segment: Segment)
    ensures
        spec_segments_len(seq![segment]) == segment.spec_len(),
{
    lemma_segments_len_push(Seq::empty(), segment);
    assert(Seq::<Segment>::empty().push(segment) =~= seq![segment]);
}

/// In a list of two segments the second begins where the first ends, and
/// the list holds what both hold.
pub proof fn lemma_segments_len_pair(first: Segment, second: Segment)
    ensures
        spec_segment_start(seq![first, second], 0) == 0,
        spec_segment_start(seq![first, second], 1) == first.spec_len(),
        spec_segments_len(seq![first, second]) == first.spec_len() + second.spec_len(),
{
    lemma_segments_len_single(first);
    lemma_segments_len_push(seq![first], second);
    assert(seq![first].push(second) =~= seq![first, second]);
    assert(seq![first, second].take(1) =~= seq![first]);
    assert(seq![first, second].take(0) =~= Seq::<Segment>::empty());
}

/// No part of a list holds more bytes than the whole list.
pub proof fn lemma_total_len_prefix(iovecs: Seq<IoVec>, count: int)
    requires
        0 <= count <= iovecs.len(),
    ensures
        spec_total_len(iovecs.take(count)) <= spec_total_len(iovecs),
    decreases iovecs.len(),
{
    if count == iovecs.len() {
        assert(iovecs.take(count) =~= iovecs);
    } else {
        lemma_total_len_prefix(iovecs.drop_last(), count);
        assert(iovecs.drop_last().take(count) =~= iovecs.take(count));
    }
}

/// The submitter's memory holds the same bytes whether it is counted as
/// memory or as segments, and so does each leading part of it.
pub proof fn lemma_caller_segments_len(iovecs: Seq<IoVec>)
    ensures
        spec_segments_len(caller_segments(iovecs)) == spec_total_len(iovecs),
    decreases iovecs.len(),
{
    if iovecs.len() > 0 {
        lemma_caller_segments_len(iovecs.drop_last());
        assert(caller_segments(iovecs).drop_last() =~= caller_segments(iovecs.drop_last()));
    }
}

/// The total of two lists joined is the sum of their totals.
pub proof fn lemma_segments_len_concat(left: Seq<Segment>, right: Seq<Segment>)
    ensures
        spec_segments_len(left + right) == spec_segments_len(left) + spec_segments_len(right),
    decreases right.len(),
{
    if right.len() == 0 {
        assert(left + right =~= left);
    } else {
        lemma_segments_len_concat(left, right.drop_last());
        assert((left + right).drop_last() =~= left + right.drop_last());
    }
}

/// In a framed list the submitter's memory follows the head buffer at once:
/// its element `index` begins where it would begin alone, moved back by the
/// head's length. The whole list holds head, memory and tail.
pub proof fn lemma_framed_layout(head: Segment, iovecs: Seq<IoVec>, tail: Segment, index: int)
    requires
        0 <= index <= iovecs.len(),
    ensures
        framed_segments(head, iovecs, tail).len() == iovecs.len() + 2,
        framed_segments(head, iovecs, tail)[0] == head,
        index < iovecs.len() ==> framed_segments(head, iovecs, tail)[index + 1]
            == Segment::Caller(iovecs[index]),
        framed_segments(head, iovecs, tail)[iovecs.len() as int + 1] == tail,
        spec_segment_start(framed_segments(head, iovecs, tail), index + 1) == head.spec_len()
            + spec_segment_start(caller_segments(iovecs), index),
        spec_segments_len(framed_segments(head, iovecs, tail)) == head.spec_len()
            + spec_total_len(iovecs) + tail.spec_len(),
{
    let framed = framed_segments(head, iovecs, tail);
    let callers = caller_segments(iovecs);
    assert(framed.take(index + 1) =~= seq![head] + callers.take(index));
    lemma_segments_len_concat(seq![head], callers.take(index));
    lemma_segments_len_concat(seq![head], callers);
    lemma_segments_len_concat(seq![head] + callers, seq![tail]);
    lemma_caller_segments_len(iovecs);
    lemma_segments_len_single(head);
    lemma_segments_len_single(tail);
}

/// Adds up the lengths of a list of the submitter's memory; `None` when the
/// sum is more than 64 bits hold.
pub fn total_len(iovecs: &[IoVec]) -> (total: Option<u64>)
    ensures
        match total {
            Some(sum) => sum == spec_total_len(iovecs@),
            None => spec_total_len(iovecs@) > u64::MAX,
        },
{
    let mut sum: u64 = 0;
    let mut index: usize = 0;
    while index < iovecs.len()
        invariant
            index <= iovecs.len(),
            sum == spec_total_len(iovecs@.take(index as int)),
        decreases iovecs.len() - index,
    {
        proof {
            lemma_total_len_push(iovecs@.take(index as int), iovecs@[index as int]);
            assert(iovecs@.take(index as int).push(iovecs@[index as int]) =~= iovecs@.take(
                index as int + 1,
            ));
            lemma_total_len_prefix(iovecs@, index as int + 1);
        }
        match sum.checked_add(iovecs[index].len) {
            Some(next) => {
                sum = next;
            },
            None => {
                return None;
            },
        }
        index += 1;
    }
    assert(iovecs@.take(index as int) =~= iovecs@);
    Some(sum)
}

} // verus!
