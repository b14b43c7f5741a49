//! The queue of completions: what enters it, what leaves it, and in which
//! order.

use crate::submission::{StepView, SubmissionView};
use vstd::prelude::*;

verus! {

/// The queue after a step of a submission: longer by the completion where
/// the step completed the operation, and as it was after any other step.
pub open spec fn spec_settle(queue: Seq<(u64, i32)>, step: StepView) -> Seq<(u64, i32)> {
    match step {
        StepView::Completed { user_data, result } => queue.push((user_data, result)),
        _ => queue,
    }
}

/// What asking for a completion returns: the oldest one, if there is any.
pub open spec fn spec_poll(queue: Seq<(u64, i32)>) -> Option<(u64, i32)> {
    if queue.len() > 0 {
        Some(queue[0])
    } else {
        None
    }
}

/// The queue after it was asked for a completion: without its oldest one.
pub open spec fn spec_after_poll(queue: Seq<(u64, i32)>) -> Seq<(u64, i32)> {
    if queue.len() > 0 {
        queue.drop_first()
    } else {
        queue
    }
}

/// What an engine goes through: a system call returns to one of its
/// submissions, of whatever operation and at whatever stage, or the
/// submitter asks for the oldest completion.
pub enum Event {
    Resumed { submission: SubmissionView, ret: i64, errno: i32 },
    Polled,
}

/// The queue of an engine that began empty and went through `events`.
pub open spec fn queue_after(events: Seq<Event>) -> Seq<(u64, i32)>
    decreases events.len(),
{
    if events.len() == 0 {
        Seq::empty()
    } else {
        let queue = queue_after(events.drop_last());
        match events.last() {
            Event::Resumed { submission, ret, errno } => spec_settle(
                queue,
                submission.advance(ret, errno),
            ),
            Event::Polled => spec_after_poll(queue),
        }
    }
}

/// The completions of all the operations that ended during `events`, in the
/// order in which they ended.
pub open spec fn completed_during(events: Seq<Event>) -> Seq<(u64, i32)>
    decreases events.len(),
{
    if events.len() == 0 {
        Seq::empty()
    } else {
        let earlier = completed_during(events.drop_last());
        match events.last() {
            Event::Resumed { submission, ret, errno } => match submission.advance(ret, errno) {
                StepView::Completed { user_data, result } => earlier.push((user_data, result)),
                _ => earlier,
            },
            Event::Polled => earlier,
        }
    }
}

/// The completions that the submitter was handed during `events`, in the
/// order in which they were handed out.
pub open spec fn collected_during(events: Seq<Event>) -> Seq<(u64, i32)>
    decreases events.len(),
{
    if events.len() == 0 {
        Seq::empty()
    } else {
        let earlier = collected_during(events.drop_last());
        match events.last() {
            Event::Resumed { .. } => earlier,
            Event::Polled => match spec_poll(queue_after(events.drop_last())) {
                Some(completion) => earlier.push(completion),
                None => earlier,
            },
        }
    }
}

/// Completions come out in the order in which their operations ended,
/// whatever the operations were and however submitting and asking
/// alternate: what was handed out so far, followed by what still waits, is
/// always what was completed so far. None is lost, repeated or overtaken.
pub proof fn law_completions_are_first_in_first_out(events: Seq<Event>)
    ensures
        collected_during(events) + queue_after(events) == completed_during(events),
    decreases events.len(),
{
    if events.len() == 0 {
        assert(collected_during(events) + queue_after(events) =~= completed_during(events));
    } else {
        law_completions_are_first_in_first_out(events.drop_last());
        let queue = queue_after(events.drop_last());
        let collected = collected_during(events.drop_last());
        match events.last() {
            Event::Resumed { submission, ret, errno } => {
                match submission.advance(ret, errno) {
                    StepView::Completed { user_data, result } => {
                        assert(collected + queue.push((user_data, result)) =~= (collected
                            + queue).push((user_data, result)));
                    },
                    _ => {},
                }
            },
            Event::Polled => {
                if queue.len() > 0 {
                    assert(collected.push(queue[0]) + queue.drop_first() =~= collected + queue);
                }
            },
        }
    }
}

/// The queue grows by one completion exactly when a step completes an
/// operation, so a notifier that is raised once for each such step is
/// raised as often as completions were queued, and never for a completion
/// that is not yet in the queue.
pub proof fn law_queue_grows_with_completed_steps(queue: Seq<(u64, i32)>, step: StepView)
    ensures
        step is Completed ==> spec_settle(queue, step).len() == queue.len() + 1
            && spec_settle(queue, step).last() == (step->user_data, step->result)
            && spec_settle(queue, step).drop_last() == queue,
        !(step is Completed) ==> spec_settle(queue, step) == queue,
{
    if step is Completed {
        assert(spec_settle(queue, step).drop_last() =~= queue);
    }
}

} // verus!
