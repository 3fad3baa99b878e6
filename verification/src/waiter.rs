//! The timeout waiter: waits for the child to exit, for a bounded time where
//! a timeout is given, and publishes how the wait ended.

use crate::bus::Publisher;
use crate::event::{event_view, Event, EventView, ProcessData, ProcessDataView, ProcessError};
use crate::status::{decode_wait_status, ExitStatus};
use vstd::prelude::*;

verus! {

/// The longest pause between two looks at the child, in nanoseconds.
pub const POLL_INTERVAL: u64 = 10_000_000;

/// What a wait for the child gives: its exit status, no status (the child
/// is still running; for a bounded wait that is over, the time ran out), or
/// the failure of the wait call.
pub type WaitResult = Result<Option<ExitStatus>, std::io::Error>;

/// The wait result without a status.
pub open spec fn no_status() -> WaitResult {
    Ok(None)
}

/// The wait result with the status of a child that has terminated.
pub open spec fn with_status(status: ExitStatus) -> WaitResult {
    Ok(Some(status))
}

/// What a look at the child tells.
#[derive(Debug, Clone, Copy, PartialEq, Eq, Structural)]
pub enum WaitReturn {
    /// The wait call itself failed.
    Failed,
    /// The child has not terminated.
    Running,
    /// The child has terminated, with this outcome.
    Ended(ExitStatus),
}

/// What follows one look at the child during a bounded wait.
#[derive(Debug)]
pub enum WaitStep {
    /// The wait is over, with this result: an exit status, no status because
    /// the time ran out, or the failure of the wait call.
    Done(WaitResult),
    /// Pause for this many nanoseconds, then look again.
    Sleep(u64),
}

/// How the answer of a non-blocking `waitpid` reads: a negative return value
/// is a failure, zero says that the child has not changed state, and any
/// other value comes with a status word to decode. A status word that
/// reports no termination leaves the child running.
pub open spec fn wait_return(returned: i32, status: i32) -> WaitReturn {
    if returned < 0 {
        WaitReturn::Failed
    } else if returned == 0 {
        WaitReturn::Running
    } else {
        match decode_wait_status(status) {
            Some(outcome) => WaitReturn::Ended(outcome),
            None => WaitReturn::Running,
        }
    }
}

/// Reads the answer of a non-blocking `waitpid`: its return value and the
/// status word that it filled in.
pub fn classify_wait(returned: i32, status: i32) -> (seen: WaitReturn)
    ensures
        seen == wait_return(returned, status),
{
    if returned < 0 {
        WaitReturn::Failed
    } else if returned == 0 {
        WaitReturn::Running
    } else {
        match ExitStatus::from_wait_status(status) {
            Some(outcome) => WaitReturn::Ended(outcome),
            None => WaitReturn::Running,
        }
    }
}

/// The one event that the waiter publishes for the result of its wait: the
/// exit status, a timeout where the wait ended without one, or the error of
/// the wait call.
pub open spec fn terminal_event(waited: WaitResult) -> EventView {
    match waited {
        Ok(Some(status)) => Ok(ProcessDataView::Exit(status)),
        Ok(None) => Err(ProcessError::Timeout),
        Err(error) => Err(ProcessError::Exit(error)),
    }
}

/// Turns the result of the wait into the event that reports it.
pub fn exit_event(waited: WaitResult) -> (event: Event)
    ensures
        event_view(event) == terminal_event(waited),
{
    match waited {
        Ok(Some(status)) => Ok(ProcessData::Exit(status)),
        Ok(None) => Err(ProcessError::Timeout),
        Err(error) => Err(ProcessError::Exit(error)),
    }
}

/// Publishes the result of the wait: exactly one event, whatever the result,
/// and tells whether the consumer took it. The child is neither killed nor
/// reaped here.
pub fn report_exit(out: &mut Publisher, waited: WaitResult) -> (delivered: bool)
    ensures
        delivered == final(out).connected(),
        delivered ==> old(out).connected(),
        final(out).published() == if old(out).connected() {
            old(out).published().push(terminal_event(waited))
        } else {
            old(out).published()
        },
{
    out.publish(exit_event(waited))
}

/// The pause before the next look: the poll interval, cut short so that it
/// does not pass the deadline.
pub open spec fn pause_before_retry(timeout: u64, elapsed: u64) -> u64
    recommends
        elapsed < timeout,
{
    if timeout - elapsed < POLL_INTERVAL {
        (timeout - elapsed) as u64
    } else {
        POLL_INTERVAL
    }
}

/// What follows a look at the child, `elapsed` nanoseconds into a wait that
/// is bounded by `timeout` nanoseconds. An exit or a failure ends the wait at
/// once, also when the time has run out. A child that is still running ends
/// the wait without a status once the time has run out; before that the wait
/// pauses and looks again.
pub open spec fn poll_decision(
    timeout: u64,
    elapsed: u64,
    polled: WaitResult,
) -> WaitStep {
    match polled {
        Ok(Some(status)) => WaitStep::Done(Ok(Some(status))),
        Err(error) => WaitStep::Done(Err(error)),
        Ok(None) => if elapsed >= timeout {
            WaitStep::Done(Ok(None))
        } else {
            WaitStep::Sleep(pause_before_retry(timeout, elapsed))
        },
    }
}

/// Decides one round of the bounded wait. A pause is never empty, never
/// longer than the poll interval and never passes the deadline.
pub fn poll_step(timeout: u64, elapsed: u64, polled: WaitResult) -> (step: WaitStep)
    ensures
        step == poll_decision(timeout, elapsed, polled),
        step matches WaitStep::Sleep(pause) ==> 0 < pause <= POLL_INTERVAL && elapsed + pause
            <= timeout,
{
    match polled {
        Ok(Some(status)) => WaitStep::Done(Ok(Some(status))),
        Err(error) => WaitStep::Done(Err(error)),
        Ok(None) => {
            if elapsed >= timeout {
                WaitStep::Done(Ok(None))
            } else {
                let left: u64 = timeout - elapsed;
                if left < POLL_INTERVAL {
                    WaitStep::Sleep(left)
                } else {
                    WaitStep::Sleep(POLL_INTERVAL)
                }
            }
        },
    }
}

/// One look at the child during a bounded wait: when it was taken, in
/// nanoseconds since the wait began, and what it showed.
pub struct PollRecord {
    pub elapsed: u64,
    pub polled: WaitResult,
}

/// The result of a bounded wait that takes the looks in `polls`, one after
/// the other, until one of them ends it; `None` while none has.
pub open spec fn bounded_wait(timeout: u64, polls: Seq<PollRecord>) -> Option<WaitResult>
    decreases polls.len(),
{
    if polls.len() == 0 {
        None
    } else {
        match bounded_wait(timeout, polls.drop_last()) {
            Some(result) => Some(result),
            None => match poll_decision(timeout, polls.last().elapsed, polls.last().polled) {
                WaitStep::Done(result) => Some(result),
                WaitStep::Sleep(_) => None,
            },
        }
    }
}

/// The wait ends at the first look that does not lead to a pause, with what
/// that look decides.
pub proof fn lemma_wait_ends_at(timeout: u64, polls: Seq<PollRecord>, k: int)
    requires
        0 <= k < polls.len(),
        forall|i: int|
            0 <= i < k ==> poll_decision(
                timeout,
                (#[trigger] polls[i]).elapsed,
                polls[i].polled,
            ) is Sleep,
        poll_decision(timeout, polls[k].elapsed, polls[k].polled) is Done,
    ensures
        bounded_wait(timeout, polls) == Some(
            poll_decision(timeout, polls[k].elapsed, polls[k].polled)->Done_0,
        ),
        bounded_wait(timeout, polls.take(k)) is None,
    decreases polls.len(),
{
    let before = polls.drop_last();
    if k < before.len() {
        assert(before[k] == polls[k]);
        assert forall|i: int| 0 <= i < k implies poll_decision(
            timeout,
            (#[trigger] before[i]).elapsed,
            before[i].polled,
        ) is Sleep by {
            assert(before[i] == polls[i]);
        }
        lemma_wait_ends_at(timeout, before, k);
        assert(before.take(k) == polls.take(k));
    } else {
        assert(polls.take(k) == before);
        lemma_wait_goes_on(timeout, before);
    }
}

/// While every look leads to a pause, the wait has no result.
pub proof fn lemma_wait_goes_on(timeout: u64, polls: Seq<PollRecord>)
    requires
        forall|i: int|
            0 <= i < polls.len() ==> poll_decision(
                timeout,
                (#[trigger] polls[i]).elapsed,
                polls[i].polled,
            ) is Sleep,
    ensures
        bounded_wait(timeout, polls) is None,
    decreases polls.len(),
{
    if polls.len() > 0 {
        let before = polls.drop_last();
        assert forall|i: int| 0 <= i < before.len() implies poll_decision(
            timeout,
            (#[trigger] before[i]).elapsed,
            before[i].polled,
        ) is Sleep by {
            assert(before[i] == polls[i]);
        }
        lemma_wait_goes_on(timeout, before);
    }
}

/// A child that is still running at the first look at or after the deadline
/// makes the wait end without a status, which is reported as a timeout.
pub proof fn lemma_timeout_reported(timeout: u64, polls: Seq<PollRecord>, k: int)
    requires
        0 <= k < polls.len(),
        forall|i: int| 0 <= i <= k ==> (#[trigger] polls[i]).polled == no_status(),
        forall|i: int| 0 <= i < k ==> (#[trigger] polls[i]).elapsed < timeout,
        polls[k].elapsed >= timeout,
    ensures
        bounded_wait(timeout, polls) == Some(no_status()),
        terminal_event(bounded_wait(timeout, polls)->Some_0) == Err::<ProcessDataView, _>(
            ProcessError::Timeout,
        ),
{
    lemma_wait_ends_at(timeout, polls, k);
}

/// A wait never ends without a status before its time has run out: the look
/// that ended it was taken at or after the deadline, and showed the child
/// still running.
pub proof fn lemma_no_early_timeout(timeout: u64, polls: Seq<PollRecord>)
    requires
        bounded_wait(timeout, polls) == Some(no_status()),
    ensures
        exists|k: int|
            0 <= k < polls.len() && (#[trigger] polls[k]).elapsed >= timeout && polls[k].polled
                == no_status(),
    decreases polls.len(),
{
    if polls.len() > 0 {
        let before = polls.drop_last();
        if bounded_wait(timeout, before) is Some {
            lemma_no_early_timeout(timeout, before);
            let k = choose|k: int|
                0 <= k < before.len() && (#[trigger] before[k]).elapsed >= timeout
                    && before[k].polled == no_status();
            assert(polls[k] == before[k]);
        } else {
            let k = polls.len() - 1;
            assert(polls[k] == polls.last());
        }
    }
}

/// An exit that a look shows before any look has ended the wait is the
/// result of the wait, with exactly that status, also when the deadline has
/// passed by then.
pub proof fn lemma_exit_reported(timeout: u64, polls: Seq<PollRecord>, k: int, status: ExitStatus)
    requires
        0 <= k < polls.len(),
        forall|i: int| 0 <= i < k ==> (#[trigger] polls[i]).polled == no_status(),
        forall|i: int| 0 <= i < k ==> (#[trigger] polls[i]).elapsed < timeout,
        polls[k].polled == with_status(status),
    ensures
        bounded_wait(timeout, polls) == Some(with_status(status)),
        terminal_event(bounded_wait(timeout, polls)->Some_0) == Ok::<_, ProcessError>(
            ProcessDataView::Exit(status),
        ),
{
    lemma_wait_ends_at(timeout, polls, k);
}

/// Whether each look was taken no sooner than the look before it plus the
/// pause that followed that one.
pub open spec fn pauses_kept(timeout: u64, polls: Seq<PollRecord>) -> bool {
    forall|i: int|
        0 <= i && i + 1 < polls.len() && (#[trigger] polls[i]).elapsed < timeout ==> polls[i
            + 1].elapsed >= polls[i].elapsed + pause_before_retry(timeout, polls[i].elapsed)
}

/// The bounded wait does not spin and does not hang: where every pause is
/// kept, a wait that has taken `n + 1` looks is over if `n` poll intervals
/// cover the timeout.
pub proof fn lemma_wait_is_bounded(timeout: u64, polls: Seq<PollRecord>)
    requires
        polls.len() > 0,
        pauses_kept(timeout, polls),
        (polls.len() - 1) * POLL_INTERVAL >= timeout,
    ensures
        bounded_wait(timeout, polls) is Some,
{
    let last = polls.len() - 1;
    lemma_elapsed_grows(timeout, polls, last);
    let late = choose|j: int| 0 <= j <= last && (#[trigger] polls[j]).elapsed >= timeout;
    lemma_first_done(timeout, polls, late);
}

/// Where a look ends the wait, some first look does.
proof fn lemma_first_done(timeout: u64, polls: Seq<PollRecord>, j: int)
    requires
        0 <= j < polls.len(),
        poll_decision(timeout, polls[j].elapsed, polls[j].polled) is Done,
    ensures
        bounded_wait(timeout, polls) is Some,
    decreases j,
{
    if exists|i: int|
        0 <= i < j && poll_decision(timeout, (#[trigger] polls[i]).elapsed, polls[i].polled)
            is Done {
        let i = choose|i: int|
            0 <= i < j && poll_decision(timeout, (#[trigger] polls[i]).elapsed, polls[i].polled)
                is Done;
        lemma_first_done(timeout, polls, i);
    } else {
        lemma_wait_ends_at(timeout, polls, j);
    }
}

/// Where every pause is kept, the `i`-th look comes at least `i` poll
/// intervals into the wait, unless a look at or after the deadline has been
/// taken by then.
proof fn lemma_elapsed_grows(timeout: u64, polls: Seq<PollRecord>, i: int)
    requires
        0 <= i < polls.len(),
        pauses_kept(timeout, polls),
    ensures
        (exists|j: int| 0 <= j <= i && (#[trigger] polls[j]).elapsed >= timeout) || polls[i].elapsed
            >= i * POLL_INTERVAL,
    decreases i,
{
    if i > 0 {
        lemma_elapsed_grows(timeout, polls, i - 1);
        let earlier = polls[i - 1];
        if exists|j: int| 0 <= j <= i - 1 && (#[trigger] polls[j]).elapsed >= timeout {
            let j = choose|j: int| 0 <= j <= i - 1 && (#[trigger] polls[j]).elapsed >= timeout;
            assert(0 <= j <= i && polls[j].elapsed >= timeout);
        } else {
            assert(earlier.elapsed < timeout);
            assert(polls[i].elapsed >= earlier.elapsed + pause_before_retry(
                timeout,
                earlier.elapsed,
            ));
            if pause_before_retry(timeout, earlier.elapsed) == POLL_INTERVAL {
                assert(i * POLL_INTERVAL == (i - 1) * POLL_INTERVAL + POLL_INTERVAL)
                    by (nonlinear_arith);
            } else {
                assert(0 <= i <= i && polls[i].elapsed >= timeout);
            }
        }
    }
}

} // verus!
