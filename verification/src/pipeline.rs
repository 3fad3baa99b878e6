//! The producers, the channel and the consumer together: what the consumer
//! is handed, given what the producers published.

use crate::bus::sent_by;
use crate::event::{
    event_bytes, origin, status_of, EventView, ItemView, Origin, ProcessDataView, ProcessError,
    Stream,
};
use crate::reader::{bytes_read, carried_bytes, lemma_reader_keeps_bytes, reader_events, ReadRecord};
use crate::sequencer::{
    exit_position, lemma_exit_position, lemma_yielded_bytes, lemma_yielded_until_exit, payload,
    recorded_exit, yielded,
};
use crate::status::{lemma_exit_code_roundtrip, ExitStatus};
use crate::waiter::{
    bounded_wait, lemma_exit_reported, lemma_timeout_reported, no_status, terminal_event,
    wait_return, with_status, PollRecord, WaitReturn,
};
use vstd::prelude::*;

verus! {

/// A producer's record within a bus holds exactly the events of the bus
/// that come from that producer.
pub proof fn lemma_sent_by_members(bus: Seq<EventView>, producer: Origin)
    ensures
        forall|i: int|
            0 <= i < bus.len() && origin(#[trigger] bus[i]) == producer ==> sent_by(
                bus,
                producer,
            ).contains(bus[i]),
        forall|j: int|
            0 <= j < sent_by(bus, producer).len() ==> origin(#[trigger] sent_by(bus, producer)[j])
                == producer && bus.contains(sent_by(bus, producer)[j]),
    decreases bus.len(),
{
    if bus.len() > 0 {
        let before = bus.drop_last();
        let record = sent_by(bus, producer);
        lemma_sent_by_members(before, producer);
        assert forall|i: int|
            0 <= i < bus.len() && origin(#[trigger] bus[i]) == producer implies record.contains(
            bus[i],
        ) by {
            if i < before.len() {
                assert(before[i] == bus[i]);
                let j = choose|j: int|
                    0 <= j < sent_by(before, producer).len() && sent_by(before, producer)[j]
                        == before[i];
                assert(record[j] == bus[i]);
            } else {
                assert(record[record.len() - 1] == bus[i]);
            }
        }
        assert forall|j: int| 0 <= j < record.len() implies origin(#[trigger] record[j])
            == producer && bus.contains(record[j]) by {
            if j < sent_by(before, producer).len() {
                assert(record[j] == sent_by(before, producer)[j]);
                let i = choose|i: int| 0 <= i < before.len() && before[i] == record[j];
                assert(bus[i] == record[j]);
            } else {
                assert(bus[bus.len() - 1] == record[j]);
            }
        }
    }
}

/// What a bus carries of a stream is what that stream's reader sent: the
/// other producers add nothing to it, and the order of the reader's chunks
/// is kept, whatever stands between them.
pub proof fn lemma_carried_by_reader(stream: Stream, bus: Seq<EventView>)
    ensures
        carried_bytes(stream, bus) == carried_bytes(
            stream,
            sent_by(bus, Origin::Reader(stream)),
        ),
    decreases bus.len(),
{
    if bus.len() > 0 {
        let before = bus.drop_last();
        lemma_carried_by_reader(stream, before);
        if origin(bus.last()) == Origin::Reader(stream) {
            assert(sent_by(before, Origin::Reader(stream)).push(bus.last()).drop_last() == sent_by(
                before,
                Origin::Reader(stream),
            ));
        } else {
            assert(event_bytes(stream, bus.last()) == Seq::<u8>::empty());
        }
    }
}

/// The bytes of a stream reach the consumer whole and in order: where the
/// events that arrive before the exit event hold, of the reader of
/// `stream`, the record of a reader that was given `reads`, the chunks
/// handed out under that tag join to the bytes that the stream handed over
/// in `reads`, however many reads that took and whatever the other
/// producers sent in between.
pub proof fn lemma_stream_output_preserved(
    bus: Seq<EventView>,
    stream: Stream,
    reads: Seq<ReadRecord>,
)
    requires
        sent_by(bus.take(exit_position(bus)), Origin::Reader(stream)) == reader_events(
            stream,
            reads,
        ),
    ensures
        payload(stream, yielded(bus)) == bytes_read(reads),
{
    let other = if stream == Stream::Stdout {
        Stream::Stderr
    } else {
        Stream::Stdout
    };
    lemma_yielded_bytes(stream, bus);
    lemma_carried_by_reader(stream, bus.take(exit_position(bus)));
    lemma_reader_keeps_bytes(stream, other, reads);
}

/// Where the waiter has published exactly one event and that is an exit
/// event, the bus holds it at the position of its first exit event, and the
/// status that the consumer records is the status of that event.
pub proof fn lemma_exit_recorded(bus: Seq<EventView>, status: ExitStatus)
    requires
        sent_by(bus, Origin::Waiter) == seq![Ok::<_, ProcessError>(ProcessDataView::Exit(status))],
    ensures
        recorded_exit(bus) == Some(status),
        exit_position(bus) < bus.len(),
        bus[exit_position(bus)] == Ok::<_, ProcessError>(ProcessDataView::Exit(status)),
{
    let exit = Ok::<_, ProcessError>(ProcessDataView::Exit(status));
    let record = sent_by(bus, Origin::Waiter);
    lemma_sent_by_members(bus, Origin::Waiter);
    lemma_exit_position(bus);
    assert(record[0] == exit);
    assert(bus.contains(record[0]));
    let k = choose|k: int| 0 <= k < bus.len() && bus[k] == exit;
    let p = exit_position(bus);
    if p == bus.len() {
        assert(status_of(bus[k]) is None);
    }
    assert(origin(bus[p]) == Origin::Waiter);
    assert(record.contains(bus[p]));
    let j = choose|j: int| 0 <= j < record.len() && record[j] == bus[p];
    assert(j == 0);
}

/// A child that exits with code zero before any stream error arrives: the
/// sequence hands out no error item, and the status left behind is a
/// success with code zero.
pub proof fn lemma_clean_exit(bus: Seq<EventView>)
    requires
        sent_by(bus, Origin::Waiter) == seq![
            Ok::<_, ProcessError>(ProcessDataView::Exit(ExitStatus::Code(0))),
        ],
        forall|i: int| 0 <= i < exit_position(bus) ==> (#[trigger] bus[i]) is Ok,
    ensures
        forall|j: int| 0 <= j < yielded(bus).len() ==> (#[trigger] yielded(bus)[j]) is Ok,
        recorded_exit(bus) == Some(ExitStatus::Code(0)),
        recorded_exit(bus)->Some_0.is_success(),
{
    lemma_exit_recorded(bus, ExitStatus::Code(0));
    lemma_yielded_until_exit(bus);
    assert forall|j: int| 0 <= j < yielded(bus).len() implies (#[trigger] yielded(bus)[j])
        is Ok by {
        assert(bus[j] is Ok);
    }
}

/// A child that exits with some code: the status left behind holds exactly
/// that code, and every item handed out is the chunk or the error of the
/// event that arrived at its place; nothing is made up.
pub proof fn lemma_exit_code_kept(bus: Seq<EventView>, code: i32)
    requires
        sent_by(bus, Origin::Waiter) == seq![
            Ok::<_, ProcessError>(ProcessDataView::Exit(ExitStatus::Code(code))),
        ],
    ensures
        recorded_exit(bus) == Some(ExitStatus::Code(code)),
        yielded(bus).len() == exit_position(bus) < bus.len(),
        forall|i: int|
            0 <= i < yielded(bus).len() ==> crate::event::item_of(bus[i]) == Some(
                #[trigger] yielded(bus)[i],
            ),
{
    lemma_exit_recorded(bus, ExitStatus::Code(code));
    lemma_yielded_until_exit(bus);
}

/// A wait that ran out of time: the waiter's one event is the timeout, so
/// no exit event ever arrives. The sequence hands out every event as an
/// item, the timeout among them, and the status left behind is absent.
pub proof fn lemma_timeout_leaves_no_status(bus: Seq<EventView>)
    requires
        sent_by(bus, Origin::Waiter) == seq![
            Err::<ProcessDataView, _>(ProcessError::Timeout),
        ],
    ensures
        recorded_exit(bus) is None,
        yielded(bus).len() == bus.len(),
        yielded(bus).contains(Err::<crate::event::Io<Seq<u8>>, _>(ProcessError::Timeout)),
{
    let timeout = Err::<ProcessDataView, _>(ProcessError::Timeout);
    let record = sent_by(bus, Origin::Waiter);
    lemma_sent_by_members(bus, Origin::Waiter);
    lemma_exit_position(bus);
    lemma_yielded_until_exit(bus);
    let p = exit_position(bus);
    if p < bus.len() {
        assert(origin(bus[p]) == Origin::Waiter);
        assert(record.contains(bus[p]));
        let j = choose|j: int| 0 <= j < record.len() && record[j] == bus[p];
        assert(j == 0);
    }
    assert(record[0] == timeout);
    assert(bus.contains(record[0]));
    let k = choose|k: int| 0 <= k < bus.len() && bus[k] == timeout;
    assert(crate::event::item_of(bus[k]) == Some(yielded(bus)[k]));
}

/// A timeout shorter than the runtime of the child: the child is still
/// running at every look up to the first one at or after the deadline, and
/// the waiter publishes the result of that wait as its one event. Then the
/// wait ends without a status, the sequence hands out the timeout, and the
/// status left behind is absent, whatever the child does later.
pub proof fn lemma_short_timeout(
    timeout: u64,
    polls: Seq<PollRecord>,
    k: int,
    bus: Seq<EventView>,
)
    requires
        0 <= k < polls.len(),
        forall|i: int|
            0 <= i <= k ==> (#[trigger] polls[i]).polled == no_status(),
        forall|i: int| 0 <= i < k ==> (#[trigger] polls[i]).elapsed < timeout,
        polls[k].elapsed >= timeout,
        bounded_wait(timeout, polls) matches Some(waited) && sent_by(bus, Origin::Waiter) == seq![
            terminal_event(waited),
        ],
    ensures
        bounded_wait(timeout, polls) == Some(no_status()),
        yielded(bus).contains(Err::<crate::event::Io<Seq<u8>>, _>(ProcessError::Timeout)),
        yielded(bus).len() == bus.len(),
        recorded_exit(bus) is None,
{
    lemma_timeout_reported(timeout, polls, k);
    lemma_timeout_leaves_no_status(bus);
}

/// A child that exits with `code`: the wait call returns its process id and
/// the status word for that code, a look of the bounded wait shows it before
/// the wait has ended, and the waiter publishes the result of that wait as
/// its one event. Then the status left behind holds exactly `code`, and it
/// is a success exactly when `code` is zero.
pub proof fn lemma_exit_code_reported(
    code: i32,
    returned: i32,
    timeout: u64,
    polls: Seq<PollRecord>,
    k: int,
    bus: Seq<EventView>,
)
    requires
        0 <= code <= 255,
        returned > 0,
        0 <= k < polls.len(),
        forall|i: int|
            0 <= i < k ==> (#[trigger] polls[i]).polled == no_status(),
        forall|i: int| 0 <= i < k ==> (#[trigger] polls[i]).elapsed < timeout,
        wait_return(returned, code << 8) matches WaitReturn::Ended(outcome) && polls[k].polled
            == with_status(outcome),
        bounded_wait(timeout, polls) matches Some(waited) && sent_by(bus, Origin::Waiter) == seq![
            terminal_event(waited),
        ],
    ensures
        wait_return(returned, code << 8) == WaitReturn::Ended(ExitStatus::Code(code)),
        bounded_wait(timeout, polls) == Some(with_status(ExitStatus::Code(code))),
        recorded_exit(bus) == Some(ExitStatus::Code(code)),
        recorded_exit(bus)->Some_0.is_success() <==> code == 0,
{
    lemma_exit_code_roundtrip(code);
    lemma_exit_reported(timeout, polls, k, ExitStatus::Code(code));
    lemma_exit_code_kept(bus, code);
}

} // verus!
