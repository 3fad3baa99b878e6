//! The output sequencer: the consumer's pull-based view of the channel.

use crate::bus::{open_channel, receive_event};
use crate::event::{
    chunk_bytes, event_view, item_of, item_view, status_of, Event, EventView, Item, ItemView,
    ProcessData, ProcessDataView, Stream,
};
use crate::reader::carried_bytes;
use crate::status::ExitStatus;
use std::sync::mpsc::{Receiver, Sender};
use vstd::prelude::*;

verus! {

/// The exit status that a consumer has recorded after the channel has
/// delivered `bus`: that of the first exit event in it.
pub open spec fn recorded_exit(bus: Seq<EventView>) -> Option<ExitStatus>
    decreases bus.len(),
{
    if bus.len() == 0 {
        None
    } else {
        match recorded_exit(bus.drop_last()) {
            Some(status) => Some(status),
            None => status_of(bus.last()),
        }
    }
}

/// What a consumer that has received `before` is handed when the channel
/// delivers `received` (`None`: the channel is disconnected). Once the exit
/// status is recorded the sequence has ended and nothing is handed out.
pub open spec fn item_after(before: Seq<EventView>, received: Option<EventView>) -> Option<
    ItemView,
> {
    if recorded_exit(before) is Some {
        None
    } else {
        match received {
            Some(event) => item_of(event),
            None => None,
        }
    }
}

/// What a consumer that has received `before` has received after the channel
/// delivers `received`. Once the exit status is recorded nothing more is
/// received.
pub open spec fn history_after(before: Seq<EventView>, received: Option<EventView>) -> Seq<
    EventView,
> {
    if recorded_exit(before) is Some {
        before
    } else {
        match received {
            Some(event) => before.push(event),
            None => before,
        }
    }
}

/// The relation between what a consumer has received before and after one
/// pull, and the item that the pull hands out. A sequence that has ended
/// stays ended. Otherwise the pull either finds the channel disconnected,
/// or receives one event and hands out the item for it; for the exit event
/// that is the end of the sequence.
pub open spec fn pulled(
    before: Seq<EventView>,
    after: Seq<EventView>,
    item: Option<ItemView>,
) -> bool {
    if recorded_exit(before) is Some {
        after == before && item is None
    } else {
        ||| after == before && item is None
        ||| after.len() == before.len() + 1 && after.drop_last() == before && item == item_of(
            after.last(),
        )
    }
}

/// The items that a consumer is handed, pull by pull, while the channel
/// delivers `bus`.
pub open spec fn yielded(bus: Seq<EventView>) -> Seq<ItemView>
    decreases bus.len(),
{
    if bus.len() == 0 {
        Seq::empty()
    } else {
        match item_after(bus.drop_last(), Some(bus.last())) {
            Some(item) => yielded(bus.drop_last()).push(item),
            None => yielded(bus.drop_last()),
        }
    }
}

/// The items handed out so far, after one more pull.
pub open spec fn items_after(items: Seq<ItemView>, item: Option<ItemView>) -> Seq<ItemView> {
    match item {
        Some(item) => items.push(item),
        None => items,
    }
}

/// The number of events in `bus` that stand before its first exit event; the
/// length of `bus` where it has none.
pub open spec fn exit_position(bus: Seq<EventView>) -> int
    decreases bus.len(),
{
    if bus.len() == 0 {
        0
    } else if recorded_exit(bus.drop_last()) is Some {
        exit_position(bus.drop_last())
    } else if status_of(bus.last()) is Some {
        bus.len() - 1
    } else {
        bus.len() as int
    }
}

/// The model of what a pull returns.
pub open spec fn pulled_item_view(item: Option<Item>) -> Option<ItemView> {
    match item {
        Some(item) => Some(item_view(item)),
        None => None,
    }
}

/// The model of what a receive returns.
pub open spec fn received_view(received: Option<Event>) -> Option<EventView> {
    match received {
        Some(event) => Some(event_view(event)),
        None => None,
    }
}

/// The consumer's cursor over the channel. It hands out chunks and errors in
/// the order in which the channel delivers them, and ends when the exit
/// event arrives, which it keeps for `exit_status`.
pub struct ProcessOutputIterator {
    rx: Receiver<Event>,
    exit_status: Option<ExitStatus>,
    taken: Ghost<Seq<EventView>>,
}

impl ProcessOutputIterator {
    #[verifier::type_invariant]
    spec fn taken_before_exit(self) -> bool {
        forall|i: int| 0 <= i < self.taken@.len() ==> status_of(#[trigger] self.taken@[i]) is None
    }

    /// The events that this cursor has received so far, in order.
    pub closed spec fn received(&self) -> Seq<EventView> {
        match self.exit_status {
            Some(status) => self.taken@.push(Ok(ProcessDataView::Exit(status))),
            None => self.taken@,
        }
    }

    /// A new channel: the sender for the producers to share, and the cursor
    /// that owns the receiver.
    pub fn channel() -> (ends: (Sender<Event>, ProcessOutputIterator))
        ensures
            ends.1.received() == Seq::<EventView>::empty(),
    {
        let (tx, rx) = open_channel();
        (tx, ProcessOutputIterator { rx, exit_status: None, taken: Ghost(Seq::empty()) })
    }

    /// Takes in what the channel delivered (`None`: it is disconnected) and
    /// hands out the item for it: the chunk or the error of the event, or
    /// nothing for the exit event, whose status is kept. After the exit
    /// event nothing is taken in any more.
    pub fn advance(&mut self, received: Option<Event>) -> (item: Option<Item>)
        ensures
            final(self).received() == history_after(old(self).received(), received_view(received)),
            pulled_item_view(item) == item_after(old(self).received(), received_view(received)),
            yielded(final(self).received()) == items_after(
                yielded(old(self).received()),
                pulled_item_view(item),
            ),
    {
        proof {
            use_type_invariant(&*self);
            lemma_recorded_exit_last(self.taken@, self.exit_status);
            lemma_pull_extends(self.received(), received_view(received));
        }
        if self.exit_status.is_some() {
            return None;
        }
        match received {
            None => None,
            Some(Ok(ProcessData::Data(chunk))) => {
                self.taken = Ghost(self.taken@.push(Ok(ProcessDataView::Data(chunk@))));
                Some(Ok(chunk))
            },
            Some(Ok(ProcessData::Exit(status))) => {
                self.exit_status = Some(status);
                None
            },
            Some(Err(error)) => {
                self.taken = Ghost(self.taken@.push(Err(error)));
                Some(Err(error))
            },
        }
    }

    /// Blocks until the channel delivers an event or is disconnected, and
    /// hands out the next item. `None` ends the sequence: the exit event
    /// has arrived, now or before, or every producer is gone.
    pub fn next(&mut self) -> (item: Option<Item>)
        ensures
            pulled(old(self).received(), final(self).received(), pulled_item_view(item)),
            yielded(final(self).received()) == items_after(
                yielded(old(self).received()),
                pulled_item_view(item),
            ),
    {
        proof {
            use_type_invariant(&*self);
            lemma_recorded_exit_last(self.taken@, self.exit_status);
        }
        if self.exit_status.is_some() {
            None
        } else {
            let received = receive_event(&self.rx);
            let item = self.advance(received);
            proof {
                if let Some(event) = received_view(received) {
                    assert(old(self).received().push(event).drop_last() == old(self).received());
                }
            }
            item
        }
    }

    /// The exit status of the child: that of the exit event, if the cursor
    /// has received it. `None` means that the status is not known.
    pub fn exit_status(self) -> (status: Option<ExitStatus>)
        ensures
            status == recorded_exit(self.received()),
    {
        proof {
            use_type_invariant(&self);
            lemma_recorded_exit_last(self.taken@, self.exit_status);
        }
        self.exit_status
    }
}

/// A run of events without an exit event records no status; with the exit
/// event added at its end it records that event's status.
proof fn lemma_recorded_exit_last(taken: Seq<EventView>, exit: Option<ExitStatus>)
    requires
        forall|i: int| 0 <= i < taken.len() ==> status_of(#[trigger] taken[i]) is None,
    ensures
        recorded_exit(taken) is None,
        exit matches Some(status) ==> recorded_exit(taken.push(Ok(ProcessDataView::Exit(status))))
            == exit,
    decreases taken.len(),
{
    if taken.len() > 0 {
        lemma_recorded_exit_last(taken.drop_last(), None);
    }
    if let Some(status) = exit {
        assert(taken.push(Ok(ProcessDataView::Exit(status))).drop_last() == taken);
    }
}

/// One pull extends what the consumer has been handed by the item that it
/// hands out, and by nothing where it hands out none; it is one step in the
/// relation `pulled`; and a status that is recorded stays as it is.
pub proof fn lemma_pull_extends(before: Seq<EventView>, received: Option<EventView>)
    ensures
        yielded(history_after(before, received)) == items_after(
            yielded(before),
            item_after(before, received),
        ),
        pulled(before, history_after(before, received), item_after(before, received)),
        recorded_exit(before) is Some ==> recorded_exit(history_after(before, received))
            == recorded_exit(before),
        item_after(before, received) is Some ==> recorded_exit(history_after(before, received))
            is None,
{
    if recorded_exit(before) is None {
        if let Some(event) = received {
            assert(before.push(event).drop_last() == before);
        }
    }
}

/// The output of `stream` that a consumer has been handed in `items`: the
/// payloads of the chunks under that tag, joined in order.
pub open spec fn payload(stream: Stream, items: Seq<ItemView>) -> Seq<u8>
    decreases items.len(),
{
    if items.len() == 0 {
        Seq::empty()
    } else {
        payload(stream, items.drop_last()) + chunk_bytes(stream, items.last())
    }
}

/// Where the first exit event of a bus stands: no exit event stands before
/// that position, the event there is the one whose status is recorded, and
/// a bus without an exit event records none.
pub proof fn lemma_exit_position(bus: Seq<EventView>)
    ensures
        0 <= exit_position(bus) <= bus.len(),
        forall|i: int| 0 <= i < exit_position(bus) ==> status_of(#[trigger] bus[i]) is None,
        exit_position(bus) < bus.len() ==> status_of(bus[exit_position(bus)]) is Some
            && recorded_exit(bus) == status_of(bus[exit_position(bus)]),
        exit_position(bus) == bus.len() ==> recorded_exit(bus) is None,
    decreases bus.len(),
{
    if bus.len() > 0 {
        let before = bus.drop_last();
        lemma_exit_position(before);
        assert forall|i: int| 0 <= i < exit_position(bus) implies status_of(#[trigger] bus[i])
            is None by {
            if i < before.len() {
                assert(before[i] == bus[i]);
            }
        }
        if exit_position(before) < before.len() {
            assert(before[exit_position(before)] == bus[exit_position(before)]);
        }
    }
}

/// The sequence hands out one item for each event that arrives before the
/// first exit event, in the same order and with the same content, and
/// nothing else: no item is made up, none is left out, and what arrives
/// after the exit event is not handed out.
pub proof fn lemma_yielded_until_exit(bus: Seq<EventView>)
    ensures
        yielded(bus).len() == exit_position(bus),
        forall|i: int|
            0 <= i < exit_position(bus) ==> item_of(bus[i]) == Some(#[trigger] yielded(bus)[i]),
    decreases bus.len(),
{
    lemma_exit_position(bus);
    if bus.len() > 0 {
        let before = bus.drop_last();
        lemma_yielded_until_exit(before);
        lemma_exit_position(before);
        assert forall|i: int| 0 <= i < exit_position(bus) implies item_of(bus[i]) == Some(
            #[trigger] yielded(bus)[i],
        ) by {
            if i < before.len() {
                assert(before[i] == bus[i]);
            }
        }
    }
}

/// The output of a stream that the consumer is handed is what the events
/// before the first exit event carry of it.
pub proof fn lemma_yielded_bytes(stream: Stream, bus: Seq<EventView>)
    ensures
        payload(stream, yielded(bus)) == carried_bytes(stream, bus.take(exit_position(bus))),
    decreases bus.len(),
{
    lemma_exit_position(bus);
    if bus.len() == 0 {
        assert(bus.take(0) == bus);
    } else {
        let before = bus.drop_last();
        lemma_yielded_bytes(stream, before);
        lemma_exit_position(before);
        if recorded_exit(before) is Some {
            assert(bus.take(exit_position(bus)) == before.take(exit_position(before)));
        } else {
            assert(before.take(exit_position(before)) == before);
            match item_of(bus.last()) {
                Some(item) => {
                    assert(bus.take(exit_position(bus)) == bus);
                    assert(yielded(before).push(item).drop_last() == yielded(before));
                },
                None => {
                    assert(bus.take(exit_position(bus)) == before);
                },
            }
        }
    }
}

} // verus!
