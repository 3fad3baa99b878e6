//! The channel between the producers and the consumer: many senders, one
//! receiver, events delivered in the order in which they were sent.

use crate::event::{event_view, origin, Event, EventView, Origin};
use std::sync::mpsc::{Receiver, Sender};
use vstd::prelude::*;

verus! {

/// The sending half of a channel of the standard library.
#[verifier::external_type_specification]
#[verifier::external_body]
#[verifier::reject_recursive_types(T)]
pub struct ExSender<T>(Sender<T>);

/// The receiving half of a channel of the standard library.
#[verifier::external_type_specification]
#[verifier::external_body]
#[verifier::reject_recursive_types(T)]
pub struct ExReceiver<T>(Receiver<T>);

/// `std::sync::mpsc::channel`: a new unbounded channel. Nothing is claimed
/// of the two halves.
#[verifier::external_body]
pub(crate) fn open_channel() -> (halves: (Sender<Event>, Receiver<Event>)) {
    std::sync::mpsc::channel()
}

/// `Sender::send`: hands the event to the channel and tells whether the
/// receiver was still there to take it. Which of the two happens depends on
/// the consumer, so nothing is claimed of the answer.
#[verifier::external_body]
pub(crate) fn send_event(tx: &Sender<Event>, event: Event) -> (delivered: bool) {
    tx.send(event).is_ok()
}

/// `Receiver::recv`: blocks until an event arrives and returns it, or returns
/// `None` once every sender is gone and the channel is empty. What arrives
/// depends on the producers, so nothing is claimed of the answer.
#[verifier::external_body]
pub(crate) fn receive_event(rx: &Receiver<Event>) -> (received: Option<Event>) {
    rx.recv().ok()
}

/// One producer's end of the channel, with the record of what the producer
/// has handed to it.
pub struct Publisher {
    tx: Sender<Event>,
    connected: bool,
    handed: Ghost<Seq<EventView>>,
}

impl Publisher {
    /// The events that were handed to the channel through this publisher, in
    /// order.
    pub closed spec fn published(&self) -> Seq<EventView> {
        self.handed@
    }

    /// Whether the consumer took every event that was handed over so far.
    pub closed spec fn connected(&self) -> bool {
        self.connected
    }

    /// A publisher that has handed over nothing yet.
    pub fn new(tx: Sender<Event>) -> (publisher: Publisher)
        ensures
            publisher.published() == Seq::<EventView>::empty(),
            publisher.connected(),
    {
        Publisher { tx, connected: true, handed: Ghost(Seq::empty()) }
    }

    /// Whether the consumer took every event that was handed over so far.
    /// Once it did not, it is gone for good.
    pub fn is_connected(&self) -> (connected: bool)
        ensures
            connected == self.connected(),
    {
        self.connected
    }

    /// Hands one event to the channel and tells whether the consumer took
    /// it. A publisher that has lost its consumer hands over nothing more.
    pub fn publish(&mut self, event: Event) -> (delivered: bool)
        ensures
            delivered == final(self).connected(),
            delivered ==> old(self).connected(),
            final(self).published() == if old(self).connected() {
                old(self).published().push(event_view(event))
            } else {
                old(self).published()
            },
    {
        if self.connected {
            let ghost view = event_view(event);
            self.connected = send_event(&self.tx, event);
            self.handed = Ghost(self.handed@.push(view));
        }
        self.connected
    }
}

/// The events of `bus` that the given producer sent, in the order in which
/// they stand there. A channel that keeps the order of what each producer
/// sends delivers a `bus` of which this is that producer's record.
pub open spec fn sent_by(bus: Seq<EventView>, producer: Origin) -> Seq<EventView>
    decreases bus.len(),
{
    if bus.len() == 0 {
        Seq::empty()
    } else if origin(bus.last()) == producer {
        sent_by(bus.drop_last(), producer).push(bus.last())
    } else {
        sent_by(bus.drop_last(), producer)
    }
}

} // verus!
