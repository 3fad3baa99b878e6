//! The stream reader: turns what one captured stream hands over, read by
//! read, into events.

use crate::bus::Publisher;
use crate::event::{
    event_bytes, event_view, origin, Event, EventView, Io, Origin, ProcessData, ProcessDataView,
    ProcessError, Stream,
};
use vstd::prelude::*;

verus! {

/// The size of the buffer that each read fills, and so the longest chunk.
pub const CAPACITY: usize = 4096;

/// What the reader does after one read.
pub enum ReaderAction {
    /// The stream has ended: publish nothing and stop.
    Stop,
    /// Publish the chunk, then read again if it was delivered.
    Publish(Event),
    /// Publish the error, then stop.
    PublishAndStop(Event),
}

/// The model of a `ReaderAction`.
pub enum ReaderActionView {
    Stop,
    Publish(EventView),
    PublishAndStop(EventView),
}

impl View for ReaderAction {
    type V = ReaderActionView;

    open spec fn view(&self) -> ReaderActionView {
        match *self {
            ReaderAction::Stop => ReaderActionView::Stop,
            ReaderAction::Publish(event) => ReaderActionView::Publish(event_view(event)),
            ReaderAction::PublishAndStop(event) => ReaderActionView::PublishAndStop(
                event_view(event),
            ),
        }
    }
}

/// The bytes that a read brought: the first `count` bytes of the buffer, or
/// all of it where the count exceeds its length.
pub open spec fn chunk_of_read(buf: Seq<u8>, count: usize) -> Seq<u8> {
    if count <= buf.len() {
        buf.take(count as int)
    } else {
        buf
    }
}

/// The action that follows a read from `stream` into `buf` that returned
/// `outcome`. A read of no bytes is the end of the stream. A read of some
/// bytes is published as a chunk under the stream's tag. A failed read is
/// published as that stream's error and is the reader's last act.
pub open spec fn reader_action(
    stream: Stream,
    buf: Seq<u8>,
    outcome: Result<usize, std::io::Error>,
) -> ReaderActionView {
    match outcome {
        Ok(count) => {
            if chunk_of_read(buf, count).len() == 0 {
                ReaderActionView::Stop
            } else {
                ReaderActionView::Publish(
                    Ok(ProcessDataView::Data(Io::spec_tagged(stream, chunk_of_read(buf, count)))),
                )
            }
        },
        Err(error) => ReaderActionView::PublishAndStop(
            Err(ProcessError::Io(Io::spec_tagged(stream, error))),
        ),
    }
}

/// A producer's record after it has carried out `action`.
pub open spec fn record_after(published: Seq<EventView>, action: ReaderActionView) -> Seq<
    EventView,
> {
    match action {
        ReaderActionView::Stop => published,
        ReaderActionView::Publish(event) => published.push(event),
        ReaderActionView::PublishAndStop(event) => published.push(event),
    }
}

/// A fresh buffer for one read: `CAPACITY` zero bytes.
pub fn new_buffer() -> (buf: Vec<u8>)
    ensures
        buf@ == Seq::new(CAPACITY as nat, |i: int| 0u8),
{
    let mut buf: Vec<u8> = Vec::with_capacity(CAPACITY);
    let mut filled: usize = 0;
    while filled < CAPACITY
        invariant
            filled <= CAPACITY,
            buf@ == Seq::new(filled as nat, |i: int| 0u8),
        decreases CAPACITY - filled,
    {
        buf.push(0u8);
        filled = filled + 1;
    }
    buf
}

/// Decides what follows one read. `buf` is the buffer that the read was
/// given, `outcome` what the read returned. The chunk keeps the bytes that
/// were read and drops the rest of the buffer.
pub fn after_read(stream: Stream, buf: Vec<u8>, outcome: Result<usize, std::io::Error>) -> (action:
    ReaderAction)
    ensures
        action@ == reader_action(stream, buf@, outcome),
{
    match outcome {
        Ok(count) => {
            let mut chunk = buf;
            chunk.truncate(count);
            if chunk.len() == 0 {
                ReaderAction::Stop
            } else {
                ReaderAction::Publish(Ok(ProcessData::Data(Io::tagged(stream, chunk))))
            }
        },
        Err(error) => ReaderAction::PublishAndStop(
            Err(ProcessError::Io(Io::tagged(stream, error))),
        ),
    }
}

/// Handles one read of `stream`: publishes what `after_read` decides and
/// tells whether to read again. The reader goes on exactly after a chunk
/// that the consumer took: the end of the stream, an error, and a consumer
/// that is gone each stop it.
pub fn forward_read(
    out: &mut Publisher,
    stream: Stream,
    buf: Vec<u8>,
    outcome: Result<usize, std::io::Error>,
) -> (more: bool)
    ensures
        final(out).published() == if old(out).connected() {
            record_after(old(out).published(), reader_action(stream, buf@, outcome))
        } else {
            old(out).published()
        },
        final(out).connected() ==> old(out).connected(),
        more == (final(out).connected() && reader_action(stream, buf@, outcome) is Publish),
{
    match after_read(stream, buf, outcome) {
        ReaderAction::Stop => false,
        ReaderAction::Publish(event) => out.publish(event),
        ReaderAction::PublishAndStop(event) => {
            let _ = out.publish(event);
            false
        },
    }
}

/// One read as the reader sees it: the buffer after the read, and what the
/// read returned.
pub struct ReadRecord {
    pub buf: Seq<u8>,
    pub outcome: Result<usize, std::io::Error>,
}

impl ReadRecord {
    /// The action that follows this read.
    pub open spec fn action(self, stream: Stream) -> ReaderActionView {
        reader_action(stream, self.buf, self.outcome)
    }

    /// Whether this read brought a chunk: it did not fail and did not find
    /// the stream at its end.
    pub open spec fn brings_chunk(self) -> bool {
        self.outcome is Ok && self.bytes().len() > 0
    }

    /// The bytes that this read brought; none if it failed.
    pub open spec fn bytes(self) -> Seq<u8> {
        match self.outcome {
            Ok(count) => chunk_of_read(self.buf, count),
            Err(_) => Seq::empty(),
        }
    }
}

/// Whether a reader that has handled `reads` reads on: each of them brought
/// a chunk. (The consumer is taken to be there for every chunk.)
pub open spec fn reads_on(reads: Seq<ReadRecord>) -> bool
    decreases reads.len(),
{
    reads.len() == 0 || (reads_on(reads.drop_last()) && reads.last().brings_chunk())
}

/// The record of a reader of `stream` that is given `reads`, one after the
/// other: it handles each read until one of them stops it, and ignores the
/// rest.
pub open spec fn reader_events(stream: Stream, reads: Seq<ReadRecord>) -> Seq<EventView>
    decreases reads.len(),
{
    if reads.len() == 0 {
        Seq::empty()
    } else if reads_on(reads.drop_last()) {
        record_after(reader_events(stream, reads.drop_last()), reads.last().action(stream))
    } else {
        reader_events(stream, reads.drop_last())
    }
}

/// The bytes that the stream handed over in `reads` before its end or its
/// first failure.
pub open spec fn bytes_read(reads: Seq<ReadRecord>) -> Seq<u8>
    decreases reads.len(),
{
    if reads.len() == 0 {
        Seq::empty()
    } else if reads_on(reads.drop_last()) {
        bytes_read(reads.drop_last()) + reads.last().bytes()
    } else {
        bytes_read(reads.drop_last())
    }
}

/// The bytes of `stream` that a run of events carries: the payloads of its
/// chunks, in order.
pub open spec fn carried_bytes(stream: Stream, events: Seq<EventView>) -> Seq<u8>
    decreases events.len(),
{
    if events.len() == 0 {
        Seq::empty()
    } else {
        carried_bytes(stream, events.drop_last()) + event_bytes(stream, events.last())
    }
}

/// A reader that is given one more read extends its record as `forward_read`
/// does for that read while it reads on, and not at all once it has stopped.
pub proof fn lemma_reader_events_step(stream: Stream, reads: Seq<ReadRecord>, read: ReadRecord)
    ensures
        reader_events(stream, reads.push(read)) == if reads_on(reads) {
            record_after(reader_events(stream, reads), read.action(stream))
        } else {
            reader_events(stream, reads)
        },
        reads_on(reads.push(read)) == (reads_on(reads) && read.action(stream) is Publish),
{
    assert(reads.push(read).drop_last() == reads);
}

/// A reader publishes every byte that its stream hands over, in order and
/// under its own tag, however the reads cut the stream into pieces; it
/// publishes nothing under the other tag, and every event in its record is
/// its own.
pub proof fn lemma_reader_keeps_bytes(stream: Stream, other: Stream, reads: Seq<ReadRecord>)
    requires
        other != stream,
    ensures
        carried_bytes(stream, reader_events(stream, reads)) == bytes_read(reads),
        carried_bytes(other, reader_events(stream, reads)) == Seq::<u8>::empty(),
        forall|i: int|
            0 <= i < reader_events(stream, reads).len() ==> origin(
                #[trigger] reader_events(stream, reads)[i],
            ) == Origin::Reader(stream),
    decreases reads.len(),
{
    if reads.len() > 0 {
        let before = reads.drop_last();
        let events = reader_events(stream, before);
        lemma_reader_keeps_bytes(stream, other, before);
        if reads_on(before) {
            match reads.last().action(stream) {
                ReaderActionView::Stop => {},
                ReaderActionView::Publish(event) => {
                    assert(events.push(event).drop_last() == events);
                },
                ReaderActionView::PublishAndStop(event) => {
                    assert(events.push(event).drop_last() == events);
                },
            }
        }
    }
}

/// Every chunk in a reader's record is non-empty and no longer than the
/// buffer that it was read into, and an error stands only at the end of the
/// record.
pub proof fn lemma_reader_record_shape(stream: Stream, reads: Seq<ReadRecord>, i: int)
    requires
        0 <= i < reader_events(stream, reads).len(),
    ensures
        i < reads.len(),
        reader_events(stream, reads)[i] is Ok ==> 0 < event_bytes(
            stream,
            reader_events(stream, reads)[i],
        ).len() <= reads[i].buf.len(),
        reader_events(stream, reads)[i] is Err ==> i == reader_events(stream, reads).len() - 1,
    decreases reads.len(),
{
    lemma_reader_record_prefix(stream, reads);
    let before = reads.drop_last();
    lemma_reader_record_prefix(stream, before);
    if i < reader_events(stream, before).len() {
        lemma_reader_record_shape(stream, before, i);
        if reader_events(stream, before)[i] is Err {
            assert(!reads_on(before)) by {
                lemma_error_ends_run(stream, before, i);
            }
        }
    }
}

/// A reader that still reads on has published one chunk for each read; one
/// that has stopped has published at most one event for each read.
pub proof fn lemma_reader_record_prefix(stream: Stream, reads: Seq<ReadRecord>)
    ensures
        reader_events(stream, reads).len() <= reads.len(),
        reads_on(reads) ==> reader_events(stream, reads).len() == reads.len(),
        forall|i: int|
            0 <= i < reader_events(stream, reads).len() ==> #[trigger] record_after(
                Seq::empty(),
                reads[i].action(stream),
            ) == seq![reader_events(stream, reads)[i]],
    decreases reads.len(),
{
    if reads.len() > 0 {
        lemma_reader_record_prefix(stream, reads.drop_last());
        assert forall|i: int|
            0 <= i < reader_events(stream, reads).len() implies #[trigger] record_after(
            Seq::empty(),
            reads[i].action(stream),
        ) == seq![reader_events(stream, reads)[i]] by {
            if i < reader_events(stream, reads.drop_last()).len() {
                assert(reads.drop_last()[i] == reads[i]);
            }
        }
    }
}

/// After an error, the reader reads no more.
proof fn lemma_error_ends_run(stream: Stream, reads: Seq<ReadRecord>, i: int)
    requires
        0 <= i < reader_events(stream, reads).len(),
        reader_events(stream, reads)[i] is Err,
    ensures
        !reads_on(reads),
    decreases reads.len(),
{
    lemma_reader_record_prefix(stream, reads);
    let before = reads.drop_last();
    lemma_reader_record_prefix(stream, before);
    if i < reader_events(stream, before).len() {
        lemma_error_ends_run(stream, before, i);
    }
}

} // verus!
