//! The events that travel from the producers to the consumer.

use crate::status::ExitStatus;
use vstd::prelude::*;

verus! {

/// An error of the operating system, carried through unread.
#[verifier::external_type_specification]
#[verifier::external_body]
pub struct ExIoError(std::io::Error);

/// One of the two captured streams of the child.
#[derive(Debug, Clone, Copy, PartialEq, Eq, Structural)]
pub enum Stream {
    Stdout,
    Stderr,
}

/// A value tagged with the stream it came from.
#[derive(Debug, PartialEq, Eq)]
pub enum Io<T> {
    Stdout(T),
    Stderr(T),
}

/// What a producer publishes when nothing went wrong.
#[derive(Debug, PartialEq, Eq)]
pub enum ProcessData {
    /// A non-empty run of bytes read from one stream.
    Data(Io<Vec<u8>>),
    /// The child has terminated.
    Exit(ExitStatus),
}

/// What a producer publishes when something went wrong.
#[derive(Debug)]
pub enum ProcessError {
    /// Reading from one stream failed.
    Io(Io<std::io::Error>),
    /// Waiting for the child failed.
    Exit(std::io::Error),
    /// The child was still running when the wait ran out of time.
    Timeout,
}

/// The model of `ProcessData`: chunks as sequences of bytes.
pub enum ProcessDataView {
    Data(Io<Seq<u8>>),
    Exit(ExitStatus),
}

/// The unit that the producers publish.
pub type Event = Result<ProcessData, ProcessError>;

/// The model of an `Event`.
pub type EventView = Result<ProcessDataView, ProcessError>;

/// What the consumer is handed on each pull.
pub type Item = Result<Io<Vec<u8>>, ProcessError>;

/// The model of an `Item`.
pub type ItemView = Result<Io<Seq<u8>>, ProcessError>;

/// Who publishes an event: the reader of one stream, or the waiter.
pub enum Origin {
    Reader(Stream),
    Waiter,
}

impl<T> Io<T> {
    /// The stream that the value is tagged with.
    pub open spec fn spec_stream(&self) -> Stream {
        match *self {
            Io::Stdout(_) => Stream::Stdout,
            Io::Stderr(_) => Stream::Stderr,
        }
    }

    /// The value without its tag.
    pub open spec fn spec_inner(self) -> T {
        match self {
            Io::Stdout(value) => value,
            Io::Stderr(value) => value,
        }
    }

    /// The value under the tag of the given stream.
    pub open spec fn spec_tagged(stream: Stream, value: T) -> Io<T> {
        match stream {
            Stream::Stdout => Io::Stdout(value),
            Stream::Stderr => Io::Stderr(value),
        }
    }

    /// Tags a value with the stream it came from.
    pub fn tagged(stream: Stream, value: T) -> (io: Io<T>)
        ensures
            io == Io::spec_tagged(stream, value),
            io.spec_stream() == stream,
            io.spec_inner() == value,
    {
        match stream {
            Stream::Stdout => Io::Stdout(value),
            Stream::Stderr => Io::Stderr(value),
        }
    }

    /// The stream that the value came from.
    #[verifier::when_used_as_spec(spec_stream)]
    pub fn stream(&self) -> (stream: Stream)
        ensures
            stream == self.spec_stream(),
    {
        match self {
            Io::Stdout(_) => Stream::Stdout,
            Io::Stderr(_) => Stream::Stderr,
        }
    }

    /// Drops the tag.
    pub fn into_inner(self) -> (value: T)
        ensures
            value == self.spec_inner(),
    {
        match self {
            Io::Stdout(value) => value,
            Io::Stderr(value) => value,
        }
    }
}

impl<T: View> View for Io<T> {
    type V = Io<T::V>;

    open spec fn view(&self) -> Io<T::V> {
        match *self {
            Io::Stdout(value) => Io::Stdout(value@),
            Io::Stderr(value) => Io::Stderr(value@),
        }
    }
}

impl View for ProcessData {
    type V = ProcessDataView;

    open spec fn view(&self) -> ProcessDataView {
        match *self {
            ProcessData::Data(chunk) => ProcessDataView::Data(chunk@),
            ProcessData::Exit(status) => ProcessDataView::Exit(status),
        }
    }
}

/// The model of an event.
pub open spec fn event_view(event: Event) -> EventView {
    match event {
        Ok(data) => Ok(data@),
        Err(error) => Err(error),
    }
}

/// The model of an item.
pub open spec fn item_view(item: Item) -> ItemView {
    match item {
        Ok(chunk) => Ok(chunk@),
        Err(error) => Err(error),
    }
}

/// The producer that an event comes from. The tag on chunks and on stream
/// errors, and the shape of the waiter's events, decide it.
pub open spec fn origin(event: EventView) -> Origin {
    match event {
        Ok(ProcessDataView::Data(chunk)) => Origin::Reader(chunk.spec_stream()),
        Ok(ProcessDataView::Exit(_)) => Origin::Waiter,
        Err(ProcessError::Io(error)) => Origin::Reader(error.spec_stream()),
        Err(ProcessError::Exit(_)) => Origin::Waiter,
        Err(ProcessError::Timeout) => Origin::Waiter,
    }
}

/// The item that the consumer is handed for an event: the chunk or the
/// error that it carries, and nothing for the exit status.
pub open spec fn item_of(event: EventView) -> Option<ItemView> {
    match event {
        Ok(ProcessDataView::Data(chunk)) => Some(Ok(chunk)),
        Ok(ProcessDataView::Exit(_)) => None,
        Err(error) => Some(Err(error)),
    }
}

/// The exit status that an event carries, if it is the exit event.
pub open spec fn status_of(event: EventView) -> Option<ExitStatus> {
    match event {
        Ok(ProcessDataView::Exit(status)) => Some(status),
        _ => None,
    }
}

/// The bytes that an item adds to the output of `stream`: its payload if it
/// is a chunk of that stream, nothing otherwise.
pub open spec fn chunk_bytes(stream: Stream, item: ItemView) -> Seq<u8> {
    match item {
        Ok(chunk) => if chunk.spec_stream() == stream {
            chunk.spec_inner()
        } else {
            Seq::empty()
        },
        Err(_) => Seq::empty(),
    }
}

/// The bytes that an event adds to the output of `stream`.
pub open spec fn event_bytes(stream: Stream, event: EventView) -> Seq<u8> {
    match item_of(event) {
        Some(item) => chunk_bytes(stream, item),
        None => Seq::empty(),
    }
}

impl ProcessError {
    /// The text that names the kind of error.
    pub open spec fn spec_message(self) -> Seq<char> {
        match self {
            ProcessError::Io(Io::Stdout(_)) => "stdout error"@,
            ProcessError::Io(Io::Stderr(_)) => "stderr error"@,
            ProcessError::Exit(_) => "exit error"@,
            ProcessError::Timeout => "timeout"@,
        }
    }

    /// The kind of error in words: which stream failed, that the wait
    /// failed, or that it timed out.
    pub fn to_string(&self) -> (text: String)
        ensures
            text@ == self.spec_message(),
    {
        match self {
            ProcessError::Io(Io::Stdout(_)) => "stdout error".to_owned(),
            ProcessError::Io(Io::Stderr(_)) => "stderr error".to_owned(),
            ProcessError::Exit(_) => "exit error".to_owned(),
            ProcessError::Timeout => "timeout".to_owned(),
        }
    }

    /// One description for every error of this kind.
    pub fn description(&self) -> (text: &'static str)
        ensures
            text@ == "Process error occurred"@,
    {
        "Process error occurred"
    }
}

} // verus!
