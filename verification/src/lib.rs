//! One ordered, blocking sequence over the output of a child process:
//! chunks of its standard output and standard error, and its exit status,
//! with an optional bound on the wait for its exit.

pub mod bus;
pub mod event;
pub mod pipeline;
pub mod reader;
pub mod sequencer;
pub mod status;
pub mod waiter;

pub use crate::bus::Publisher;
pub use crate::event::{Event, Io, Item, ProcessData, ProcessError, Stream};
pub use crate::sequencer::ProcessOutputIterator;
pub use crate::status::ExitStatus;
