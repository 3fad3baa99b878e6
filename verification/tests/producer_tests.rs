use process_output::bus::Publisher;
use process_output::event::{Io, ProcessData, ProcessError, Stream};
use process_output::reader::{after_read, forward_read, new_buffer, ReaderAction, CAPACITY};
use process_output::sequencer::ProcessOutputIterator;
use process_output::status::ExitStatus;
use process_output::waiter::{exit_event, poll_step, report_exit, WaitStep, POLL_INTERVAL};

fn buffer_with(bytes: &[u8]) -> Vec<u8> {
    let mut buf = new_buffer();
    buf[..bytes.len()].copy_from_slice(bytes);
    buf
}

#[test]
fn capacity_is_4096() {
    assert_eq!(CAPACITY, 4096);
}

#[test]
fn new_buffer_is_capacity_zero_bytes() {
    let buf = new_buffer();
    assert_eq!(buf.len(), 4096);
    assert!(buf.iter().all(|byte| *byte == 0));
}

#[test]
fn read_of_some_bytes_is_published_as_chunk() {
    match after_read(Stream::Stdout, buffer_with(b"hello"), Ok(5)) {
        ReaderAction::Publish(Ok(ProcessData::Data(chunk))) => {
            assert_eq!(chunk, Io::Stdout(b"hello".to_vec()));
        }
        _ => panic!("a read of five bytes is a chunk"),
    }
}

#[test]
fn chunk_carries_the_tag_of_its_stream() {
    match after_read(Stream::Stderr, buffer_with(b"oops"), Ok(4)) {
        ReaderAction::Publish(Ok(ProcessData::Data(chunk))) => {
            assert_eq!(chunk, Io::Stderr(b"oops".to_vec()));
        }
        _ => panic!("a read of four bytes is a chunk"),
    }
}

#[test]
fn chunk_drops_the_rest_of_the_buffer() {
    match after_read(Stream::Stdout, vec![1, 2, 3, 4, 5, 6], Ok(2)) {
        ReaderAction::Publish(Ok(ProcessData::Data(chunk))) => {
            assert_eq!(chunk, Io::Stdout(vec![1, 2]));
        }
        _ => panic!("a read of two bytes is a chunk"),
    }
}

#[test]
fn read_of_a_full_buffer_is_one_chunk_of_capacity() {
    let mut buf = new_buffer();
    for byte in buf.iter_mut() {
        *byte = 0x61;
    }
    match after_read(Stream::Stdout, buf, Ok(CAPACITY)) {
        ReaderAction::Publish(Ok(ProcessData::Data(chunk))) => {
            assert_eq!(chunk.into_inner(), vec![0x61u8; 4096]);
        }
        _ => panic!("a full read is a chunk"),
    }
}

#[test]
fn count_beyond_the_buffer_keeps_the_whole_buffer() {
    match after_read(Stream::Stdout, vec![7, 8, 9], Ok(10)) {
        ReaderAction::Publish(Ok(ProcessData::Data(chunk))) => {
            assert_eq!(chunk, Io::Stdout(vec![7, 8, 9]));
        }
        _ => panic!("the buffer is the chunk"),
    }
}

#[test]
fn read_of_no_bytes_is_the_end_of_the_stream() {
    assert!(matches!(after_read(Stream::Stdout, new_buffer(), Ok(0)), ReaderAction::Stop));
    assert!(matches!(after_read(Stream::Stderr, new_buffer(), Ok(0)), ReaderAction::Stop));
}

#[test]
fn read_into_an_empty_buffer_is_the_end_of_the_stream() {
    assert!(matches!(after_read(Stream::Stdout, Vec::new(), Ok(3)), ReaderAction::Stop));
}

#[test]
fn failed_read_is_published_as_that_streams_error() {
    let failure = std::io::Error::from_raw_os_error(5);
    match after_read(Stream::Stderr, new_buffer(), Err(failure)) {
        ReaderAction::PublishAndStop(Err(ProcessError::Io(Io::Stderr(error)))) => {
            assert_eq!(error.raw_os_error(), Some(5));
        }
        _ => panic!("a failed read of stderr is a stderr error"),
    }
    let failure = std::io::Error::from_raw_os_error(9);
    match after_read(Stream::Stdout, new_buffer(), Err(failure)) {
        ReaderAction::PublishAndStop(Err(ProcessError::Io(Io::Stdout(error)))) => {
            assert_eq!(error.raw_os_error(), Some(9));
        }
        _ => panic!("a failed read of stdout is a stdout error"),
    }
}

#[test]
fn forward_read_publishes_the_chunk_and_reads_on() {
    let (tx, mut output) = ProcessOutputIterator::channel();
    let mut out = Publisher::new(tx);
    assert!(forward_read(&mut out, Stream::Stdout, buffer_with(b"abc"), Ok(3)));
    drop(out);
    assert_eq!(output.next().unwrap().unwrap(), Io::Stdout(b"abc".to_vec()));
    assert!(output.next().is_none());
}

#[test]
fn forward_read_stops_at_the_end_of_the_stream_without_publishing() {
    let (tx, mut output) = ProcessOutputIterator::channel();
    let mut out = Publisher::new(tx);
    assert!(!forward_read(&mut out, Stream::Stdout, new_buffer(), Ok(0)));
    drop(out);
    assert!(output.next().is_none());
    assert_eq!(output.exit_status(), None);
}

#[test]
fn forward_read_publishes_one_error_and_stops() {
    let (tx, mut output) = ProcessOutputIterator::channel();
    let mut out = Publisher::new(tx);
    let failure = std::io::Error::from_raw_os_error(5);
    assert!(!forward_read(&mut out, Stream::Stderr, new_buffer(), Err(failure)));
    drop(out);
    match output.next() {
        Some(Err(ProcessError::Io(Io::Stderr(error)))) => assert_eq!(error.raw_os_error(), Some(5)),
        _ => panic!("the error is handed out"),
    }
    assert!(output.next().is_none());
}

#[test]
fn forward_read_stops_when_the_consumer_is_gone() {
    let (tx, output) = ProcessOutputIterator::channel();
    let mut out = Publisher::new(tx);
    assert!(forward_read(&mut out, Stream::Stdout, buffer_with(b"first"), Ok(5)));
    drop(output);
    assert!(!forward_read(&mut out, Stream::Stdout, buffer_with(b"second"), Ok(6)));
}

#[test]
fn publish_tells_whether_the_consumer_is_there() {
    let (tx, output) = ProcessOutputIterator::channel();
    let mut out = Publisher::new(tx);
    assert!(out.publish(Ok(ProcessData::Exit(ExitStatus::Code(0)))));
    drop(output);
    assert!(!out.publish(Err(ProcessError::Timeout)));
}

#[test]
fn exit_event_of_an_exit_status() {
    let event = exit_event(Ok(Some(ExitStatus::Code(3))));
    assert_eq!(event.unwrap(), ProcessData::Exit(ExitStatus::Code(3)));
    let event = exit_event(Ok(Some(ExitStatus::Signal(9))));
    assert_eq!(event.unwrap(), ProcessData::Exit(ExitStatus::Signal(9)));
}

#[test]
fn exit_event_of_a_wait_without_status_is_the_timeout() {
    assert!(matches!(exit_event(Ok(None)), Err(ProcessError::Timeout)));
}

#[test]
fn exit_event_of_a_failed_wait_carries_the_error() {
    match exit_event(Err(std::io::Error::from_raw_os_error(10))) {
        Err(ProcessError::Exit(error)) => assert_eq!(error.raw_os_error(), Some(10)),
        _ => panic!("a failed wait is an exit error"),
    }
}

#[test]
fn report_exit_publishes_exactly_one_event() {
    let (tx, mut output) = ProcessOutputIterator::channel();
    let mut out = Publisher::new(tx);
    assert!(report_exit(&mut out, Ok(None)));
    drop(out);
    assert!(matches!(output.next(), Some(Err(ProcessError::Timeout))));
    assert!(output.next().is_none());
    assert_eq!(output.exit_status(), None);
}

#[test]
fn report_exit_tells_when_the_consumer_is_gone() {
    let (tx, output) = ProcessOutputIterator::channel();
    let mut out = Publisher::new(tx);
    drop(output);
    assert!(!report_exit(&mut out, Ok(Some(ExitStatus::Code(0)))));
}

#[test]
fn poll_interval_is_ten_milliseconds() {
    assert_eq!(POLL_INTERVAL, 10_000_000);
}

#[test]
fn poll_step_pauses_for_the_interval_far_from_the_deadline() {
    assert!(matches!(poll_step(1_000_000_000, 0, Ok(None)), WaitStep::Sleep(10_000_000)));
    assert!(matches!(
        poll_step(1_000_000_000, 500_000_000, Ok(None)),
        WaitStep::Sleep(10_000_000)
    ));
    assert!(matches!(
        poll_step(1_000_000_000, 990_000_000, Ok(None)),
        WaitStep::Sleep(10_000_000)
    ));
}

#[test]
fn poll_step_cuts_the_last_pause_at_the_deadline() {
    assert!(matches!(
        poll_step(1_000_000_000, 995_000_000, Ok(None)),
        WaitStep::Sleep(5_000_000)
    ));
    assert!(matches!(poll_step(1_000_000_000, 999_999_999, Ok(None)), WaitStep::Sleep(1)));
    assert!(matches!(poll_step(3, 0, Ok(None)), WaitStep::Sleep(3)));
}

#[test]
fn poll_step_times_out_at_the_deadline() {
    assert!(matches!(
        poll_step(1_000_000_000, 1_000_000_000, Ok(None)),
        WaitStep::Done(Ok(None))
    ));
    assert!(matches!(
        poll_step(1_000_000_000, 5_000_000_000, Ok(None)),
        WaitStep::Done(Ok(None))
    ));
    assert!(matches!(poll_step(0, 0, Ok(None)), WaitStep::Done(Ok(None))));
}

#[test]
fn poll_step_with_the_longest_timeout_never_overflows() {
    assert!(matches!(poll_step(u64::MAX, 0, Ok(None)), WaitStep::Sleep(10_000_000)));
    assert!(matches!(poll_step(u64::MAX, u64::MAX - 1, Ok(None)), WaitStep::Sleep(1)));
    assert!(matches!(poll_step(u64::MAX, u64::MAX, Ok(None)), WaitStep::Done(Ok(None))));
}

#[test]
fn poll_step_ends_with_the_exit_status() {
    assert!(matches!(
        poll_step(1_000_000_000, 20_000_000, Ok(Some(ExitStatus::Code(7)))),
        WaitStep::Done(Ok(Some(ExitStatus::Code(7))))
    ));
}

#[test]
fn poll_step_prefers_an_exit_to_a_timeout() {
    assert!(matches!(
        poll_step(1_000_000_000, 2_000_000_000, Ok(Some(ExitStatus::Code(0)))),
        WaitStep::Done(Ok(Some(ExitStatus::Code(0))))
    ));
}

#[test]
fn poll_step_ends_with_the_error_of_the_wait() {
    match poll_step(1_000_000_000, 0, Err(std::io::Error::from_raw_os_error(10))) {
        WaitStep::Done(Err(error)) => assert_eq!(error.raw_os_error(), Some(10)),
        _ => panic!("a failed wait ends the wait"),
    }
}

#[test]
fn bounded_wait_of_a_second_ends_in_a_timeout_after_a_hundred_pauses() {
    let timeout: u64 = 1_000_000_000;
    let mut elapsed: u64 = 0;
    let mut pauses: u32 = 0;
    loop {
        match poll_step(timeout, elapsed, Ok(None)) {
            WaitStep::Sleep(pause) => {
                assert!(pause > 0);
                elapsed += pause;
                pauses += 1;
            }
            WaitStep::Done(result) => {
                assert!(matches!(result, Ok(None)));
                break;
            }
        }
    }
    assert_eq!(pauses, 100);
    assert_eq!(elapsed, timeout);
}
