use process_output::event::{Io, ProcessError, Stream};
use process_output::status::ExitStatus;
use process_output::waiter::{classify_wait, WaitReturn};

#[test]
fn wait_status_of_a_clean_exit() {
    assert_eq!(ExitStatus::from_wait_status(0), Some(ExitStatus::Code(0)));
}

#[test]
fn wait_status_keeps_the_exit_code() {
    assert_eq!(ExitStatus::from_wait_status(0x0100), Some(ExitStatus::Code(1)));
    assert_eq!(ExitStatus::from_wait_status(0x2a00), Some(ExitStatus::Code(42)));
    assert_eq!(ExitStatus::from_wait_status(0xff00), Some(ExitStatus::Code(255)));
}

#[test]
fn wait_status_of_every_exit_code() {
    let mut code: i32 = 0;
    while code <= 255 {
        assert_eq!(ExitStatus::from_wait_status(code << 8), Some(ExitStatus::Code(code)));
        code += 1;
    }
}

#[test]
fn wait_status_of_a_signal() {
    assert_eq!(ExitStatus::from_wait_status(9), Some(ExitStatus::Signal(9)));
    assert_eq!(ExitStatus::from_wait_status(15), Some(ExitStatus::Signal(15)));
}

#[test]
fn wait_status_of_a_signal_with_core_dump() {
    assert_eq!(ExitStatus::from_wait_status(0x8b), Some(ExitStatus::Signal(11)));
}

#[test]
fn wait_status_of_every_signal() {
    let mut signal: i32 = 1;
    while signal <= 126 {
        assert_eq!(ExitStatus::from_wait_status(signal), Some(ExitStatus::Signal(signal)));
        assert_eq!(ExitStatus::from_wait_status(signal | 0x80), Some(ExitStatus::Signal(signal)));
        signal += 1;
    }
}

#[test]
fn wait_status_of_a_stopped_child_is_no_outcome() {
    assert_eq!(ExitStatus::from_wait_status(0x137f), None);
    assert_eq!(ExitStatus::from_wait_status(0x7f), None);
}

#[test]
fn wait_status_differs_from_its_raw_word() {
    // The status word 256 stands for exit code 1, not for 256.
    assert_ne!(ExitStatus::from_wait_status(256), Some(ExitStatus::Code(256)));
    assert_eq!(ExitStatus::from_wait_status(256).unwrap().code(), Some(1));
}

#[test]
fn success_is_exit_code_zero_only() {
    assert!(ExitStatus::Code(0).success());
    assert!(!ExitStatus::Code(1).success());
    assert!(!ExitStatus::Code(-1).success());
    assert!(!ExitStatus::Signal(0).success());
    assert!(!ExitStatus::Signal(9).success());
}

#[test]
fn code_and_signal_tell_the_two_outcomes_apart() {
    assert_eq!(ExitStatus::Code(3).code(), Some(3));
    assert_eq!(ExitStatus::Code(3).signal(), None);
    assert_eq!(ExitStatus::Signal(9).code(), None);
    assert_eq!(ExitStatus::Signal(9).signal(), Some(9));
}

#[test]
fn classify_wait_failure() {
    assert_eq!(classify_wait(-1, 0), WaitReturn::Failed);
    assert_eq!(classify_wait(-1, 0x0100), WaitReturn::Failed);
    assert_eq!(classify_wait(i32::MIN, 0), WaitReturn::Failed);
}

#[test]
fn classify_wait_still_running() {
    assert_eq!(classify_wait(0, 0), WaitReturn::Running);
    assert_eq!(classify_wait(0, 0x0100), WaitReturn::Running);
}

#[test]
fn classify_wait_ended() {
    assert_eq!(classify_wait(4242, 0), WaitReturn::Ended(ExitStatus::Code(0)));
    assert_eq!(classify_wait(4242, 0x0300), WaitReturn::Ended(ExitStatus::Code(3)));
    assert_eq!(classify_wait(4242, 2), WaitReturn::Ended(ExitStatus::Signal(2)));
}

#[test]
fn classify_wait_stopped_child_keeps_running() {
    assert_eq!(classify_wait(4242, 0x137f), WaitReturn::Running);
}

#[test]
fn error_text_names_the_stream() {
    let out = ProcessError::Io(Io::Stdout(std::io::Error::from_raw_os_error(5)));
    let err = ProcessError::Io(Io::Stderr(std::io::Error::from_raw_os_error(5)));
    assert_eq!(out.to_string(), "stdout error");
    assert_eq!(err.to_string(), "stderr error");
}

#[test]
fn error_text_of_wait_failure_and_timeout() {
    let exit = ProcessError::Exit(std::io::Error::from_raw_os_error(10));
    assert_eq!(exit.to_string(), "exit error");
    assert_eq!(ProcessError::Timeout.to_string(), "timeout");
}

#[test]
fn error_description_is_the_same_for_all() {
    let exit = ProcessError::Exit(std::io::Error::from_raw_os_error(10));
    assert_eq!(exit.description(), "Process error occurred");
    assert_eq!(ProcessError::Timeout.description(), "Process error occurred");
}

#[test]
fn tagged_value_keeps_tag_and_value() {
    let out = Io::tagged(Stream::Stdout, 7u8);
    let err = Io::tagged(Stream::Stderr, 8u8);
    assert_eq!(out, Io::Stdout(7u8));
    assert_eq!(err, Io::Stderr(8u8));
    assert_eq!(out.stream(), Stream::Stdout);
    assert_eq!(err.stream(), Stream::Stderr);
    assert_eq!(out.into_inner(), 7u8);
    assert_eq!(err.into_inner(), 8u8);
}
