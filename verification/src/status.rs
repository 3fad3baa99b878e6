//! How a child process ended, and reading that from a raw wait status.

use vstd::prelude::*;

verus! {

/// The outcome of a terminated process.
#[derive(Debug, Clone, Copy, PartialEq, Eq, Structural)]
pub enum ExitStatus {
    /// The process exited by itself with this code.
    Code(i32),
    /// The process was terminated by this signal.
    Signal(i32),
}

/// The low seven bits of a wait status: zero for a process that exited,
/// `0x7f` for one that is stopped, otherwise the signal that terminated it.
pub open spec fn termination_bits(status: i32) -> i32 {
    status & 0x7f
}

/// The eight bits of a wait status that hold the exit code.
pub open spec fn exit_code_bits(status: i32) -> i32 {
    (status >> 8) & 0xff
}

/// The outcome that a raw wait status stands for; `None` where the status
/// reports a process that has not terminated.
pub open spec fn decode_wait_status(status: i32) -> Option<ExitStatus> {
    if termination_bits(status) == 0 {
        Some(ExitStatus::Code(exit_code_bits(status)))
    } else if termination_bits(status) != 0x7f {
        Some(ExitStatus::Signal(termination_bits(status)))
    } else {
        None
    }
}

/// `libc::WIFEXITED`, which on Linux computes `(status & 0x7f) == 0`: true exactly
/// when the low seven bits of the status are zero.
#[verifier::external_body]
fn wait_status_exited(status: i32) -> (exited: bool)
    ensures
        exited == (termination_bits(status) == 0),
{
    libc::WIFEXITED(status)
}

/// `libc::WEXITSTATUS`, which on Linux computes `(status >> 8) & 0xff`: bits 8 to 15
/// of the status.
#[verifier::external_body]
fn wait_status_exit_code(status: i32) -> (code: i32)
    ensures
        code == exit_code_bits(status),
{
    libc::WEXITSTATUS(status)
}

/// `libc::WIFSIGNALED`, which on Linux computes `((status & 0x7f) + 1) as i8 >= 2`.
/// The low seven bits are between 0 and 127; one more than them, read as a
/// signed byte, is at least 2 for all of them but 0 (which gives 1) and 127
/// (which gives -128). So the call is true exactly when the low seven bits
/// are neither zero (exited) nor `0x7f` (stopped).
#[verifier::external_body]
fn wait_status_signaled(status: i32) -> (signaled: bool)
    ensures
        signaled == (termination_bits(status) != 0 && termination_bits(status) != 0x7f),
{
    libc::WIFSIGNALED(status)
}

/// `libc::WTERMSIG`, which on Linux computes `status & 0x7f`: the low seven bits of
/// the status.
#[verifier::external_body]
fn wait_status_signal(status: i32) -> (signal: i32)
    ensures
        signal == termination_bits(status),
{
    libc::WTERMSIG(status)
}

impl ExitStatus {
    /// Whether the process exited with code zero.
    pub open spec fn is_success(self) -> bool {
        self == ExitStatus::Code(0)
    }

    /// Reads the outcome out of the status word that the operating system's
    /// wait call filled in. `None` for a status that does not report a
    /// termination (a stopped process).
    pub fn from_wait_status(status: i32) -> (outcome: Option<ExitStatus>)
        ensures
            outcome == decode_wait_status(status),
            outcome matches Some(ExitStatus::Code(code)) ==> 0 <= code <= 255,
            outcome matches Some(ExitStatus::Signal(signal)) ==> 1 <= signal <= 126,
    {
        proof {
            lemma_wait_status_ranges(status);
        }
        if wait_status_exited(status) {
            Some(ExitStatus::Code(wait_status_exit_code(status)))
        } else if wait_status_signaled(status) {
            Some(ExitStatus::Signal(wait_status_signal(status)))
        } else {
            None
        }
    }

    /// True exactly for an exit with code zero.
    pub fn success(&self) -> (ok: bool)
        ensures
            ok == self.is_success(),
    {
        match self {
            ExitStatus::Code(code) => *code == 0,
            ExitStatus::Signal(_) => false,
        }
    }

    /// The exit code, if the process exited by itself.
    pub fn code(&self) -> (code: Option<i32>)
        ensures
            code == (match *self {
                ExitStatus::Code(c) => Some(c),
                ExitStatus::Signal(_) => None,
            }),
    {
        match self {
            ExitStatus::Code(c) => Some(*c),
            ExitStatus::Signal(_) => None,
        }
    }

    /// The signal that terminated the process, if one did.
    pub fn signal(&self) -> (signal: Option<i32>)
        ensures
            signal == (match *self {
                ExitStatus::Code(_) => None,
                ExitStatus::Signal(s) => Some(s),
            }),
    {
        match self {
            ExitStatus::Code(_) => None,
            ExitStatus::Signal(s) => Some(*s),
        }
    }
}

/// The fields of a wait status stay within their bit widths.
pub proof fn lemma_wait_status_ranges(status: i32)
    ensures
        0 <= termination_bits(status) <= 0x7f,
        0 <= exit_code_bits(status) <= 0xff,
{
    assert(0 <= (status & 0x7f) <= 0x7f) by (bit_vector);
    assert(0 <= ((status >> 8) & 0xff) <= 0xff) by (bit_vector);
}

/// A process that exits with a code between 0 and 255 is reported with
/// exactly that code.
pub proof fn lemma_exit_code_roundtrip(code: i32)
    requires
        0 <= code <= 255,
    ensures
        decode_wait_status(code << 8) == Some(ExitStatus::Code(code)),
{
    assert(0 <= code <= 255 ==> ((code << 8) & 0x7f) == 0 && (((code << 8) >> 8) & 0xff) == code)
        by (bit_vector);
}

/// A process terminated by a signal between 1 and 126 is reported with
/// exactly that signal, whatever its core-dump flag.
pub proof fn lemma_signal_roundtrip(signal: i32, core: bool)
    requires
        1 <= signal <= 126,
    ensures
        decode_wait_status(if core { signal | 0x80 } else { signal }) == Some(
            ExitStatus::Signal(signal),
        ),
{
    assert(1 <= signal <= 126 ==> ((signal | 0x80) & 0x7f) == signal && (signal & 0x7f) == signal)
        by (bit_vector);
}

} // verus!
