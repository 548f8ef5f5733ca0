//! The error surface of the session manager: one value-level error type whose
//! kind follows the taxonomy of the design (transport failure, session not
//! found, write failure) and whose message carries the human-readable cause.

use vstd::prelude::*;
use vstd::string::StringExecFns;

verus! {

/// The category of a session-manager failure.
#[derive(Clone, Copy, Debug, PartialEq, Eq, Structural)]
pub enum KernelErrorKind {
    /// The pseudo-terminal transport could not allocate a PTY, start the
    /// child process, or hand out an I/O handle.
    Transport,
    /// An operation named a session identifier that the registry does not hold.
    SessionNotFound,
    /// Bytes could not be delivered to a live session's input stream.
    WriteFailure,
}

/// A recoverable session-manager failure, returned as a value, never thrown.
#[derive(Debug)]
pub struct KernelError {
    pub kind: KernelErrorKind,
    pub message: String,
}

/// The message of a "session not found" failure for the given identifier.
pub open spec fn not_found_text(id: Seq<char>) -> Seq<char> {
    "session not found: "@ + id
}

/// The message of a transport failure with the given underlying cause.
pub open spec fn transport_text(cause: Seq<char>) -> Seq<char> {
    "transport failure: "@ + cause
}

/// The message of a write failure with the given underlying cause.
pub open spec fn write_failure_text(cause: Seq<char>) -> Seq<char> {
    "write failure: "@ + cause
}

impl KernelError {
    /// The failure reported when an operation names an unknown session.
    pub fn session_not_found(id: &String) -> (e: KernelError)
        ensures
            e.kind == KernelErrorKind::SessionNotFound,
            e.message@ == not_found_text(id@),
    {
        let mut message = "session not found: ".to_owned();
        message.append(id.as_str());
        KernelError { kind: KernelErrorKind::SessionNotFound, message }
    }

    /// The failure reported when the pseudo-terminal transport fails.
    pub fn transport_failure(cause: &String) -> (e: KernelError)
        ensures
            e.kind == KernelErrorKind::Transport,
            e.message@ == transport_text(cause@),
    {
        let mut message = "transport failure: ".to_owned();
        message.append(cause.as_str());
        KernelError { kind: KernelErrorKind::Transport, message }
    }

    /// The failure reported when bytes could not be written to a live session.
    pub fn write_failure(cause: &String) -> (e: KernelError)
        ensures
            e.kind == KernelErrorKind::WriteFailure,
            e.message@ == write_failure_text(cause@),
    {
        let mut message = "write failure: ".to_owned();
        message.append(cause.as_str());
        KernelError { kind: KernelErrorKind::WriteFailure, message }
    }
}

} // verus!
