//! Errors, by kind.

use vstd::prelude::*;

verus! {

/// What went wrong, as far as a caller can act on it.
#[derive(Debug, PartialEq, Eq, Clone, Copy, Structural)]
pub enum ErrorKind {
    /// A malformed address, an option that the protocol does not have, a
    /// pipe that is already there.
    InvalidInput,
    /// A handshake that does not fit, a frame that is too large.
    InvalidData,
    /// An operation while another of its kind is pending; a full channel.
    WouldBlock,
    /// A deadline has passed.
    TimedOut,
    /// A transport failure, or an operation that the protocol does not have.
    Other,
}

/// An error: its kind, and a text for people.
#[derive(Debug, PartialEq, Eq, Clone, Copy)]
pub struct Error {
    pub kind: ErrorKind,
    pub message: &'static str,
}

impl Error {
    /// An error of the given kind.
    pub fn new(kind: ErrorKind, message: &'static str) -> (e: Error)
        ensures
            e.kind == kind,
            e.message == message,
    {
        Error { kind, message }
    }

    /// The kind of the error.
    pub fn kind(&self) -> (kind: ErrorKind)
        ensures
            kind == self.kind,
    {
        self.kind
    }
}

/// An error of kind `Other`.
pub fn other_io_error(msg: &'static str) -> (e: Error)
    ensures
        e == (Error { kind: ErrorKind::Other, message: msg }),
{
    Error::new(ErrorKind::Other, msg)
}

/// An error of kind `InvalidData`.
pub fn invalid_data_io_error(msg: &'static str) -> (e: Error)
    ensures
        e == (Error { kind: ErrorKind::InvalidData, message: msg }),
{
    Error::new(ErrorKind::InvalidData, msg)
}

/// An error of kind `WouldBlock`.
pub fn would_block_io_error(msg: &'static str) -> (e: Error)
    ensures
        e == (Error { kind: ErrorKind::WouldBlock, message: msg }),
{
    Error::new(ErrorKind::WouldBlock, msg)
}

/// An error of kind `InvalidInput`.
pub fn invalid_input_io_error(msg: &'static str) -> (e: Error)
    ensures
        e == (Error { kind: ErrorKind::InvalidInput, message: msg }),
{
    Error::new(ErrorKind::InvalidInput, msg)
}

/// An error of kind `TimedOut`.
pub fn timedout_io_error(msg: &'static str) -> (e: Error)
    ensures
        e == (Error { kind: ErrorKind::TimedOut, message: msg }),
{
    Error::new(ErrorKind::TimedOut, msg)
}

/// Why a command could not be handed to the reactor.
#[derive(Debug, PartialEq, Eq, Clone, Copy)]
pub enum NotifyFailure {
    /// Waking the reactor failed.
    Io(Error),
    /// The command channel is full.
    Full,
    /// The reactor has hung up.
    Closed,
}

/// The error that a caller sees when a command could not be handed over. A
/// failure to wake the reactor is passed on as it is.
pub fn convert_notify_err(err: NotifyFailure) -> (e: Error)
    ensures
        e == match err {
            NotifyFailure::Io(inner) => inner,
            NotifyFailure::Closed => (Error {
                kind: ErrorKind::Other,
                message: "cmd channel closed",
            }),
            NotifyFailure::Full => (Error {
                kind: ErrorKind::WouldBlock,
                message: "cmd channel full",
            }),
        },
{
    match err {
        NotifyFailure::Io(e) => e,
        NotifyFailure::Closed => other_io_error("cmd channel closed"),
        NotifyFailure::Full => would_block_io_error("cmd channel full"),
    }
}

} // verus!
