//! What a pipe needs of its transport.

use std::rc::Rc;
use vstd::prelude::*;
use crate::error::Error;
use crate::message::Message;

verus! {

/// A byte transport that exchanges the handshake and whole messages without
/// ever blocking. An operation that cannot finish at once fails with an error
/// of kind `WouldBlock`, keeps what it has done so far, and is taken up again
/// when the reactor reports the transport ready.
///
/// The pipe promises nothing of what an implementation returns: it is
/// verified for every outcome of every call.
pub trait StepStream {
    /// Writes the handshake that announces the first identifier of `pids`.
    fn send_handshake(&mut self, pids: (u16, u16)) -> Result<(), Error>;

    /// Reads the handshake of the peer and holds it against the second
    /// identifier of `pids`.
    fn recv_handshake(&mut self, pids: (u16, u16)) -> Result<(), Error>;

    /// Starts to write `msg` as one frame.
    fn send(&mut self, msg: Rc<Message>) -> Result<(), Error>;

    /// Goes on writing the frame that `send` has started.
    fn resume_send(&mut self) -> Result<(), Error>;

    /// Reads one frame, or goes on reading the one that was begun.
    fn recv(&mut self) -> Result<Message, Error>;
}

} // verus!
