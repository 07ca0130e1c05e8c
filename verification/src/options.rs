//! The options of a socket.

use vstd::prelude::*;

verus! {

/// An option that the user sets on a socket.
#[derive(Debug, PartialEq, Eq, Clone)]
pub enum SocketOption {
    /// How long a send may take, in milliseconds; `None` for no limit.
    SendTimeout(Option<u64>),
    /// How long a receive may take, in milliseconds; `None` for no limit.
    RecvTimeout(Option<u64>),
    /// The send priority of the endpoints made from now on.
    SendPriority(u8),
    /// The receive priority of the endpoints made from now on.
    RecvPriority(u8),
    /// Whether the endpoints made from now on send small packets at once.
    TcpNoDelay(bool),
    /// The largest message that the endpoints made from now on accept.
    RecvMaxSize(u64),
    /// SUB: accept the messages whose body starts with these bytes.
    Subscribe(Vec<u8>),
    /// SUB: take a subscription back.
    Unsubscribe(Vec<u8>),
}

} // verus!
