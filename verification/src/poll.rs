//! Polling a socket for readiness.

use vstd::prelude::*;
use crate::ids::SocketId;

verus! {

/// Request for socket polling: tells whether the poll should wait for the
/// socket to become readable or writable.
#[derive(Debug, PartialEq, Eq, Clone, Copy, Structural)]
pub struct PollReq {
    pub sid: SocketId,
    pub recv: bool,
    pub send: bool,
}

/// Result of a socket polling: tells whether the socket is readable or
/// writable.
#[derive(Debug, PartialEq, Eq, Clone, Copy, Structural)]
pub struct PollRes {
    pub recv: bool,
    pub send: bool,
}

} // verus!
