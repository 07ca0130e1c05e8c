//! A pipe as a protocol sees it: the endpoint that it belongs to and the
//! priorities that it was given.

use vstd::prelude::*;
use crate::endpoint::EndpointDesc;
use crate::ids::EndpointId;
use crate::prio_state::valid_priority;

verus! {

/// The handle of a pipe.
#[derive(Debug, PartialEq, Eq, Clone, Copy, Structural)]
pub struct Pipe {
    pub eid: EndpointId,
    pub send_priority: u8,
    pub recv_priority: u8,
}

impl Pipe {
    /// Both priorities lie between 1 and 16.
    pub open spec fn wf(&self) -> bool {
        valid_priority(self.send_priority) && valid_priority(self.recv_priority)
    }

    /// The handle of the pipe of `eid`, with the priorities of `desc`.
    pub fn new(eid: EndpointId, desc: &EndpointDesc) -> (pipe: Pipe)
        ensures
            pipe == (Pipe {
                eid,
                send_priority: desc.send_priority,
                recv_priority: desc.recv_priority,
            }),
            desc.wf() ==> pipe.wf(),
    {
        Pipe { eid, send_priority: desc.send_priority, recv_priority: desc.recv_priority }
    }

    /// The priority of the pipe among those that can send.
    pub fn get_send_priority(&self) -> (priority: u8)
        ensures
            priority == self.send_priority,
    {
        self.send_priority
    }

    /// The priority of the pipe among those that can receive.
    pub fn get_recv_priority(&self) -> (priority: u8)
        ensures
            priority == self.recv_priority,
    {
        self.recv_priority
    }
}

} // verus!
