//! Opaque numeric identifiers for endpoints, sockets, devices, probes and
//! scheduled timers. Two identifiers are equal exactly when their numbers are.

use vstd::prelude::*;
use vstd::std_specs::convert::FromSpecImpl;

verus! {

/// Handle of a timer that was scheduled on the reactor.
#[derive(Copy, Clone, Debug, PartialEq, Eq, Hash, Structural)]
pub struct Scheduled(pub usize);

/// Identifies one endpoint, and the pipe that the endpoint produced.
#[derive(Copy, Clone, Debug, PartialEq, Eq, Hash, Structural)]
pub struct EndpointId(pub usize);

/// Identifies one socket of a session.
#[derive(Copy, Clone, Debug, PartialEq, Eq, Hash, Structural)]
pub struct SocketId(pub usize);

/// Identifies one device of a session.
#[derive(Copy, Clone, Debug, PartialEq, Eq, Hash, Structural)]
pub struct DeviceId(usize);

/// Identifies one probe of a session.
#[derive(Copy, Clone, Debug, PartialEq, Eq, Hash, Structural)]
pub struct ProbeId(pub usize);

impl EndpointId {
    /// The number behind the identifier.
    pub open spec fn value(self) -> usize {
        self.0
    }
}

impl DeviceId {
    /// The number behind the identifier.
    pub closed spec fn value(self) -> usize {
        self.0
    }
}

impl From<usize> for EndpointId {
    fn from(value: usize) -> (id: EndpointId)
        ensures
            id.value() == value,
    {
        EndpointId(value)
    }
}

impl FromSpecImpl<usize> for EndpointId {
    open spec fn obeys_from_spec() -> bool {
        true
    }

    open spec fn from_spec(value: usize) -> EndpointId {
        EndpointId(value)
    }
}

impl From<EndpointId> for usize {
    fn from(id: EndpointId) -> (value: usize)
        ensures
            value == id.value(),
    {
        id.0
    }
}

impl FromSpecImpl<EndpointId> for usize {
    open spec fn obeys_from_spec() -> bool {
        true
    }

    open spec fn from_spec(id: EndpointId) -> usize {
        id.value()
    }
}

impl From<usize> for SocketId {
    fn from(value: usize) -> (id: SocketId)
        ensures
            id.0 == value,
    {
        SocketId(value)
    }
}

impl FromSpecImpl<usize> for SocketId {
    open spec fn obeys_from_spec() -> bool {
        true
    }

    open spec fn from_spec(value: usize) -> SocketId {
        SocketId(value)
    }
}

impl From<usize> for DeviceId {
    fn from(value: usize) -> (id: DeviceId)
        ensures
            id.value() == value,
    {
        DeviceId(value)
    }
}

impl FromSpecImpl<usize> for DeviceId {
    open spec fn obeys_from_spec() -> bool {
        true
    }

    closed spec fn from_spec(value: usize) -> DeviceId {
        DeviceId(value)
    }
}

impl From<usize> for ProbeId {
    fn from(value: usize) -> (id: ProbeId)
        ensures
            id.0 == value,
    {
        ProbeId(value)
    }
}

impl FromSpecImpl<usize> for ProbeId {
    open spec fn obeys_from_spec() -> bool {
        true
    }

    open spec fn from_spec(value: usize) -> ProbeId {
        ProbeId(value)
    }
}

} // verus!
