//! What a socket records of an endpoint: the address it was given and how its
//! pipes are to be treated.

use vstd::prelude::*;
use crate::ids::EndpointId;
use crate::prio_state::valid_priority;

verus! {

/// How the pipes of an endpoint are to be treated.
#[derive(Debug, PartialEq, Eq, Clone, Copy, Structural)]
pub struct EndpointDesc {
    pub send_priority: u8,
    pub recv_priority: u8,
    pub tcp_no_delay: bool,
    pub recv_max_size: u64,
}

impl EndpointDesc {
    /// Both priorities lie between 1 and 16.
    pub open spec fn wf(self) -> bool {
        valid_priority(self.send_priority) && valid_priority(self.recv_priority)
    }
}

/// An endpoint as the user asked for it.
#[derive(Debug, PartialEq, Eq, Clone)]
pub struct EndpointSpec {
    pub url: String,
    pub desc: EndpointDesc,
}

/// An endpoint together with the protocol identifiers of both ends: first
/// the one that the socket announces, then the one it expects.
#[derive(Debug, PartialEq, Eq)]
pub struct EndpointTmpl {
    pub pids: (u16, u16),
    pub spec: EndpointSpec,
}

/// The first delay before an endpoint is opened again, in milliseconds.
pub const INITIAL_BACKOFF: u64 = 100;

/// The longest delay before an endpoint is opened again, in milliseconds.
pub const MAX_BACKOFF: u64 = 10_000;

/// The delay that follows `delay`: twice as long, but no longer than ten
/// seconds.
pub open spec fn next_delay(delay: u64) -> u64 {
    if 2 * delay >= MAX_BACKOFF {
        MAX_BACKOFF
    } else {
        (2 * delay) as u64
    }
}

/// The delay after `failures` failures in a row.
pub open spec fn nth_delay(failures: nat) -> u64
    decreases failures,
{
    if failures == 0 {
        INITIAL_BACKOFF
    } else {
        next_delay(nth_delay((failures - 1) as nat))
    }
}

/// The delays start at 100 ms, never shrink and never pass ten seconds; from
/// the eighth failure on they are ten seconds.
pub proof fn lemma_nth_delay(failures: nat)
    ensures
        INITIAL_BACKOFF <= nth_delay(failures) <= MAX_BACKOFF,
        nth_delay(failures) <= nth_delay(failures + 1),
        failures >= 7 ==> nth_delay(failures) == MAX_BACKOFF,
        failures < 6 ==> nth_delay(failures + 1) == 2 * nth_delay(failures),
    decreases failures,
{
    reveal_with_fuel(nth_delay, 9);
    if failures > 7 {
        lemma_nth_delay((failures - 1) as nat);
    }
}

/// How long an endpoint waits before it is opened again: 100 ms after the
/// first failure, twice as long after each further one, ten seconds at most;
/// and 100 ms again once a connection has succeeded.
#[derive(Debug, PartialEq, Eq, Clone, Copy, Structural)]
pub struct Backoff {
    pub delay: u64,
}

impl Backoff {
    /// The delay lies between 100 ms and ten seconds.
    pub open spec fn wf(&self) -> bool {
        INITIAL_BACKOFF <= self.delay <= MAX_BACKOFF
    }

    /// The backoff of an endpoint that has not failed.
    pub fn new() -> (backoff: Backoff)
        ensures
            backoff.delay == nth_delay(0),
            backoff.wf(),
    {
        Backoff { delay: INITIAL_BACKOFF }
    }

    /// The endpoint has failed: the delay to wait now, in milliseconds. The
    /// next one will be twice as long.
    pub fn failed(&mut self) -> (delay: u64)
        requires
            old(self).wf(),
        ensures
            delay == old(self).delay,
            final(self).delay == next_delay(old(self).delay),
            final(self).wf(),
    {
        let delay = self.delay;
        self.delay = if delay >= MAX_BACKOFF / 2 {
            MAX_BACKOFF
        } else {
            2 * delay
        };
        delay
    }

    /// The endpoint has succeeded: the next delay is the first one again.
    pub fn succeeded(&mut self)
        ensures
            final(self).delay == nth_delay(0),
            final(self).wf(),
    {
        self.delay = INITIAL_BACKOFF;
    }
}

/// Whether an endpoint connects or listens.
#[derive(Debug, PartialEq, Eq, Clone, Copy, Structural)]
pub enum EndpointKind {
    /// The client side: opens a connection to the address.
    Connector,
    /// The server side: accepts connections on the address.
    Acceptor,
}

/// An endpoint as a socket records it.
#[derive(Debug, PartialEq, Eq, Clone)]
pub struct Endpoint {
    pub eid: EndpointId,
    pub kind: EndpointKind,
    pub url: String,
    pub desc: EndpointDesc,
    pub backoff: Backoff,
}

impl Endpoint {
    /// Priorities and delay are in range.
    pub open spec fn wf(&self) -> bool {
        self.desc.wf() && self.backoff.wf()
    }
}

} // verus!
