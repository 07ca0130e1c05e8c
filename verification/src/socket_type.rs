//! The messaging patterns, their protocol identifiers and the pairing rule.

use vstd::prelude::*;

verus! {

/// Protocol identifier of PAIR.
pub const PAIR: u16 = 16;

/// Protocol identifier of PUB.
pub const PUB: u16 = 32;

/// Protocol identifier of SUB.
pub const SUB: u16 = 33;

/// Protocol identifier of REQ.
pub const REQ: u16 = 48;

/// Protocol identifier of REP.
pub const REP: u16 = 49;

/// Protocol identifier of PUSH.
pub const PUSH: u16 = 80;

/// Protocol identifier of PULL.
pub const PULL: u16 = 81;

/// Protocol identifier of SURVEYOR.
pub const SURVEYOR: u16 = 98;

/// Protocol identifier of RESPONDENT.
pub const RESPONDENT: u16 = 99;

/// Protocol identifier of BUS.
pub const BUS: u16 = 112;

/// The pattern that a socket speaks.
#[derive(Debug, PartialEq, Eq, Clone, Copy, Structural)]
pub enum SocketType {
    Pair,
    Pub,
    Sub,
    Req,
    Rep,
    Push,
    Pull,
    Surveyor,
    Respondent,
    Bus,
}

impl SocketType {
    /// The identifier that the pattern announces in its handshake.
    pub open spec fn spec_id(&self) -> u16 {
        match *self {
            SocketType::Pair => PAIR,
            SocketType::Pub => PUB,
            SocketType::Sub => SUB,
            SocketType::Req => REQ,
            SocketType::Rep => REP,
            SocketType::Push => PUSH,
            SocketType::Pull => PULL,
            SocketType::Surveyor => SURVEYOR,
            SocketType::Respondent => RESPONDENT,
            SocketType::Bus => BUS,
        }
    }

    /// The pattern at the other end of a connection.
    pub open spec fn spec_peer(&self) -> SocketType {
        match *self {
            SocketType::Pair => SocketType::Pair,
            SocketType::Pub => SocketType::Sub,
            SocketType::Sub => SocketType::Pub,
            SocketType::Req => SocketType::Rep,
            SocketType::Rep => SocketType::Req,
            SocketType::Push => SocketType::Pull,
            SocketType::Pull => SocketType::Push,
            SocketType::Surveyor => SocketType::Respondent,
            SocketType::Respondent => SocketType::Surveyor,
            SocketType::Bus => SocketType::Bus,
        }
    }

    /// The protocol identifier of the pattern.
    #[verifier::when_used_as_spec(spec_id)]
    pub fn id(&self) -> (id: u16)
        ensures
            id == self.spec_id(),
    {
        match *self {
            SocketType::Pair => PAIR,
            SocketType::Pub => PUB,
            SocketType::Sub => SUB,
            SocketType::Req => REQ,
            SocketType::Rep => REP,
            SocketType::Push => PUSH,
            SocketType::Pull => PULL,
            SocketType::Surveyor => SURVEYOR,
            SocketType::Respondent => RESPONDENT,
            SocketType::Bus => BUS,
        }
    }

    /// The pattern that this one talks to.
    #[verifier::when_used_as_spec(spec_peer)]
    pub fn peer(&self) -> (peer: SocketType)
        ensures
            peer == self.spec_peer(),
    {
        match *self {
            SocketType::Pair => SocketType::Pair,
            SocketType::Pub => SocketType::Sub,
            SocketType::Sub => SocketType::Pub,
            SocketType::Req => SocketType::Rep,
            SocketType::Rep => SocketType::Req,
            SocketType::Push => SocketType::Pull,
            SocketType::Pull => SocketType::Push,
            SocketType::Surveyor => SocketType::Respondent,
            SocketType::Respondent => SocketType::Surveyor,
            SocketType::Bus => SocketType::Bus,
        }
    }

    /// Two patterns can be connected when each is the other's peer.
    pub fn matches(&self, other: SocketType) -> (ok: bool)
        ensures
            ok <==> self.spec_peer() == other && other.spec_peer() == *self,
            ok <==> self.spec_peer() == other,
    {
        self.peer() == other && other.peer() == *self
    }

    /// Taking the peer twice leads back, so pairing is symmetric; and no two
    /// patterns share an identifier.
    pub proof fn lemma_pairing(a: SocketType, b: SocketType)
        ensures
            a.spec_peer().spec_peer() == a,
            a.spec_peer() == b <==> b.spec_peer() == a,
            a.spec_id() == b.spec_id() ==> a == b,
    {
    }
}

} // verus!
