//! The pipe as a mathematical state machine: what each state is, and what
//! each step does to the state and asks of the reactor.

use vstd::prelude::*;
use crate::error::{Error, ErrorKind};
use crate::message::Message;
use crate::transport::context::{raised, PipeCmdView, PipeEvt};
use crate::transport::grammar::{
    after_event,
    after_events,
    fits,
    in_order,
    lemma_after_events_concat,
    rank,
    Phase,
    Progress,
};
use crate::transport::readiness::{readable_in, writable_in, LEVEL, READABLE, WRITABLE};

verus! {

/// The state of a pipe, without its transport.
pub enum PipeView {
    /// Not yet opened. `pids` are the protocol identifiers of this end and of
    /// the peer.
    Initial { pids: (u16, u16) },
    /// Waiting to write the handshake.
    HandshakeTx { pids: (u16, u16) },
    /// Waiting to read the peer's handshake.
    HandshakeRx { pids: (u16, u16) },
    /// Exchanging messages. `sending` tells that a frame is partly written,
    /// `receiving` that a receive was asked for and no frame is complete yet.
    Active { sending: bool, receiving: bool },
    /// Inert.
    Dead,
}

impl PipeView {
    /// Where the pipe stands in its life.
    pub open spec fn phase(self) -> Phase {
        match self {
            PipeView::Initial { .. } => Phase::Initial,
            PipeView::HandshakeTx { .. } => Phase::HandshakeTx,
            PipeView::HandshakeRx { .. } => Phase::HandshakeRx,
            PipeView::Active { .. } => Phase::Active,
            PipeView::Dead => Phase::Dead,
        }
    }
}

/// The outcome of a step: the state that follows, and what the step wrote
/// into the context.
pub struct Step {
    pub next: PipeView,
    pub cmds: Seq<PipeCmdView>,
}

/// The request to poll for readable, level-triggered.
pub open spec fn want_readable() -> PipeCmdView {
    PipeCmdView::Reregister { interest: READABLE, opt: LEVEL }
}

/// The request to poll for readable and writable, level-triggered.
pub open spec fn want_both() -> PipeCmdView {
    PipeCmdView::Reregister { interest: 3, opt: LEVEL }
}

/// A step that changes nothing.
pub open spec fn stay(at: PipeView) -> Step {
    Step { next: at, cmds: Seq::empty() }
}

/// A step that kills the pipe and tells nobody.
pub open spec fn die() -> Step {
    Step { next: PipeView::Dead, cmds: Seq::empty() }
}

/// A step that takes the transport off the reactor, tells the owner that the
/// pipe is closed, and kills the pipe.
pub open spec fn shut() -> Step {
    Step {
        next: PipeView::Dead,
        cmds: seq![PipeCmdView::Deregister, PipeCmdView::Raise(PipeEvt::Closed)],
    }
}

/// `open` on a new pipe: the transport is registered for writing, and the
/// pipe waits to write its handshake.
pub open spec fn opened(pids: (u16, u16)) -> Step {
    Step {
        next: PipeView::HandshakeTx { pids },
        cmds: seq![PipeCmdView::Register { interest: WRITABLE, opt: LEVEL }],
    }
}

/// `close` on a new pipe, whose transport is not registered yet.
pub open spec fn closed_unopened() -> Step {
    Step { next: PipeView::Dead, cmds: seq![PipeCmdView::Raise(PipeEvt::Closed)] }
}

/// After the handshake was written: on success the pipe polls for readable
/// and waits for the peer's handshake; on failure it is shut.
pub open spec fn handshake_sent(pids: (u16, u16), res: Result<(), Error>) -> Step {
    match res {
        Ok(_) => Step { next: PipeView::HandshakeRx { pids }, cmds: seq![want_readable()] },
        Err(_) => shut(),
    }
}

/// After the peer's handshake was read: on success the owner learns that the
/// pipe is open, and the pipe polls for readable; on failure it is shut.
pub open spec fn handshake_received(res: Result<(), Error>) -> Step {
    match res {
        Ok(_) => Step {
            next: PipeView::Active { sending: false, receiving: false },
            cmds: seq![PipeCmdView::Raise(PipeEvt::Opened), want_readable()],
        },
        Err(_) => shut(),
    }
}

/// After the transport has worked on a frame to send. Done: the owner
/// learns of it, and the pipe stops polling for writable if it did. Not yet
/// done: the pipe polls for writable too, if it did not. Failed: the pipe is
/// shut.
pub open spec fn send_progress(sending: bool, receiving: bool, res: Result<(), Error>) -> Step {
    match res {
        Ok(_) => Step {
            next: PipeView::Active { sending: false, receiving },
            cmds: if sending {
                seq![PipeCmdView::Raise(PipeEvt::SentMsg), want_readable()]
            } else {
                seq![PipeCmdView::Raise(PipeEvt::SentMsg)]
            },
        },
        Err(e) => if e.kind == ErrorKind::WouldBlock {
            Step {
                next: PipeView::Active { sending: true, receiving },
                cmds: if sending {
                    Seq::empty()
                } else {
                    seq![want_both()]
                },
            }
        } else {
            shut()
        },
    }
}

/// After the transport has worked on a frame to receive. Complete: the owner
/// gets the message. Not yet complete: the pipe waits for the next readable
/// event. Failed: the pipe is shut.
pub open spec fn recv_progress(sending: bool, res: Result<Message, Error>) -> Step {
    match res {
        Ok(msg) => Step {
            next: PipeView::Active { sending, receiving: false },
            cmds: seq![PipeCmdView::Raise(PipeEvt::RecvMsg(msg))],
        },
        Err(e) => if e.kind == ErrorKind::WouldBlock {
            Step { next: PipeView::Active { sending, receiving: true }, cmds: Seq::empty() }
        } else {
            shut()
        },
    }
}

/// `send` on an active pipe, where `res` is what the transport makes of the
/// message. A second send while one is under way is an error, and shuts the
/// pipe.
pub open spec fn send_step(sending: bool, receiving: bool, res: Result<(), Error>) -> Step {
    if sending {
        shut()
    } else {
        send_progress(false, receiving, res)
    }
}

/// `recv` on an active pipe, where `res` is what the transport has for it.
/// A second receive while one is under way is an error, and shuts the pipe.
pub open spec fn recv_step(sending: bool, receiving: bool, res: Result<Message, Error>) -> Step {
    if receiving {
        shut()
    } else {
        recv_progress(sending, res)
    }
}

/// The writable half of a readiness event on an active pipe: a send under
/// way goes on, with the outcome `res`; without one the owner learns that a
/// send would go through.
pub open spec fn writable_step(sending: bool, receiving: bool, res: Result<(), Error>) -> Step {
    if sending {
        send_progress(true, receiving, res)
    } else {
        Step {
            next: PipeView::Active { sending, receiving },
            cmds: seq![PipeCmdView::Raise(PipeEvt::CanSend)],
        }
    }
}

/// The readable half of a readiness event on an active pipe: a receive
/// under way goes on, with the outcome `res`; without one the owner learns
/// that a receive would go through.
pub open spec fn readable_step(sending: bool, receiving: bool, res: Result<Message, Error>) -> Step {
    if receiving {
        recv_progress(sending, res)
    } else {
        Step {
            next: PipeView::Active { sending, receiving },
            cmds: seq![PipeCmdView::Raise(PipeEvt::CanRecv)],
        }
    }
}

/// One step after another.
pub open spec fn then(first: Step, second: Step) -> Step {
    Step { next: second.next, cmds: first.cmds + second.cmds }
}

/// A readiness event on an active pipe: first the writable half, if the
/// transport is writable, then the readable half, if it is readable and the
/// pipe is still alive.
pub open spec fn ready_step(
    sending: bool,
    receiving: bool,
    bits: usize,
    sent: Result<(), Error>,
    received: Result<Message, Error>,
) -> Step {
    let first = if writable_in(bits) {
        writable_step(sending, receiving, sent)
    } else {
        stay(PipeView::Active { sending, receiving })
    };
    match first.next {
        PipeView::Active { sending: s, receiving: r } => if readable_in(bits) {
            then(first, readable_step(s, r, received))
        } else {
            first
        },
        _ => first,
    }
}

/// A step keeps the order of events.
pub open spec fn step_in_order(before: PipeView, step: Step) -> bool {
    in_order(before.phase(), step.next.phase(), raised(step.cmds))
}

/// The events of a short run of commands.
pub proof fn lemma_raised_short(a: PipeCmdView, b: PipeCmdView)
    ensures
        raised(Seq::<PipeCmdView>::empty()) == Seq::<PipeEvt>::empty(),
        raised(seq![a]) == match a {
            PipeCmdView::Raise(e) => seq![e],
            _ => Seq::<PipeEvt>::empty(),
        },
        raised(seq![b]) == match b {
            PipeCmdView::Raise(e) => seq![e],
            _ => Seq::<PipeEvt>::empty(),
        },
        raised(seq![a, b]) == raised(seq![a]) + raised(seq![b]),
{
    reveal_with_fuel(raised, 3);
    assert(seq![a].drop_last() =~= Seq::<PipeCmdView>::empty());
    assert(seq![a, b].drop_last() =~= seq![a]);
    assert(seq![b].drop_last() =~= Seq::<PipeCmdView>::empty());
    match a {
        PipeCmdView::Raise(e) => {
            assert(raised(seq![a]) =~= seq![e]);
        },
        _ => {
            assert(raised(seq![a]) =~= Seq::<PipeEvt>::empty());
        },
    }
    match b {
        PipeCmdView::Raise(e) => {
            assert(raised(seq![a, b]) =~= raised(seq![a]) + seq![e]);
            assert(raised(seq![b]) =~= seq![e]);
        },
        _ => {
            assert(raised(seq![b]) =~= Seq::<PipeEvt>::empty());
            assert(raised(seq![a, b]) =~= raised(seq![a]) + Seq::<PipeEvt>::empty());
        },
    }
}

/// The events of two runs of commands, one after the other.
pub proof fn lemma_raised_concat(first: Seq<PipeCmdView>, second: Seq<PipeCmdView>)
    ensures
        raised(first + second) == raised(first) + raised(second),
    decreases second.len(),
{
    if second.len() == 0 {
        assert(first + second =~= first);
        assert(raised(first) + raised(second) =~= raised(first));
    } else {
        assert((first + second).drop_last() =~= first + second.drop_last());
        assert((first + second).last() == second.last());
        lemma_raised_concat(first, second.drop_last());
        match second.last() {
            PipeCmdView::Raise(e) => {
                assert(raised(first + second) =~= raised(first) + raised(second));
            },
            _ => {},
        }
    }
}

/// No event, one event and two events, held against the order of events.
pub proof fn lemma_after_events_short(at: Progress, a: PipeEvt, b: PipeEvt)
    ensures
        after_events(at, Seq::<PipeEvt>::empty()) == Some(at),
        after_events(at, seq![a]) == after_event(at, a),
        after_events(at, seq![a, b]) == match after_event(at, a) {
            Some(mid) => after_event(mid, b),
            None => None,
        },
{
    reveal_with_fuel(after_events, 3);
    assert(seq![a].drop_first() =~= Seq::<PipeEvt>::empty());
    assert(seq![a, b].drop_first() =~= seq![b]);
    assert(seq![b].drop_first() =~= Seq::<PipeEvt>::empty());
}

/// Every step of the handshake keeps the order of events.
pub proof fn lemma_handshake_steps_in_order(pids: (u16, u16), res: Result<(), Error>)
    ensures
        step_in_order(PipeView::Initial { pids }, opened(pids)),
        step_in_order(PipeView::Initial { pids }, closed_unopened()),
        step_in_order(PipeView::Initial { pids }, die()),
        step_in_order(PipeView::HandshakeTx { pids }, die()),
        step_in_order(PipeView::HandshakeRx { pids }, die()),
        step_in_order(PipeView::HandshakeTx { pids }, shut()),
        step_in_order(PipeView::HandshakeRx { pids }, shut()),
        step_in_order(PipeView::HandshakeTx { pids }, handshake_sent(pids, res)),
        step_in_order(PipeView::HandshakeRx { pids }, handshake_received(res)),
        step_in_order(PipeView::Initial { pids }, stay(PipeView::Initial { pids })),
        step_in_order(PipeView::HandshakeTx { pids }, stay(PipeView::HandshakeTx { pids })),
        step_in_order(PipeView::HandshakeRx { pids }, stay(PipeView::HandshakeRx { pids })),
        step_in_order(PipeView::Dead, stay(PipeView::Dead)),
{
    let reg = PipeCmdView::Register { interest: WRITABLE, opt: LEVEL };
    lemma_raised_short(reg, reg);
    lemma_raised_short(PipeCmdView::Deregister, PipeCmdView::Raise(PipeEvt::Closed));
    lemma_raised_short(PipeCmdView::Raise(PipeEvt::Closed), reg);
    lemma_raised_short(PipeCmdView::Raise(PipeEvt::Opened), want_readable());
    lemma_raised_short(want_readable(), reg);
    assert(Seq::<PipeEvt>::empty() + seq![PipeEvt::Closed] =~= seq![PipeEvt::Closed]);
    assert(seq![PipeEvt::Opened] + Seq::<PipeEvt>::empty() =~= seq![PipeEvt::Opened]);
    assert forall|at: Progress| true implies {
        &&& after_events(at, Seq::<PipeEvt>::empty()) == Some(at)
        &&& after_events(at, seq![PipeEvt::Closed]) == after_event(
            at,
            PipeEvt::Closed,
        )
        &&& after_events(at, seq![PipeEvt::Opened]) == after_event(
            at,
            PipeEvt::Opened,
        )
    } by {
        lemma_after_events_short(at, PipeEvt::Closed, PipeEvt::Closed);
        lemma_after_events_short(at, PipeEvt::Opened, PipeEvt::Closed);
    }
    assert(fits(Phase::Initial, Progress::Fresh));
}

/// Two steps that keep the order of events, one after the other, keep it.
pub proof fn lemma_then_in_order(before: PipeView, first: Step, second: Step)
    requires
        step_in_order(before, first),
        step_in_order(first.next, second),
    ensures
        step_in_order(before, then(first, second)),
{
    lemma_raised_concat(first.cmds, second.cmds);
    assert forall|at: Progress| #[trigger] fits(before.phase(), at) implies match after_events(
        at,
        raised(then(first, second).cmds),
    ) {
        Some(next) => fits(second.next.phase(), next),
        None => false,
    } by {
        lemma_after_events_concat(at, raised(first.cmds), raised(second.cmds));
        let mid = after_events(at, raised(first.cmds))->0;
        assert(fits(first.next.phase(), mid));
    }
}

/// Every step of an active pipe keeps the order of events.
pub proof fn lemma_active_steps_in_order(
    sending: bool,
    receiving: bool,
    bits: usize,
    sent: Result<(), Error>,
    received: Result<Message, Error>,
)
    ensures
        step_in_order(
            PipeView::Active { sending, receiving },
            stay(PipeView::Active { sending, receiving }),
        ),
        step_in_order(PipeView::Active { sending, receiving }, die()),
        step_in_order(PipeView::Active { sending, receiving }, shut()),
        step_in_order(
            PipeView::Active { sending, receiving },
            send_progress(sending, receiving, sent),
        ),
        step_in_order(PipeView::Active { sending, receiving }, recv_progress(sending, received)),
        step_in_order(PipeView::Active { sending, receiving }, send_step(sending, receiving, sent)),
        step_in_order(
            PipeView::Active { sending, receiving },
            recv_step(sending, receiving, received),
        ),
        step_in_order(
            PipeView::Active { sending, receiving },
            writable_step(sending, receiving, sent),
        ),
        step_in_order(
            PipeView::Active { sending, receiving },
            readable_step(sending, receiving, received),
        ),
        step_in_order(
            PipeView::Active { sending, receiving },
            ready_step(sending, receiving, bits, sent, received),
        ),
{
    let here = PipeView::Active { sending, receiving };
    lemma_raised_short(PipeCmdView::Deregister, PipeCmdView::Raise(PipeEvt::Closed));
    lemma_raised_short(PipeCmdView::Raise(PipeEvt::SentMsg), want_readable());
    lemma_raised_short(PipeCmdView::Raise(PipeEvt::CanSend), want_both());
    lemma_raised_short(PipeCmdView::Raise(PipeEvt::CanRecv), want_both());
    if let Ok(msg) = received {
        lemma_raised_short(PipeCmdView::Raise(PipeEvt::RecvMsg(msg)), want_both());
        assert forall|at: Progress| true implies after_events(at, seq![PipeEvt::RecvMsg(msg)])
            == after_event(at, PipeEvt::RecvMsg(msg)) by {
            lemma_after_events_short(at, PipeEvt::RecvMsg(msg), PipeEvt::Closed);
        }
    }
    assert(Seq::<PipeEvt>::empty() + seq![PipeEvt::Closed] =~= seq![PipeEvt::Closed]);
    assert(seq![PipeEvt::SentMsg] + Seq::<PipeEvt>::empty() =~= seq![PipeEvt::SentMsg]);
    assert forall|at: Progress| true implies {
        &&& after_events(at, Seq::<PipeEvt>::empty()) == Some(at)
        &&& after_events(at, seq![PipeEvt::Closed]) == after_event(at, PipeEvt::Closed)
        &&& after_events(at, seq![PipeEvt::SentMsg]) == after_event(at, PipeEvt::SentMsg)
        &&& after_events(at, seq![PipeEvt::CanSend]) == after_event(at, PipeEvt::CanSend)
        &&& after_events(at, seq![PipeEvt::CanRecv]) == after_event(at, PipeEvt::CanRecv)
    } by {
        lemma_after_events_short(at, PipeEvt::Closed, PipeEvt::Closed);
        lemma_after_events_short(at, PipeEvt::SentMsg, PipeEvt::Closed);
        lemma_after_events_short(at, PipeEvt::CanSend, PipeEvt::Closed);
        lemma_after_events_short(at, PipeEvt::CanRecv, PipeEvt::Closed);
    }
    assert(fits(Phase::Active, Progress::Open));
    assert(step_in_order(here, shut()));
    assert(step_in_order(here, send_progress(sending, receiving, sent)));
    assert(step_in_order(here, recv_progress(sending, received)));
    assert(step_in_order(PipeView::Active { sending: false, receiving }, send_progress(false, receiving, sent)));
    assert(step_in_order(here, writable_step(sending, receiving, sent)));
    assert(step_in_order(here, readable_step(sending, receiving, received)));
    let first = if writable_in(bits) {
        writable_step(sending, receiving, sent)
    } else {
        stay(here)
    };
    assert(step_in_order(here, first));
    if let PipeView::Active { sending: s, receiving: r } = first.next {
        if readable_in(bits) {
            lemma_active_readable_in_order(s, r, received);
            lemma_then_in_order(here, first, readable_step(s, r, received));
        }
    }
}

/// The readable half of a readiness event keeps the order of events.
pub proof fn lemma_active_readable_in_order(
    sending: bool,
    receiving: bool,
    received: Result<Message, Error>,
)
    ensures
        step_in_order(
            PipeView::Active { sending, receiving },
            readable_step(sending, receiving, received),
        ),
{
    lemma_raised_short(PipeCmdView::Deregister, PipeCmdView::Raise(PipeEvt::Closed));
    lemma_raised_short(PipeCmdView::Raise(PipeEvt::CanRecv), want_both());
    if let Ok(msg) = received {
        lemma_raised_short(PipeCmdView::Raise(PipeEvt::RecvMsg(msg)), want_both());
        assert forall|at: Progress| true implies after_events(at, seq![PipeEvt::RecvMsg(msg)])
            == after_event(at, PipeEvt::RecvMsg(msg)) by {
            lemma_after_events_short(at, PipeEvt::RecvMsg(msg), PipeEvt::Closed);
        }
    }
    assert(Seq::<PipeEvt>::empty() + seq![PipeEvt::Closed] =~= seq![PipeEvt::Closed]);
    assert forall|at: Progress| true implies {
        &&& after_events(at, Seq::<PipeEvt>::empty()) == Some(at)
        &&& after_events(at, seq![PipeEvt::Closed]) == after_event(at, PipeEvt::Closed)
        &&& after_events(at, seq![PipeEvt::CanRecv]) == after_event(at, PipeEvt::CanRecv)
    } by {
        lemma_after_events_short(at, PipeEvt::Closed, PipeEvt::Closed);
        lemma_after_events_short(at, PipeEvt::CanRecv, PipeEvt::Closed);
    }
    assert(fits(Phase::Active, Progress::Open));
}

/// What can happen to a pipe.
pub enum Input {
    /// The endpoint opens the pipe.
    Open,
    /// The owner closes the pipe.
    Close,
    /// The owner hands over a message to send.
    Send,
    /// The owner asks for a message.
    Recv,
    /// The reactor reports the transport ready, with these flags.
    Ready(usize),
}

/// The step that a pipe takes on an input. `sent` is what the transport
/// makes of the write that the step may ask for (of the handshake, or of a
/// frame), `received` what it makes of the read (for the handshake, only
/// whether it succeeded counts).
pub open spec fn react(
    at: PipeView,
    input: Input,
    sent: Result<(), Error>,
    received: Result<Message, Error>,
) -> Step {
    match at {
        PipeView::Initial { pids } => match input {
            Input::Open => opened(pids),
            Input::Close => closed_unopened(),
            Input::Send | Input::Recv => die(),
            Input::Ready(_) => stay(at),
        },
        PipeView::HandshakeTx { pids } => match input {
            Input::Close => shut(),
            Input::Open | Input::Send | Input::Recv => die(),
            Input::Ready(bits) => if writable_in(bits) {
                handshake_sent(pids, sent)
            } else {
                stay(at)
            },
        },
        PipeView::HandshakeRx { pids } => match input {
            Input::Close => shut(),
            Input::Open | Input::Send | Input::Recv => die(),
            Input::Ready(bits) => if readable_in(bits) {
                handshake_received(
                    match received {
                        Ok(_) => Ok(()),
                        Err(e) => Err(e),
                    },
                )
            } else {
                stay(at)
            },
        },
        PipeView::Active { sending, receiving } => match input {
            Input::Open => die(),
            Input::Close => shut(),
            Input::Send => send_step(sending, receiving, sent),
            Input::Recv => recv_step(sending, receiving, received),
            Input::Ready(bits) => ready_step(sending, receiving, bits, sent, received),
        },
        PipeView::Dead => stay(at),
    }
}

/// Whatever happens to a pipe, and whatever its transport does, the step
/// that the pipe takes keeps the order of events, and leads to the same or to
/// a later phase: a pipe never returns to a phase that it has left, and a dead
/// pipe stays dead and silent.
pub proof fn lemma_react_in_order(
    at: PipeView,
    input: Input,
    sent: Result<(), Error>,
    received: Result<Message, Error>,
)
    ensures
        step_in_order(at, react(at, input, sent, received)),
        rank(at.phase()) <= rank(react(at, input, sent, received).next.phase()),
        at is Dead ==> react(at, input, sent, received) == stay(PipeView::Dead),
{
    let step = react(at, input, sent, received);
    match at {
        PipeView::Initial { pids } => {
            lemma_handshake_steps_in_order(pids, sent);
            assert(step == opened(pids) || step == closed_unopened() || step == die() || step
                == stay(at));
        },
        PipeView::HandshakeTx { pids } => {
            lemma_handshake_steps_in_order(pids, sent);
            assert(step == handshake_sent(pids, sent) || step == shut() || step == die() || step
                == stay(at));
        },
        PipeView::HandshakeRx { pids } => {
            let res: Result<(), Error> = match received {
                Ok(_) => Ok(()),
                Err(e) => Err(e),
            };
            lemma_handshake_steps_in_order(pids, res);
            assert(step == handshake_received(res) || step == shut() || step == die() || step
                == stay(at));
        },
        PipeView::Active { sending, receiving } => {
            let bits = match input {
                Input::Ready(bits) => bits,
                _ => 0,
            };
            lemma_active_steps_in_order(sending, receiving, bits, sent, received);
            assert(step == die() || step == shut() || step == send_step(sending, receiving, sent)
                || step == recv_step(sending, receiving, received) || step == ready_step(
                sending,
                receiving,
                bits,
                sent,
                received,
            ));
            lemma_active_next_is_late(sending, receiving, bits, sent, received);
        },
        PipeView::Dead => {
            lemma_handshake_steps_in_order((0, 0), sent);
        },
    }
}

/// The steps of an active pipe lead to an active or to a dead pipe.
pub proof fn lemma_active_next_is_late(
    sending: bool,
    receiving: bool,
    bits: usize,
    sent: Result<(), Error>,
    received: Result<Message, Error>,
)
    ensures
        rank(send_step(sending, receiving, sent).next.phase()) >= 3,
        rank(recv_step(sending, receiving, received).next.phase()) >= 3,
        rank(ready_step(sending, receiving, bits, sent, received).next.phase()) >= 3,
{
}

} // verus!
