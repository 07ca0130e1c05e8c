//! The two states of the handshake: first the pipe writes its own, then it
//! reads the peer's.

use std::rc::Rc;
use vstd::prelude::*;
use crate::error::Error;
use crate::message::Message;
use crate::transport::context::{Context, PipeEvt};
use crate::transport::readiness::{
    event_set_bits,
    is_readable,
    is_writable,
    level,
    readable,
    readable_in,
    writable,
    writable_in,
};
use crate::transport::step_stream::StepStream;
use crate::transport::stream::active::Active;
use crate::transport::stream::model::{
    die,
    opened,
    handshake_received,
    handshake_sent,
    shut,
    stay,
    PipeView,
    Step,
};
use crate::transport::stream::state::{took, PipeState};

verus! {

/// The state of a pipe that has its handshake to write.
pub struct HandshakeTx<T: StepStream> {
    stream: T,
    proto_ids: (u16, u16),
}

/// What a readiness event does to a pipe that has its handshake to write,
/// where `res` is the outcome of the write.
pub open spec fn tx_ready(pids: (u16, u16), bits: usize, res: Result<(), Error>) -> Step {
    if writable_in(bits) {
        handshake_sent(pids, res)
    } else {
        stay(PipeView::HandshakeTx { pids })
    }
}

/// What a readiness event does to a pipe that has the peer's handshake to
/// read, where `res` is the outcome of the read.
pub open spec fn rx_ready(pids: (u16, u16), bits: usize, res: Result<(), Error>) -> Step {
    if readable_in(bits) {
        handshake_received(res)
    } else {
        stay(PipeView::HandshakeRx { pids })
    }
}

impl<T: StepStream> HandshakeTx<T> {
    /// The protocol identifiers of this end and of the peer.
    pub closed spec fn pids(&self) -> (u16, u16) {
        self.proto_ids
    }

    /// The state over `stream`, for a socket that announces the first
    /// identifier of `pids` and expects the second.
    pub fn new(stream: T, pids: (u16, u16)) -> (state: HandshakeTx<T>)
        ensures
            state.pids() == pids,
    {
        HandshakeTx { stream, proto_ids: pids }
    }

    fn send_handshake(&mut self) -> (res: Result<(), Error>)
        ensures
            final(self).pids() == old(self).pids(),
    {
        let pids = self.proto_ids;

        self.stream.send_handshake(pids)
    }

    /// The name of the state.
    pub fn name(&self) -> (name: &'static str)
        ensures
            name == "HandshakeTx",
    {
        "HandshakeTx"
    }

    /// Entering the state registers the transport for writable readiness,
    /// level-triggered.
    pub fn enter(&self, ctx: &mut Context)
        ensures
            final(ctx)@ == old(ctx)@ + opened(self.pids()).cmds,
    {
        ctx.register(writable(), level());
        assert(ctx@ =~= old(ctx)@ + opened(self.pids()).cmds);
    }

    /// A second `open` kills the pipe.
    pub fn open(self, ctx: &mut Context) -> (next: PipeState<T>)
        ensures
            took(old(ctx)@, final(ctx)@, next@, die()),
    {
        PipeState::Dead
    }

    /// Takes the transport off the reactor and tells the owner that the pipe
    /// is closed.
    pub fn close(self, ctx: &mut Context) -> (next: PipeState<T>)
        ensures
            took(old(ctx)@, final(ctx)@, next@, shut()),
    {
        ctx.deregister();
        ctx.raise(PipeEvt::Closed);
        assert(ctx@ =~= old(ctx)@ + shut().cmds);
        PipeState::Dead
    }

    /// A send during the handshake kills the pipe.
    pub fn send(self, ctx: &mut Context, msg: Rc<Message>) -> (next: PipeState<T>)
        ensures
            took(old(ctx)@, final(ctx)@, next@, die()),
    {
        PipeState::Dead
    }

    /// A receive during the handshake kills the pipe.
    pub fn recv(self, ctx: &mut Context) -> (next: PipeState<T>)
        ensures
            took(old(ctx)@, final(ctx)@, next@, die()),
    {
        PipeState::Dead
    }

    /// On writable readiness the handshake is written, and the pipe goes on
    /// as `transition_if_ok` says of the outcome. Any other readiness leaves
    /// the pipe as it is.
    pub fn ready(self, ctx: &mut Context, events: mio::EventSet) -> (next: PipeState<T>)
        ensures
            exists|res: Result<(), Error>|
                took(
                    old(ctx)@,
                    final(ctx)@,
                    next@,
                    #[trigger] tx_ready(self.pids(), event_set_bits(events), res),
                ),
            !writable_in(event_set_bits(events)) ==> took(
                old(ctx)@,
                final(ctx)@,
                next@,
                stay(PipeView::HandshakeTx { pids: self.pids() }),
            ),
    {
        let ghost pids = self.pids();
        let mut this = self;
        if is_writable(&events) {
            let res = this.send_handshake();
            let next = this.transition_if_ok(ctx, res);
            assert(took(
                old(ctx)@,
                ctx@,
                next@,
                tx_ready(pids, event_set_bits(events), res),
            ));
            next
        } else {
            assert(took(
                old(ctx)@,
                ctx@,
                PipeView::HandshakeTx { pids: this.pids() },
                tx_ready(this.pids(), event_set_bits(events), Ok(())),
            ));
            PipeState::HandshakeTx(this)
        }
    }

    /// After the handshake was written. Written: the pipe polls for readable
    /// and waits for the peer's handshake. Failed: the pipe is shut.
    pub fn transition_if_ok(self, ctx: &mut Context, res: Result<(), Error>) -> (next: PipeState<T>)
        ensures
            took(old(ctx)@, final(ctx)@, next@, handshake_sent(self.pids(), res)),
    {
        match res {
            Ok(_) => {
                let state: HandshakeRx<T> = HandshakeRx::new(self.stream, self.proto_ids);
                state.enter(ctx);
                PipeState::HandshakeRx(state)
            },
            Err(_) => self.close(ctx),
        }
    }
}

/// The state of a pipe that has the peer's handshake to read.
pub struct HandshakeRx<T: StepStream> {
    stream: T,
    proto_ids: (u16, u16),
}

impl<T: StepStream> HandshakeRx<T> {
    /// The protocol identifiers of this end and of the peer.
    pub closed spec fn pids(&self) -> (u16, u16) {
        self.proto_ids
    }

    /// The state over `stream`, for a socket that announces the first
    /// identifier of `pids` and expects the second.
    pub fn new(stream: T, pids: (u16, u16)) -> (state: HandshakeRx<T>)
        ensures
            state.pids() == pids,
    {
        HandshakeRx { stream, proto_ids: pids }
    }

    fn recv_handshake(&mut self) -> (res: Result<(), Error>)
        ensures
            final(self).pids() == old(self).pids(),
    {
        let pids = self.proto_ids;

        self.stream.recv_handshake(pids)
    }

    /// The name of the state.
    pub fn name(&self) -> (name: &'static str)
        ensures
            name == "HandshakeRx",
    {
        "HandshakeRx"
    }

    /// Entering the state changes the registration of the transport to
    /// readable readiness, level-triggered.
    pub fn enter(&self, ctx: &mut Context)
        ensures
            final(ctx)@ == old(ctx)@ + handshake_sent(self.pids(), Ok(())).cmds,
    {
        ctx.reregister(readable(), level());
        assert(ctx@ =~= old(ctx)@ + handshake_sent(self.pids(), Ok(())).cmds);
    }

    /// An `open` during the handshake kills the pipe.
    pub fn open(self, ctx: &mut Context) -> (next: PipeState<T>)
        ensures
            took(old(ctx)@, final(ctx)@, next@, die()),
    {
        PipeState::Dead
    }

    /// Takes the transport off the reactor and tells the owner that the pipe
    /// is closed.
    pub fn close(self, ctx: &mut Context) -> (next: PipeState<T>)
        ensures
            took(old(ctx)@, final(ctx)@, next@, shut()),
    {
        ctx.deregister();
        ctx.raise(PipeEvt::Closed);
        assert(ctx@ =~= old(ctx)@ + shut().cmds);
        PipeState::Dead
    }

    /// A send during the handshake kills the pipe.
    pub fn send(self, ctx: &mut Context, msg: Rc<Message>) -> (next: PipeState<T>)
        ensures
            took(old(ctx)@, final(ctx)@, next@, die()),
    {
        PipeState::Dead
    }

    /// A receive during the handshake kills the pipe.
    pub fn recv(self, ctx: &mut Context) -> (next: PipeState<T>)
        ensures
            took(old(ctx)@, final(ctx)@, next@, die()),
    {
        PipeState::Dead
    }

    /// On readable readiness the peer's handshake is read, and the pipe goes
    /// on as `transition_if_ok` says of the outcome. Any other readiness
    /// leaves the pipe as it is.
    pub fn ready(self, ctx: &mut Context, events: mio::EventSet) -> (next: PipeState<T>)
        ensures
            exists|res: Result<(), Error>|
                took(
                    old(ctx)@,
                    final(ctx)@,
                    next@,
                    #[trigger] rx_ready(self.pids(), event_set_bits(events), res),
                ),
            !readable_in(event_set_bits(events)) ==> took(
                old(ctx)@,
                final(ctx)@,
                next@,
                stay(PipeView::HandshakeRx { pids: self.pids() }),
            ),
    {
        let ghost pids = self.pids();
        let mut this = self;
        if is_readable(&events) {
            let res = this.recv_handshake();
            let next = this.transition_if_ok(ctx, res);
            assert(took(
                old(ctx)@,
                ctx@,
                next@,
                rx_ready(pids, event_set_bits(events), res),
            ));
            next
        } else {
            assert(took(
                old(ctx)@,
                ctx@,
                PipeView::HandshakeRx { pids: this.pids() },
                rx_ready(this.pids(), event_set_bits(events), Ok(())),
            ));
            PipeState::HandshakeRx(this)
        }
    }

    /// After the peer's handshake was read. Accepted: the owner learns that
    /// the pipe is open, and the pipe polls for readable. Refused or failed:
    /// the pipe is shut.
    pub fn transition_if_ok(self, ctx: &mut Context, res: Result<(), Error>) -> (next: PipeState<T>)
        ensures
            took(old(ctx)@, final(ctx)@, next@, handshake_received(res)),
    {
        match res {
            Ok(_) => {
                ctx.raise(PipeEvt::Opened);
                let state: Active<T> = Active::new(self.stream);
                state.enter(ctx);
                assert(ctx@ =~= old(ctx)@ + handshake_received(res).cmds);
                PipeState::Active(state)
            },
            Err(_) => self.close(ctx),
        }
    }
}

} // verus!
