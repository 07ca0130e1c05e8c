//! A pipe that was made and not yet opened.

use std::rc::Rc;
use vstd::prelude::*;
use crate::message::Message;
use crate::transport::context::{Context, PipeEvt};
use crate::transport::step_stream::StepStream;
use crate::transport::stream::handshake::HandshakeTx;
use crate::transport::stream::model::{closed_unopened, die, opened, stay, PipeView};
use crate::transport::stream::state::{took, PipeState};

verus! {

/// The state of a pipe before `open`.
pub struct Initial<T: StepStream> {
    stream: T,
    proto_ids: (u16, u16),
}

impl<T: StepStream> Initial<T> {
    /// The protocol identifiers of this end and of the peer.
    pub closed spec fn pids(&self) -> (u16, u16) {
        self.proto_ids
    }

    /// A pipe over `stream`, for a socket that announces the first
    /// identifier of `pids` and expects the second.
    pub fn new(stream: T, pids: (u16, u16)) -> (state: Initial<T>)
        ensures
            state.pids() == pids,
    {
        Initial { stream, proto_ids: pids }
    }

    /// The name of the state.
    pub fn name(&self) -> (name: &'static str)
        ensures
            name == "Initial",
    {
        "Initial"
    }

    /// Entering the state asks for nothing.
    pub fn enter(&self, ctx: &mut Context)
        ensures
            final(ctx)@ == old(ctx)@,
    {
    }

    /// Registers the transport for writing and goes on to write the
    /// handshake.
    pub fn open(self, ctx: &mut Context) -> (next: PipeState<T>)
        ensures
            took(old(ctx)@, final(ctx)@, next@, opened(self.pids())),
    {
        let state = HandshakeTx::new(self.stream, self.proto_ids);
        state.enter(ctx);
        PipeState::HandshakeTx(state)
    }

    /// Tells the owner that the pipe is closed.
    pub fn close(self, ctx: &mut Context) -> (next: PipeState<T>)
        ensures
            took(old(ctx)@, final(ctx)@, next@, closed_unopened()),
    {
        ctx.raise(PipeEvt::Closed);
        assert(ctx@ =~= old(ctx)@ + closed_unopened().cmds);
        PipeState::Dead
    }

    /// A send before the pipe is open kills it.
    pub fn send(self, ctx: &mut Context, msg: Rc<Message>) -> (next: PipeState<T>)
        ensures
            took(old(ctx)@, final(ctx)@, next@, die()),
    {
        PipeState::Dead
    }

    /// A receive before the pipe is open kills it.
    pub fn recv(self, ctx: &mut Context) -> (next: PipeState<T>)
        ensures
            took(old(ctx)@, final(ctx)@, next@, die()),
    {
        PipeState::Dead
    }

    /// Readiness means nothing to a pipe that is not open.
    pub fn ready(self, ctx: &mut Context, events: mio::EventSet) -> (next: PipeState<T>)
        ensures
            took(old(ctx)@, final(ctx)@, next@, stay(PipeView::Initial { pids: self.pids() })),
    {
        PipeState::Initial(self)
    }
}

} // verus!
