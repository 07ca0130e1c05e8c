//! What a pipe asks of the reactor and tells its owner.
//!
//! A pipe never touches the reactor itself. It writes what it wants done into
//! a `Context`, in order, and the event loop carries it out before it polls
//! again.

use vstd::prelude::*;
use crate::message::Message;
use crate::transport::readiness::{event_set_bits, poll_opt_bits};

verus! {

/// What a pipe tells its owner.
#[derive(Debug, PartialEq, Eq, Clone)]
pub enum PipeEvt {
    /// The handshake is done in both directions.
    Opened,
    /// The pipe is dead.
    Closed,
    /// The message handed to `send` is written.
    SentMsg,
    /// A message has arrived.
    RecvMsg(Message),
    /// A send would go through.
    CanSend,
    /// A receive would go through.
    CanRecv,
}

/// One entry of a context: a request to the reactor or an event for the
/// owner.
#[derive(Debug, PartialEq, Eq)]
pub enum PipeCmd {
    /// Register the transport for the given readiness.
    Register(mio::EventSet, mio::PollOpt),
    /// Change what the transport is registered for.
    Reregister(mio::EventSet, mio::PollOpt),
    /// Take the transport off the reactor.
    Deregister,
    /// Hand the event to the owner.
    Raise(PipeEvt),
}

/// An entry with the flags of its sets spelled out.
pub enum PipeCmdView {
    Register { interest: usize, opt: usize },
    Reregister { interest: usize, opt: usize },
    Deregister,
    Raise(PipeEvt),
}

impl View for PipeCmd {
    type V = PipeCmdView;

    open spec fn view(&self) -> PipeCmdView {
        match *self {
            PipeCmd::Register(interest, opt) => PipeCmdView::Register {
                interest: event_set_bits(interest),
                opt: poll_opt_bits(opt),
            },
            PipeCmd::Reregister(interest, opt) => PipeCmdView::Reregister {
                interest: event_set_bits(interest),
                opt: poll_opt_bits(opt),
            },
            PipeCmd::Deregister => PipeCmdView::Deregister,
            PipeCmd::Raise(evt) => PipeCmdView::Raise(evt),
        }
    }
}

/// The events among the entries, in order.
pub open spec fn raised(cmds: Seq<PipeCmdView>) -> Seq<PipeEvt>
    decreases cmds.len(),
{
    if cmds.len() == 0 {
        Seq::empty()
    } else {
        match cmds.last() {
            PipeCmdView::Raise(evt) => raised(cmds.drop_last()).push(evt),
            _ => raised(cmds.drop_last()),
        }
    }
}

/// The requests and events of a pipe, in the order in which it made them.
pub struct Context {
    cmds: Vec<PipeCmd>,
}

impl View for Context {
    type V = Seq<PipeCmdView>;

    closed spec fn view(&self) -> Seq<PipeCmdView> {
        self.cmds@.map_values(|c: PipeCmd| c@)
    }
}

impl Context {
    /// An empty context.
    pub fn new() -> (ctx: Context)
        ensures
            ctx@ == Seq::<PipeCmdView>::empty(),
    {
        let ctx = Context { cmds: Vec::new() };
        assert(ctx@ =~= Seq::<PipeCmdView>::empty());
        ctx
    }

    fn push(&mut self, cmd: PipeCmd)
        ensures
            final(self)@ == old(self)@.push(cmd@),
    {
        self.cmds.push(cmd);
        assert(self@ =~= old(self)@.push(cmd@));
    }

    /// Asks for the transport to be registered.
    pub fn register(&mut self, interest: mio::EventSet, opt: mio::PollOpt)
        ensures
            final(self)@ == old(self)@.push(
                PipeCmdView::Register {
                    interest: event_set_bits(interest),
                    opt: poll_opt_bits(opt),
                },
            ),
    {
        self.push(PipeCmd::Register(interest, opt));
    }

    /// Asks for the registration of the transport to be changed.
    pub fn reregister(&mut self, interest: mio::EventSet, opt: mio::PollOpt)
        ensures
            final(self)@ == old(self)@.push(
                PipeCmdView::Reregister {
                    interest: event_set_bits(interest),
                    opt: poll_opt_bits(opt),
                },
            ),
    {
        self.push(PipeCmd::Reregister(interest, opt));
    }

    /// Asks for the transport to be taken off the reactor.
    pub fn deregister(&mut self)
        ensures
            final(self)@ == old(self)@.push(PipeCmdView::Deregister),
    {
        self.push(PipeCmd::Deregister);
    }

    /// Hands an event to the owner of the pipe.
    pub fn raise(&mut self, evt: PipeEvt)
        ensures
            final(self)@ == old(self)@.push(PipeCmdView::Raise(evt)),
    {
        self.push(PipeCmd::Raise(evt));
    }

    /// The number of entries.
    pub fn len(&self) -> (n: usize)
        ensures
            n == self@.len(),
    {
        self.cmds.len()
    }

    /// The entries, oldest first.
    pub fn commands(&self) -> (cmds: &Vec<PipeCmd>)
        ensures
            cmds@.map_values(|c: PipeCmd| c@) == self@,
    {
        &self.cmds
    }

    /// Hands the entries out, oldest first, and leaves the context empty.
    pub fn take(&mut self) -> (cmds: Vec<PipeCmd>)
        ensures
            cmds@.map_values(|c: PipeCmd| c@) == old(self)@,
            final(self)@ == Seq::<PipeCmdView>::empty(),
    {
        let mut cmds: Vec<PipeCmd> = Vec::new();
        std::mem::swap(&mut self.cmds, &mut cmds);
        assert(self@ =~= Seq::<PipeCmdView>::empty());
        cmds
    }
}

} // verus!
