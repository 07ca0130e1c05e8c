//! PULL: receives from its pipes in fair-queue order, and does not send.
//!
//! At most one receive is under way. It is served by the pipe on which the
//! fair queue rests. When no pipe can receive, the receive is put on hold
//! until one reports that it can, or until the deadline.

use std::collections::HashMap;
use vstd::prelude::*;
use crate::error::{other_io_error, timedout_io_error, Error, ErrorKind};
use crate::ids::EndpointId;
use crate::message::Message;
use crate::prio_state::PrioState;
use crate::priolist::PrioList;
use crate::proto::context::{
    cancelled,
    lemma_replies_concat,
    lemma_replies_short,
    recv_replies,
    send_replies,
    Context,
    ProtoCmd,
    Reply,
    Timeout,
};
use crate::proto::pipe::Pipe;
use crate::proto::policy::{WithPipes, WithUnicastRecv};
use crate::socket_type::{PULL, PUSH};

verus! {

broadcast use vstd::std_specs::hash::group_hash_axioms;

/// Where a PULL socket stands with the user's receive.
#[derive(Debug, PartialEq, Eq, Clone, Copy)]
pub enum State {
    /// No receive is pending.
    Idle,
    /// The pipe of this endpoint was asked for a message.
    Receiving(EndpointId, Timeout),
    /// A receive is pending, and no pipe could serve it yet.
    RecvOnHold(Timeout),
}

/// The content of a PULL socket: its state, its pipes by the number of
/// their endpoint, and its fair queue.
pub struct PullView {
    pub state: State,
    pub pipes: Map<usize, Pipe>,
    pub fq: PrioState,
}

/// The outcome of a step: the content that follows, and what the step wrote
/// into the context.
pub struct PullStep {
    pub next: PullView,
    pub cmds: Seq<ProtoCmd>,
}

/// The error that answers a send.
pub open spec fn send_not_supported() -> Error {
    Error { kind: ErrorKind::Other, message: "Send is not supported by pull protocol" }
}

/// The error that answers a receive whose deadline has passed.
pub open spec fn recv_timed_out() -> Error {
    Error { kind: ErrorKind::TimedOut, message: "Recv timed out" }
}

impl PullView {
    /// The invariant: the fair queue is well formed.
    pub open spec fn wf(self) -> bool {
        self.fq.wf()
    }

    /// A socket without pipes, at rest.
    pub open spec fn empty() -> PullView {
        PullView { state: State::Idle, pipes: Map::empty(), fq: PrioState::empty() }
    }

    /// The same content in another state.
    pub open spec fn with_state(self, state: State) -> PullView {
        PullView { state, pipes: self.pipes, fq: self.fq }
    }

    /// A step that changes nothing.
    pub open spec fn ignore(self) -> PullStep {
        PullStep { next: self, cmds: Seq::empty() }
    }

    /// The number of receives that the socket owes an answer to.
    pub open spec fn owed(self) -> nat {
        match self.state {
            State::Idle => 0,
            _ => 1,
        }
    }

    /// `add_pipe`: the pipe joins the fair queue, inactive, with its receive
    /// priority.
    pub open spec fn add_pipe(self, eid: EndpointId, pipe: Pipe) -> PullView {
        PullView {
            state: self.state,
            pipes: self.pipes.insert(eid.0, pipe),
            fq: self.fq.insert(eid, pipe.recv_priority),
        }
    }

    /// `remove_pipe`: the pipe leaves. A receive that it was serving is put
    /// on hold, with its deadline.
    pub open spec fn remove_pipe(self, eid: EndpointId) -> PullView {
        PullView {
            state: if self.pipes.contains_key(eid.0) {
                match self.state {
                    State::Receiving(id, timeout) => if id == eid {
                        State::RecvOnHold(timeout)
                    } else {
                        self.state
                    },
                    _ => self.state,
                }
            } else {
                self.state
            },
            pipes: self.pipes.remove(eid.0),
            fq: self.fq.remove(eid),
        }
    }

    /// The pipe that serves the next receive: the one on which the fair
    /// queue rests, if the socket has it.
    pub open spec fn next_pipe(self) -> Option<EndpointId> {
        match self.fq.get() {
            Some(eid) => if self.pipes.contains_key(eid.0) {
                Some(eid)
            } else {
                None
            },
            None => None,
        }
    }

    /// A receive is started: the next pipe is asked for a message, or the
    /// receive is put on hold.
    pub open spec fn start_recv(self, timeout: Timeout) -> PullStep {
        match self.next_pipe() {
            Some(eid) => PullStep {
                next: self.with_state(State::Receiving(eid, timeout)),
                cmds: seq![ProtoCmd::Recv(eid)],
            },
            None => PullStep {
                next: self.with_state(State::RecvOnHold(timeout)),
                cmds: Seq::empty(),
            },
        }
    }

    /// `recv`: a receive is started if none is pending, and ignored
    /// otherwise.
    pub open spec fn recv(self, timeout: Timeout) -> PullStep {
        match self.state {
            State::Idle => self.start_recv(timeout),
            _ => self.ignore(),
        }
    }

    /// `send`: refused at once, and its timer is cancelled.
    pub open spec fn send(self, timeout: Timeout) -> PullStep {
        PullStep {
            next: self,
            cmds: seq![ProtoCmd::ReplySend(Reply::Error(send_not_supported()))] + cancelled(
                timeout,
            ),
        }
    }

    /// `on_recv_ack`: the message of the pipe that was asked answers the
    /// receive, its timer is cancelled, and the fair queue moves on. From any
    /// other pipe, or with no receive under way, the message is ignored.
    pub open spec fn on_recv_ack(self, eid: EndpointId, msg: Message) -> PullStep {
        match self.state {
            State::Receiving(id, timeout) => if id == eid {
                PullStep {
                    next: PullView {
                        state: State::Idle,
                        pipes: self.pipes,
                        fq: self.fq.advance(),
                    },
                    cmds: seq![ProtoCmd::ReplyRecv(Reply::Recv(msg))] + cancelled(timeout),
                }
            } else {
                self.ignore()
            },
            _ => self.ignore(),
        }
    }

    /// `on_recv_timeout`: a pending receive is answered with an error of
    /// kind `TimedOut`. With none pending, nothing happens.
    pub open spec fn on_recv_timeout(self) -> PullStep {
        match self.state {
            State::Idle => self.ignore(),
            _ => PullStep {
                next: self.with_state(State::Idle),
                cmds: seq![ProtoCmd::ReplyRecv(Reply::Error(recv_timed_out()))],
            },
        }
    }

    /// `on_recv_ready`: the pipe becomes active in the fair queue, and a
    /// receive on hold is started.
    pub open spec fn on_recv_ready(self, eid: EndpointId) -> PullStep {
        let ready = PullView { state: self.state, pipes: self.pipes, fq: self.fq.activate(eid) };
        match self.state {
            State::RecvOnHold(timeout) => ready.start_recv(timeout),
            _ => ready.ignore(),
        }
    }

    /// Every step keeps the invariant, and answers exactly the receives and
    /// sends that it owes an answer: a send is answered at once; a receive
    /// is owed an answer from the step that accepts it to the step that
    /// answers it, and no more than one receive is owed an answer at a time.
    pub proof fn lemma_steps(self, eid: EndpointId, pipe: Pipe, msg: Message, timeout: Timeout)
        requires
            self.wf(),
        ensures
            pipe.wf() ==> self.add_pipe(eid, pipe).wf(),
            self.add_pipe(eid, pipe).owed() == self.owed(),
            self.remove_pipe(eid).wf(),
            self.remove_pipe(eid).owed() == self.owed(),
            accounted(self, self.recv(timeout), 0, if self.state is Idle {
                1
            } else {
                0
            }),
            accounted(self, self.send(timeout), 1, 0),
            accounted(self, self.on_recv_ack(eid, msg), 0, 0),
            accounted(self, self.on_recv_timeout(), 0, 0),
            accounted(self, self.on_recv_ready(eid), 0, 0),
    {
        if pipe.wf() {
            self.fq.lemma_insert_wf(eid, pipe.recv_priority);
        }
        self.fq.lemma_remove_wf(eid);
        self.fq.lemma_advance_wf();
        self.fq.lemma_activate_wf(eid);
        let any = ProtoCmd::Recv(eid);
        lemma_replies_short(any, any);
        lemma_replies_short(
            ProtoCmd::ReplySend(Reply::Error(send_not_supported())),
            any,
        );
        lemma_replies_short(ProtoCmd::ReplyRecv(Reply::Recv(msg)), any);
        lemma_replies_short(
            ProtoCmd::ReplyRecv(Reply::Error(recv_timed_out())),
            any,
        );
        if let Some(s) = timeout {
            lemma_replies_short(ProtoCmd::Cancel(s), any);
        }
        lemma_replies_concat(
            seq![ProtoCmd::ReplySend(Reply::Error(send_not_supported()))],
            cancelled(timeout),
        );
        if let State::Receiving(id, t) = self.state {
            if let Some(s) = t {
                lemma_replies_short(ProtoCmd::Cancel(s), any);
            }
            lemma_replies_concat(
                seq![ProtoCmd::ReplyRecv(Reply::Recv(msg))],
                cancelled(t),
            );
        }
        let ready = PullView { state: self.state, pipes: self.pipes, fq: self.fq.activate(eid) };
        if let Some(next) = ready.next_pipe() {
            lemma_replies_short(ProtoCmd::Recv(next), any);
        }
        if let Some(next) = self.next_pipe() {
            lemma_replies_short(ProtoCmd::Recv(next), any);
        }
    }
}

/// A step keeps the invariant and accounts for every answer: what the socket
/// owed before, and the receives that the step accepts, are either answered
/// by the step or owed afterwards; and the step answers `sends` sends.
pub open spec fn accounted(before: PullView, step: PullStep, sends: nat, accepted: nat) -> bool {
    &&& step.next.wf()
    &&& send_replies(step.cmds) == sends
    &&& before.owed() + accepted == recv_replies(step.cmds)
        + step.next.owed()
    &&& step.next.owed() <= 1
}

struct Inner {
    pipes: HashMap<usize, Pipe>,
    fq: PrioList,
}

/// PULL, the receiving end of a pipeline.
pub struct Pull {
    inner: Inner,
    state: State,
}

impl View for Pull {
    type V = PullView;

    closed spec fn view(&self) -> PullView {
        PullView { state: self.state, pipes: self.inner.pipes@, fq: self.inner.fq@ }
    }
}

impl WithPipes for Inner {
    closed spec fn pipes(&self) -> Map<usize, Pipe> {
        self.pipes@
    }

    fn get_pipe(&self, eid: &EndpointId) -> (pipe: Option<Pipe>) {
        match self.pipes.get(&eid.0) {
            Some(pipe) => Some(*pipe),
            None => None,
        }
    }
}

impl WithUnicastRecv for Inner {}

impl Inner {
    spec fn with_state(&self, state: State) -> PullView {
        PullView { state, pipes: self.pipes@, fq: self.fq@ }
    }

    fn add_pipe(&mut self, eid: EndpointId, pipe: Pipe)
        requires
            old(self).fq.wf(),
            pipe.wf(),
        ensures
            forall|state: State|
                #![trigger final(self).with_state(state)]
                final(self).with_state(state) == old(self).with_state(state).add_pipe(eid, pipe),
            final(self).fq.wf(),
    {
        self.fq.insert(eid, pipe.get_recv_priority());
        self.pipes.insert(eid.0, pipe);
    }

    fn remove_pipe(&mut self, eid: EndpointId) -> (pipe: Option<Pipe>)
        requires
            old(self).fq.wf(),
        ensures
            final(self).pipes@ == old(self).pipes@.remove(eid.0),
            final(self).fq@ == old(self).fq@.remove(eid),
            final(self).fq.wf(),
            pipe == if old(self).pipes@.contains_key(eid.0) {
                Some(old(self).pipes@[eid.0])
            } else {
                None
            },
    {
        self.fq.remove(eid);
        self.pipes.remove(&eid.0)
    }

    fn send(&mut self, ctx: &mut Context, timeout: Timeout)
        ensures
            *final(self) == *old(self),
            forall|state: State|
                #![trigger old(self).with_state(state)]
                final(ctx)@ == old(ctx)@ + old(self).with_state(state).send(timeout).cmds,
    {
        let error = other_io_error("Send is not supported by pull protocol");
        ctx.reply_send(Reply::Error(error));
        ctx.cancel_timeout(timeout);
        assert(ctx@ =~= old(ctx)@ + (seq![
            ProtoCmd::ReplySend(Reply::Error(send_not_supported())),
        ] + cancelled(timeout)));
    }

    fn recv(&mut self, ctx: &mut Context) -> (eid: Option<EndpointId>)
        requires
            old(self).fq.wf(),
        ensures
            *final(self) == *old(self),
            forall|state: State|
                #![trigger old(self).with_state(state)]
                eid == old(self).with_state(state).next_pipe(),
            final(ctx)@ == old(ctx)@ + match eid {
                Some(id) => seq![ProtoCmd::Recv(id)],
                None => Seq::empty(),
            },
    {
        match self.fq.get() {
            Some(eid) => self.recv_from(ctx, eid),
            None => {
                assert(ctx@ =~= old(ctx)@ + Seq::<ProtoCmd>::empty());
                None
            },
        }
    }

    fn recv_from(&mut self, ctx: &mut Context, eid: EndpointId) -> (found: Option<EndpointId>)
        ensures
            *final(self) == *old(self),
            found == if old(self).pipes@.contains_key(eid.0) {
                Some(eid)
            } else {
                None
            },
            final(ctx)@ == old(ctx)@ + match found {
                Some(id) => seq![ProtoCmd::Recv(id)],
                None => Seq::empty(),
            },
    {
        if WithUnicastRecv::recv(self, ctx, eid) {
            Some(eid)
        } else {
            None
        }
    }

    fn on_recv_ready(&mut self, eid: EndpointId)
        requires
            old(self).fq.wf(),
        ensures
            final(self).pipes@ == old(self).pipes@,
            final(self).fq@ == old(self).fq@.activate(eid),
            final(self).fq.wf(),
    {
        self.fq.activate(eid)
    }

    fn on_recv_ack(&mut self, ctx: &mut Context, timeout: Timeout, msg: Message)
        requires
            old(self).fq.wf(),
        ensures
            final(self).pipes@ == old(self).pipes@,
            final(self).fq@ == old(self).fq@.advance(),
            final(self).fq.wf(),
            final(ctx)@ == old(ctx)@ + (seq![ProtoCmd::ReplyRecv(Reply::Recv(msg))] + cancelled(
                timeout,
            )),
    {
        self.on_recv_done(ctx, msg, timeout);
        self.fq.advance();
    }

    fn on_recv_timeout(&self, ctx: &mut Context)
        ensures
            final(ctx)@ == old(ctx)@ + seq![ProtoCmd::ReplyRecv(Reply::Error(recv_timed_out()))],
    {
        let error = timedout_io_error("Recv timed out");
        ctx.reply_recv(Reply::Error(error));
        assert(ctx@ =~= old(ctx)@ + seq![ProtoCmd::ReplyRecv(Reply::Error(recv_timed_out()))]);
    }
}

impl State {
    /// The name of the state.
    pub fn name(&self) -> (name: &'static str)
        ensures
            name == match *self {
                State::Idle => "Idle",
                State::Receiving(_, _) => "Receiving",
                State::RecvOnHold(_) => "RecvOnHold",
            },
    {
        match *self {
            State::Idle => "Idle",
            State::Receiving(_, _) => "Receiving",
            State::RecvOnHold(_) => "RecvOnHold",
        }
    }

    fn on_pipe_removed(self, eid: EndpointId) -> (next: State)
        ensures
            next == match self {
                State::Receiving(id, timeout) => if id == eid {
                    State::RecvOnHold(timeout)
                } else {
                    self
                },
                _ => self,
            },
    {
        match self {
            State::Receiving(id, timeout) => {
                if id == eid {
                    State::RecvOnHold(timeout)
                } else {
                    State::Receiving(id, timeout)
                }
            },
            any => any,
        }
    }

    fn start_recv(ctx: &mut Context, inner: &mut Inner, timeout: Timeout) -> (next: State)
        requires
            old(inner).fq.wf(),
        ensures
            *final(inner) == *old(inner),
            forall|state: State|
                #![trigger old(inner).with_state(state)]
                {
                    let step = old(inner).with_state(state).start_recv(timeout);
                    &&& next == step.next.state
                    &&& final(ctx)@ == old(ctx)@ + step.cmds
                },
    {
        match inner.recv(ctx) {
            Some(eid) => State::Receiving(eid, timeout),
            None => State::RecvOnHold(timeout),
        }
    }

    fn recv(self, ctx: &mut Context, inner: &mut Inner, timeout: Timeout) -> (next: State)
        requires
            old(inner).fq.wf(),
        ensures
            *final(inner) == *old(inner),
            next == old(inner).with_state(self).recv(timeout).next.state,
            final(ctx)@ == old(ctx)@ + old(inner).with_state(self).recv(timeout).cmds,
    {
        match self {
            State::Idle => {
                let next = State::start_recv(ctx, inner, timeout);
                assert(next == old(inner).with_state(self).start_recv(timeout).next.state);
                next
            },
            any => {
                assert(ctx@ =~= old(ctx)@ + Seq::<ProtoCmd>::empty());
                any
            },
        }
    }

    fn on_recv_ack(self, ctx: &mut Context, inner: &mut Inner, eid: EndpointId, msg: Message) -> (next:
        State)
        requires
            old(inner).fq.wf(),
        ensures
            final(inner).fq.wf(),
            final(inner).with_state(next) == old(inner).with_state(self).on_recv_ack(eid, msg).next,
            final(ctx)@ == old(ctx)@ + old(inner).with_state(self).on_recv_ack(eid, msg).cmds,
    {
        match self {
            State::Receiving(id, timeout) => {
                if id == eid {
                    inner.on_recv_ack(ctx, timeout, msg);
                    State::Idle
                } else {
                    assert(ctx@ =~= old(ctx)@ + Seq::<ProtoCmd>::empty());
                    State::Receiving(id, timeout)
                }
            },
            any => {
                assert(ctx@ =~= old(ctx)@ + Seq::<ProtoCmd>::empty());
                any
            },
        }
    }

    fn on_recv_timeout(self, ctx: &mut Context, inner: &mut Inner) -> (next: State)
        ensures
            *final(inner) == *old(inner),
            next == old(inner).with_state(self).on_recv_timeout().next.state,
            final(ctx)@ == old(ctx)@ + old(inner).with_state(self).on_recv_timeout().cmds,
    {
        match self {
            State::Idle => {
                assert(ctx@ =~= old(ctx)@ + Seq::<ProtoCmd>::empty());
                State::Idle
            },
            _ => {
                inner.on_recv_timeout(ctx);
                State::Idle
            },
        }
    }

    fn on_recv_ready(self, ctx: &mut Context, inner: &mut Inner, eid: EndpointId) -> (next: State)
        requires
            old(inner).fq.wf(),
        ensures
            final(inner).fq.wf(),
            final(inner).with_state(next) == old(inner).with_state(self).on_recv_ready(eid).next,
            final(ctx)@ == old(ctx)@ + old(inner).with_state(self).on_recv_ready(eid).cmds,
    {
        inner.on_recv_ready(eid);

        match self {
            State::RecvOnHold(timeout) => {
                let ghost ready = inner.with_state(self);
                let next = State::start_recv(ctx, inner, timeout);
                assert(next == ready.start_recv(timeout).next.state);
                next
            },
            any => {
                assert(ctx@ =~= old(ctx)@ + Seq::<ProtoCmd>::empty());
                any
            },
        }
    }
}

impl Pull {
    /// The invariant that every operation keeps.
    pub open spec fn wf(&self) -> bool {
        self@.wf()
    }

    /// A PULL socket without pipes, at rest.
    pub fn new() -> (pull: Pull)
        ensures
            pull@ == PullView::empty(),
            pull.wf(),
    {
        let pull = Pull { inner: Inner { pipes: HashMap::new(), fq: PrioList::new() }, state: State::Idle };
        assert(pull@.pipes =~= Map::<usize, Pipe>::empty());
        pull
    }

    /// The protocol identifier of PULL.
    pub fn id(&self) -> (id: u16)
        ensures
            id == PULL,
    {
        PULL
    }

    /// The protocol identifier of the peer, PUSH.
    pub fn peer_id(&self) -> (id: u16)
        ensures
            id == PUSH,
    {
        PUSH
    }

    /// The state of the socket.
    pub fn state(&self) -> (state: State)
        ensures
            state == self@.state,
    {
        self.state
    }

    /// Takes a pipe in. It joins the fair queue, inactive, with its receive
    /// priority.
    pub fn add_pipe(&mut self, ctx: &mut Context, eid: EndpointId, pipe: Pipe)
        requires
            old(self).wf(),
            pipe.wf(),
        ensures
            final(self)@ == old(self)@.add_pipe(eid, pipe),
            final(self).wf(),
            final(ctx)@ == old(ctx)@,
    {
        let ghost before = self.inner.with_state(self.state);
        self.inner.add_pipe(eid, pipe);
        assert(self.inner.with_state(self.state) == before.add_pipe(eid, pipe));
    }

    /// Gives a pipe up, and hands it back if the socket had it. A receive
    /// that the pipe was serving is put on hold.
    pub fn remove_pipe(&mut self, ctx: &mut Context, eid: EndpointId) -> (pipe: Option<Pipe>)
        requires
            old(self).wf(),
        ensures
            final(self)@ == old(self)@.remove_pipe(eid),
            final(self).wf(),
            final(ctx)@ == old(ctx)@,
            pipe == if old(self)@.pipes.contains_key(eid.0) {
                Some(old(self)@.pipes[eid.0])
            } else {
                None
            },
    {
        let pipe = self.inner.remove_pipe(eid);

        if pipe.is_some() {
            self.state = self.state.on_pipe_removed(eid);
        }

        pipe
    }

    /// A send is refused at once: the user gets an error of kind `Other`,
    /// and the timer of the send is cancelled.
    pub fn send(&mut self, ctx: &mut Context, msg: Message, timeout: Timeout)
        ensures
            final(self)@ == old(self)@,
            final(ctx)@ == old(ctx)@ + old(self)@.send(timeout).cmds,
    {
        let ghost before = self.inner.with_state(self.state);
        self.inner.send(ctx, timeout);
        assert(ctx@ == old(ctx)@ + before.send(timeout).cmds);
    }

    /// Nothing is ever sent, so no pipe acknowledges a send.
    pub fn on_send_ack(&mut self, ctx: &mut Context, eid: EndpointId)
        ensures
            final(self)@ == old(self)@,
            final(ctx)@ == old(ctx)@,
    {
    }

    /// Nothing is ever sent, so no send runs out of time.
    pub fn on_send_timeout(&mut self, ctx: &mut Context)
        ensures
            final(self)@ == old(self)@,
            final(ctx)@ == old(ctx)@,
    {
    }

    /// Nothing is ever sent, so it does not matter which pipe could send.
    pub fn on_send_ready(&mut self, ctx: &mut Context, eid: EndpointId)
        ensures
            final(self)@ == old(self)@,
            final(ctx)@ == old(ctx)@,
    {
    }

    /// The user asks for a message. The pipe on which the fair queue rests
    /// is asked for one; if there is none, the receive is put on hold. While
    /// a receive is pending, a second one is ignored.
    pub fn recv(&mut self, ctx: &mut Context, timeout: Timeout)
        requires
            old(self).wf(),
        ensures
            final(self)@ == old(self)@.recv(timeout).next,
            final(ctx)@ == old(ctx)@ + old(self)@.recv(timeout).cmds,
            final(self).wf(),
    {
        self.state = self.state.recv(ctx, &mut self.inner, timeout);
    }

    /// A pipe hands over a message. If it is the pipe that was asked, the
    /// user gets the message, the timer of the receive is cancelled and the
    /// fair queue moves on to the next pipe.
    pub fn on_recv_ack(&mut self, ctx: &mut Context, eid: EndpointId, msg: Message)
        requires
            old(self).wf(),
        ensures
            final(self)@ == old(self)@.on_recv_ack(eid, msg).next,
            final(ctx)@ == old(ctx)@ + old(self)@.on_recv_ack(eid, msg).cmds,
            final(self).wf(),
    {
        self.state = self.state.on_recv_ack(ctx, &mut self.inner, eid, msg);
    }

    /// The deadline of the receive has passed: the user gets an error of
    /// kind `TimedOut`.
    pub fn on_recv_timeout(&mut self, ctx: &mut Context)
        requires
            old(self).wf(),
        ensures
            final(self)@ == old(self)@.on_recv_timeout().next,
            final(ctx)@ == old(ctx)@ + old(self)@.on_recv_timeout().cmds,
            final(self).wf(),
    {
        self.state = self.state.on_recv_timeout(ctx, &mut self.inner);
    }

    /// A pipe reports that it can receive. It becomes active in the fair
    /// queue, and a receive on hold is started.
    pub fn on_recv_ready(&mut self, ctx: &mut Context, eid: EndpointId)
        requires
            old(self).wf(),
        ensures
            final(self)@ == old(self)@.on_recv_ready(eid).next,
            final(ctx)@ == old(ctx)@ + old(self)@.on_recv_ready(eid).cmds,
            final(self).wf(),
    {
        self.state = self.state.on_recv_ready(ctx, &mut self.inner, eid);
    }
}

} // verus!
