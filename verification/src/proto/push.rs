//! PUSH: sends through its pipes in load-balancing order, and does not
//! receive.
//!
//! At most one send is under way. It goes to the pipe on which the load
//! balancer rests. When no pipe can send, the message is put on hold until
//! one reports that it can, or until the deadline.

use std::collections::HashMap;
use std::rc::Rc;
use vstd::prelude::*;
use crate::error::{other_io_error, timedout_io_error, Error, ErrorKind};
use crate::ids::EndpointId;
use crate::message::{share, Message};
use crate::prio_state::PrioState;
use crate::priolist::PrioList;
use crate::proto::context::{
    cancelled,
    lemma_replies_concat,
    lemma_replies_short,
    recv_replies,
    send_replies,
    Context,
    ProtoCmd,
    Reply,
    Timeout,
};
use crate::proto::pipe::Pipe;
use crate::socket_type::{PULL, PUSH};

verus! {

broadcast use vstd::std_specs::hash::group_hash_axioms;

/// Where a PUSH socket stands with the user's send.
#[derive(Debug, PartialEq, Eq, Clone)]
pub enum State {
    /// No send is pending.
    Idle,
    /// The pipe of this endpoint was given the message.
    Sending(EndpointId, Rc<Message>, Timeout),
    /// A send is pending, and no pipe could take the message yet.
    SendOnHold(Rc<Message>, Timeout),
}

/// The content of a PUSH socket: its state, its pipes by the number of
/// their endpoint, and its load balancer.
pub struct PushView {
    pub state: State,
    pub pipes: Map<usize, Pipe>,
    pub lb: PrioState,
}

/// The outcome of a step: the content that follows, and what the step wrote
/// into the context.
pub struct PushStep {
    pub next: PushView,
    pub cmds: Seq<ProtoCmd>,
}

/// The error that answers a receive.
pub open spec fn recv_not_supported() -> Error {
    Error { kind: ErrorKind::Other, message: "Recv is not supported by push protocol" }
}

/// The error that answers a send whose deadline has passed.
pub open spec fn send_timed_out() -> Error {
    Error { kind: ErrorKind::TimedOut, message: "Send timed out" }
}

impl PushView {
    /// The invariant: the load balancer is well formed.
    pub open spec fn wf(self) -> bool {
        self.lb.wf()
    }

    /// A socket without pipes, at rest.
    pub open spec fn empty() -> PushView {
        PushView { state: State::Idle, pipes: Map::empty(), lb: PrioState::empty() }
    }

    /// The same content in another state.
    pub open spec fn with_state(self, state: State) -> PushView {
        PushView { state, pipes: self.pipes, lb: self.lb }
    }

    /// A step that changes nothing.
    pub open spec fn ignore(self) -> PushStep {
        PushStep { next: self, cmds: Seq::empty() }
    }

    /// The number of sends that the socket owes an answer to.
    pub open spec fn owed(self) -> nat {
        match self.state {
            State::Idle => 0,
            _ => 1,
        }
    }

    /// `add_pipe`: the pipe joins the load balancer, inactive, with its send
    /// priority.
    pub open spec fn add_pipe(self, eid: EndpointId, pipe: Pipe) -> PushView {
        PushView {
            state: self.state,
            pipes: self.pipes.insert(eid.0, pipe),
            lb: self.lb.insert(eid, pipe.send_priority),
        }
    }

    /// `remove_pipe`: the pipe leaves. A message that it was sending is put
    /// on hold, with its deadline.
    pub open spec fn remove_pipe(self, eid: EndpointId) -> PushView {
        PushView {
            state: if self.pipes.contains_key(eid.0) {
                match self.state {
                    State::Sending(id, msg, timeout) => if id == eid {
                        State::SendOnHold(msg, timeout)
                    } else {
                        self.state
                    },
                    _ => self.state,
                }
            } else {
                self.state
            },
            pipes: self.pipes.remove(eid.0),
            lb: self.lb.remove(eid),
        }
    }

    /// The pipe that takes the next message: the one on which the load
    /// balancer rests, if the socket has it.
    pub open spec fn next_pipe(self) -> Option<EndpointId> {
        match self.lb.get() {
            Some(eid) => if self.pipes.contains_key(eid.0) {
                Some(eid)
            } else {
                None
            },
            None => None,
        }
    }

    /// A send is started: the next pipe is given the message, or the message
    /// is put on hold.
    pub open spec fn start_send(self, msg: Rc<Message>, timeout: Timeout) -> PushStep {
        match self.next_pipe() {
            Some(eid) => PushStep {
                next: self.with_state(State::Sending(eid, msg, timeout)),
                cmds: seq![ProtoCmd::Send(eid, msg)],
            },
            None => PushStep {
                next: self.with_state(State::SendOnHold(msg, timeout)),
                cmds: Seq::empty(),
            },
        }
    }

    /// `send`: a send is started if none is pending, and ignored otherwise.
    pub open spec fn send(self, msg: Rc<Message>, timeout: Timeout) -> PushStep {
        match self.state {
            State::Idle => self.start_send(msg, timeout),
            _ => self.ignore(),
        }
    }

    /// `recv`: refused at once, and its timer is cancelled.
    pub open spec fn recv(self, timeout: Timeout) -> PushStep {
        PushStep {
            next: self,
            cmds: seq![ProtoCmd::ReplyRecv(Reply::Error(recv_not_supported()))] + cancelled(
                timeout,
            ),
        }
    }

    /// `on_send_ack`: when the pipe that was given the message has sent it,
    /// the user is told so, the timer is cancelled, and the load balancer
    /// moves on. From any other pipe, or with no send under way, the
    /// acknowledgement is ignored.
    pub open spec fn on_send_ack(self, eid: EndpointId) -> PushStep {
        match self.state {
            State::Sending(id, _, timeout) => if id == eid {
                PushStep {
                    next: PushView {
                        state: State::Idle,
                        pipes: self.pipes,
                        lb: self.lb.advance(),
                    },
                    cmds: seq![ProtoCmd::ReplySend(Reply::Sent)] + cancelled(timeout),
                }
            } else {
                self.ignore()
            },
            _ => self.ignore(),
        }
    }

    /// `on_send_timeout`: a pending send is answered with an error of kind
    /// `TimedOut`. With none pending, nothing happens.
    pub open spec fn on_send_timeout(self) -> PushStep {
        match self.state {
            State::Idle => self.ignore(),
            _ => PushStep {
                next: self.with_state(State::Idle),
                cmds: seq![ProtoCmd::ReplySend(Reply::Error(send_timed_out()))],
            },
        }
    }

    /// `on_send_ready`: the pipe becomes active in the load balancer, and a
    /// message on hold is sent.
    pub open spec fn on_send_ready(self, eid: EndpointId) -> PushStep {
        let ready = PushView { state: self.state, pipes: self.pipes, lb: self.lb.activate(eid) };
        match self.state {
            State::SendOnHold(msg, timeout) => ready.start_send(msg, timeout),
            _ => ready.ignore(),
        }
    }

    /// Every step keeps the invariant, and answers exactly the sends and
    /// receives that it owes an answer: a receive is answered at once; a
    /// send is owed an answer from the step that accepts it to the step that
    /// answers it, and no more than one send is owed an answer at a time.
    pub proof fn lemma_steps(self, eid: EndpointId, pipe: Pipe, msg: Rc<Message>, timeout: Timeout)
        requires
            self.wf(),
        ensures
            pipe.wf() ==> self.add_pipe(eid, pipe).wf(),
            self.add_pipe(eid, pipe).owed() == self.owed(),
            self.remove_pipe(eid).wf(),
            self.remove_pipe(eid).owed() == self.owed(),
            accounted(self, self.send(msg, timeout), 0, if self.state is Idle {
                1
            } else {
                0
            }),
            accounted(self, self.recv(timeout), 1, 0),
            accounted(self, self.on_send_ack(eid), 0, 0),
            accounted(self, self.on_send_timeout(), 0, 0),
            accounted(self, self.on_send_ready(eid), 0, 0),
    {
        if pipe.wf() {
            self.lb.lemma_insert_wf(eid, pipe.send_priority);
        }
        self.lb.lemma_remove_wf(eid);
        self.lb.lemma_advance_wf();
        self.lb.lemma_activate_wf(eid);
        let any = ProtoCmd::Recv(eid);
        lemma_replies_short(any, any);
        lemma_replies_short(ProtoCmd::ReplyRecv(Reply::Error(recv_not_supported())), any);
        lemma_replies_short(ProtoCmd::ReplySend(Reply::Sent), any);
        lemma_replies_short(ProtoCmd::ReplySend(Reply::Error(send_timed_out())), any);
        if let Some(s) = timeout {
            lemma_replies_short(ProtoCmd::Cancel(s), any);
        }
        lemma_replies_concat(
            seq![ProtoCmd::ReplyRecv(Reply::Error(recv_not_supported()))],
            cancelled(timeout),
        );
        if let State::Sending(id, m, t) = self.state {
            if let Some(s) = t {
                lemma_replies_short(ProtoCmd::Cancel(s), any);
            }
            lemma_replies_concat(seq![ProtoCmd::ReplySend(Reply::Sent)], cancelled(t));
        }
        let ready = PushView { state: self.state, pipes: self.pipes, lb: self.lb.activate(eid) };
        if let Some(next) = ready.next_pipe() {
            if let State::SendOnHold(m, t) = self.state {
                lemma_replies_short(ProtoCmd::Send(next, m), any);
            }
        }
        if let Some(next) = self.next_pipe() {
            lemma_replies_short(ProtoCmd::Send(next, msg), any);
        }
    }
}

/// A step keeps the invariant and accounts for every answer: what the socket
/// owed before, and the sends that the step accepts, are either answered by
/// the step or owed afterwards; and the step answers `recvs` receives.
pub open spec fn accounted(before: PushView, step: PushStep, recvs: nat, accepted: nat) -> bool {
    &&& step.next.wf()
    &&& recv_replies(step.cmds) == recvs
    &&& before.owed() + accepted == send_replies(step.cmds) + step.next.owed()
    &&& step.next.owed() <= 1
}

/// PUSH, the sending end of a pipeline.
pub struct Push {
    pipes: HashMap<usize, Pipe>,
    lb: PrioList,
    state: State,
}

impl View for Push {
    type V = PushView;

    closed spec fn view(&self) -> PushView {
        PushView { state: self.state, pipes: self.pipes@, lb: self.lb@ }
    }
}

impl Push {
    /// The invariant that every operation keeps.
    pub open spec fn wf(&self) -> bool {
        self@.wf()
    }

    /// A PUSH socket without pipes, at rest.
    pub fn new() -> (push: Push)
        ensures
            push@ == PushView::empty(),
            push.wf(),
    {
        let push = Push { pipes: HashMap::new(), lb: PrioList::new(), state: State::Idle };
        assert(push@.pipes =~= Map::<usize, Pipe>::empty());
        push
    }

    /// The protocol identifier of PUSH.
    pub fn id(&self) -> (id: u16)
        ensures
            id == PUSH,
    {
        PUSH
    }

    /// The protocol identifier of the peer, PULL.
    pub fn peer_id(&self) -> (id: u16)
        ensures
            id == PULL,
    {
        PULL
    }

    /// Whether a send is pending.
    pub fn is_sending(&self) -> (pending: bool)
        ensures
            pending == (self@.owed() == 1),
    {
        match self.state {
            State::Idle => false,
            _ => true,
        }
    }

    fn take_state(&mut self) -> (state: State)
        ensures
            state == old(self)@.state,
            final(self)@ == old(self)@.with_state(State::Idle),
    {
        let mut state = State::Idle;
        std::mem::swap(&mut self.state, &mut state);
        state
    }

    /// Takes a pipe in. It joins the load balancer, inactive, with its send
    /// priority.
    pub fn add_pipe(&mut self, ctx: &mut Context, eid: EndpointId, pipe: Pipe)
        requires
            old(self).wf(),
            pipe.wf(),
        ensures
            final(self)@ == old(self)@.add_pipe(eid, pipe),
            final(self).wf(),
            final(ctx)@ == old(ctx)@,
    {
        self.lb.insert(eid, pipe.get_send_priority());
        self.pipes.insert(eid.0, pipe);
    }

    /// Gives a pipe up, and hands it back if the socket had it. A message
    /// that the pipe was sending is put on hold.
    pub fn remove_pipe(&mut self, ctx: &mut Context, eid: EndpointId) -> (pipe: Option<Pipe>)
        requires
            old(self).wf(),
        ensures
            final(self)@ == old(self)@.remove_pipe(eid),
            final(self).wf(),
            final(ctx)@ == old(ctx)@,
            pipe == if old(self)@.pipes.contains_key(eid.0) {
                Some(old(self)@.pipes[eid.0])
            } else {
                None
            },
    {
        self.lb.remove(eid);
        let pipe = self.pipes.remove(&eid.0);

        if pipe.is_some() {
            let state = self.take_state();
            self.state = match state {
                State::Sending(id, msg, timeout) => {
                    if id == eid {
                        State::SendOnHold(msg, timeout)
                    } else {
                        State::Sending(id, msg, timeout)
                    }
                },
                any => any,
            };
        }

        pipe
    }

    fn start_send(&mut self, ctx: &mut Context, msg: Rc<Message>, timeout: Timeout)
        requires
            old(self).wf(),
        ensures
            final(self)@ == old(self)@.start_send(msg, timeout).next,
            final(ctx)@ == old(ctx)@ + old(self)@.start_send(msg, timeout).cmds,
            final(self).wf(),
    {
        let target = match self.lb.get() {
            Some(eid) => if self.pipes.contains_key(&eid.0) {
                Some(eid)
            } else {
                None
            },
            None => None,
        };
        match target {
            Some(eid) => {
                ctx.push(ProtoCmd::Send(eid, share(&msg)));
                self.state = State::Sending(eid, msg, timeout);
                assert(ctx@ =~= old(ctx)@ + seq![ProtoCmd::Send(eid, msg)]);
            },
            None => {
                self.state = State::SendOnHold(msg, timeout);
                assert(ctx@ =~= old(ctx)@ + Seq::<ProtoCmd>::empty());
            },
        }
    }

    /// The user hands over a message. It goes to the pipe on which the load
    /// balancer rests; if there is none, it is put on hold. While a send is
    /// pending, a second one is ignored.
    pub fn send(&mut self, ctx: &mut Context, msg: Message, timeout: Timeout)
        requires
            old(self).wf(),
        ensures
            final(self)@ == old(self)@.send(Rc::new(msg), timeout).next,
            final(ctx)@ == old(ctx)@ + old(self)@.send(Rc::new(msg), timeout).cmds,
            final(self).wf(),
    {
        if self.is_sending() {
            assert(ctx@ =~= old(ctx)@ + Seq::<ProtoCmd>::empty());
        } else {
            self.start_send(ctx, Rc::new(msg), timeout);
        }
    }

    /// A pipe has sent its message. If it is the pipe that was given the
    /// user's message, the user is told that it is sent, the timer of the
    /// send is cancelled and the load balancer moves on to the next pipe.
    pub fn on_send_ack(&mut self, ctx: &mut Context, eid: EndpointId)
        requires
            old(self).wf(),
        ensures
            final(self)@ == old(self)@.on_send_ack(eid).next,
            final(ctx)@ == old(ctx)@ + old(self)@.on_send_ack(eid).cmds,
            final(self).wf(),
    {
        proof {
            self@.lb.lemma_advance_wf();
        }
        let state = self.take_state();
        match state {
            State::Sending(id, msg, timeout) => {
                if id == eid {
                    ctx.reply_send(Reply::Sent);
                    ctx.cancel_timeout(timeout);
                    self.lb.advance();
                    assert(ctx@ =~= old(ctx)@ + (seq![ProtoCmd::ReplySend(Reply::Sent)]
                        + cancelled(timeout)));
                } else {
                    self.state = State::Sending(id, msg, timeout);
                    assert(ctx@ =~= old(ctx)@ + Seq::<ProtoCmd>::empty());
                }
            },
            any => {
                self.state = any;
                assert(ctx@ =~= old(ctx)@ + Seq::<ProtoCmd>::empty());
            },
        }
    }

    /// The deadline of the send has passed: the user gets an error of kind
    /// `TimedOut`, and the message is given up.
    pub fn on_send_timeout(&mut self, ctx: &mut Context)
        requires
            old(self).wf(),
        ensures
            final(self)@ == old(self)@.on_send_timeout().next,
            final(ctx)@ == old(ctx)@ + old(self)@.on_send_timeout().cmds,
            final(self).wf(),
    {
        if self.is_sending() {
            let error = timedout_io_error("Send timed out");
            ctx.reply_send(Reply::Error(error));
            self.state = State::Idle;
            assert(ctx@ =~= old(ctx)@ + seq![ProtoCmd::ReplySend(Reply::Error(send_timed_out()))]);
        } else {
            assert(ctx@ =~= old(ctx)@ + Seq::<ProtoCmd>::empty());
        }
    }

    /// A pipe reports that it can send. It becomes active in the load
    /// balancer, and a message on hold is sent.
    pub fn on_send_ready(&mut self, ctx: &mut Context, eid: EndpointId)
        requires
            old(self).wf(),
        ensures
            final(self)@ == old(self)@.on_send_ready(eid).next,
            final(ctx)@ == old(ctx)@ + old(self)@.on_send_ready(eid).cmds,
            final(self).wf(),
    {
        self.lb.activate(eid);
        let state = self.take_state();
        match state {
            State::SendOnHold(msg, timeout) => {
                self.start_send(ctx, msg, timeout);
            },
            any => {
                self.state = any;
                assert(ctx@ =~= old(ctx)@ + Seq::<ProtoCmd>::empty());
            },
        }
    }

    /// A receive is refused at once: the user gets an error of kind `Other`,
    /// and the timer of the receive is cancelled.
    pub fn recv(&mut self, ctx: &mut Context, timeout: Timeout)
        ensures
            final(self)@ == old(self)@,
            final(ctx)@ == old(ctx)@ + old(self)@.recv(timeout).cmds,
    {
        let error = other_io_error("Recv is not supported by push protocol");
        ctx.reply_recv(Reply::Error(error));
        ctx.cancel_timeout(timeout);
        assert(ctx@ =~= old(ctx)@ + (seq![ProtoCmd::ReplyRecv(Reply::Error(recv_not_supported()))]
            + cancelled(timeout)));
    }

    /// Nothing is ever asked of a pipe, so no pipe hands over a message.
    pub fn on_recv_ack(&mut self, ctx: &mut Context, eid: EndpointId, msg: Message)
        ensures
            final(self)@ == old(self)@,
            final(ctx)@ == old(ctx)@,
    {
    }

    /// Nothing is ever received, so no receive runs out of time.
    pub fn on_recv_timeout(&mut self, ctx: &mut Context)
        ensures
            final(self)@ == old(self)@,
            final(ctx)@ == old(ctx)@,
    {
    }

    /// Nothing is ever received, so it does not matter which pipe could
    /// receive.
    pub fn on_recv_ready(&mut self, ctx: &mut Context, eid: EndpointId)
        ensures
            final(self)@ == old(self)@,
            final(ctx)@ == old(ctx)@,
    {
    }
}

} // verus!
