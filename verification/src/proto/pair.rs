//! PAIR: one peer, and messages in both directions.
//!
//! A PAIR socket has one pipe at most. A pipe that is added while it has one
//! is refused and closed. At most one send and one receive are under way.

use std::rc::Rc;
use vstd::prelude::*;
use crate::error::{invalid_input_io_error, timedout_io_error, Error, ErrorKind};
use crate::ids::EndpointId;
use crate::message::{share, Message};
use crate::proto::context::{
    cancelled,
    lemma_replies_concat,
    lemma_replies_short,
    recv_replies,
    send_replies,
    Context,
    ProtoCmd,
    Reply,
    Timeout,
};
use crate::proto::pipe::Pipe;
use crate::socket_type::PAIR;

verus! {

/// Where a PAIR socket stands with the user's send.
#[derive(Debug, PartialEq, Eq, Clone)]
pub enum SendState {
    /// No send is pending.
    Idle,
    /// The pipe was given the message.
    Sending(Rc<Message>, Timeout),
    /// A send is pending, and the pipe could not take the message yet.
    OnHold(Rc<Message>, Timeout),
}

/// Where a PAIR socket stands with the user's receive.
#[derive(Debug, PartialEq, Eq, Clone, Copy)]
pub enum RecvState {
    /// No receive is pending.
    Idle,
    /// The pipe was asked for a message.
    Receiving(Timeout),
    /// A receive is pending, and the pipe could not serve it yet.
    OnHold(Timeout),
}

/// The content of a PAIR socket: its pipe with the endpoint that it belongs
/// to, whether the pipe can send and receive, and where the user's send and
/// receive stand.
pub struct PairView {
    pub peer: Option<(EndpointId, Pipe)>,
    pub can_send: bool,
    pub can_recv: bool,
    pub send: SendState,
    pub recv: RecvState,
}

/// The outcome of a step: the content that follows, and what the step wrote
/// into the context.
pub struct PairStep {
    pub next: PairView,
    pub cmds: Seq<ProtoCmd>,
}

/// The error that answers a second pipe.
pub open spec fn has_peer_already() -> Error {
    Error { kind: ErrorKind::InvalidInput, message: "pair socket has a peer already" }
}

/// The error that answers a send whose deadline has passed.
pub open spec fn send_timed_out() -> Error {
    Error { kind: ErrorKind::TimedOut, message: "Send timed out" }
}

/// The error that answers a receive whose deadline has passed.
pub open spec fn recv_timed_out() -> Error {
    Error { kind: ErrorKind::TimedOut, message: "Recv timed out" }
}

impl PairView {
    /// A socket without a pipe, at rest.
    pub open spec fn empty() -> PairView {
        PairView {
            peer: None,
            can_send: false,
            can_recv: false,
            send: SendState::Idle,
            recv: RecvState::Idle,
        }
    }

    /// A step that changes nothing.
    pub open spec fn ignore(self) -> PairStep {
        PairStep { next: self, cmds: Seq::empty() }
    }

    /// The number of sends that the socket owes an answer to.
    pub open spec fn owed_send(self) -> nat {
        match self.send {
            SendState::Idle => 0,
            _ => 1,
        }
    }

    /// The number of receives that the socket owes an answer to.
    pub open spec fn owed_recv(self) -> nat {
        match self.recv {
            RecvState::Idle => 0,
            _ => 1,
        }
    }

    /// The pipe belongs to the endpoint `eid`.
    pub open spec fn is_peer(self, eid: EndpointId) -> bool {
        self.peer matches Some((id, _)) && id == eid
    }

    /// The pipes of the socket, by the number of their endpoint.
    pub open spec fn pipes(self) -> Map<usize, Pipe> {
        match self.peer {
            Some((id, pipe)) => Map::empty().insert(id.0, pipe),
            None => Map::empty(),
        }
    }

    /// `add_pipe`: the first pipe is taken; any further one is refused, and
    /// its closing is asked for.
    pub open spec fn add_pipe(self, eid: EndpointId, pipe: Pipe) -> (PairStep, Result<(), Error>) {
        match self.peer {
            None => (
                PairStep {
                    next: PairView {
                        peer: Some((eid, pipe)),
                        can_send: false,
                        can_recv: false,
                        send: self.send,
                        recv: self.recv,
                    },
                    cmds: Seq::empty(),
                },
                Ok(()),
            ),
            Some(_) => (
                PairStep { next: self, cmds: seq![ProtoCmd::Close(eid)] },
                Err(has_peer_already()),
            ),
        }
    }

    /// `remove_pipe`: the pipe leaves. A send or a receive that it was
    /// serving is put on hold, with its deadline.
    pub open spec fn remove_pipe(self, eid: EndpointId) -> PairView {
        if self.is_peer(eid) {
            PairView {
                peer: None,
                can_send: false,
                can_recv: false,
                send: match self.send {
                    SendState::Sending(msg, timeout) => SendState::OnHold(msg, timeout),
                    other => other,
                },
                recv: match self.recv {
                    RecvState::Receiving(timeout) => RecvState::OnHold(timeout),
                    other => other,
                },
            }
        } else {
            self
        }
    }

    /// A send is started: the pipe is given the message if it can send, or
    /// the message is put on hold.
    pub open spec fn start_send(self, msg: Rc<Message>, timeout: Timeout) -> PairStep {
        match self.peer {
            Some((eid, _)) => if self.can_send {
                PairStep {
                    next: PairView {
                        peer: self.peer,
                        can_send: false,
                        can_recv: self.can_recv,
                        send: SendState::Sending(msg, timeout),
                        recv: self.recv,
                    },
                    cmds: seq![ProtoCmd::Send(eid, msg)],
                }
            } else {
                self.hold_send(msg, timeout)
            },
            None => self.hold_send(msg, timeout),
        }
    }

    /// The message is put on hold.
    pub open spec fn hold_send(self, msg: Rc<Message>, timeout: Timeout) -> PairStep {
        PairStep {
            next: PairView {
                peer: self.peer,
                can_send: self.can_send,
                can_recv: self.can_recv,
                send: SendState::OnHold(msg, timeout),
                recv: self.recv,
            },
            cmds: Seq::empty(),
        }
    }

    /// `send`: a send is started if none is pending, and ignored otherwise.
    pub open spec fn send(self, msg: Rc<Message>, timeout: Timeout) -> PairStep {
        match self.send {
            SendState::Idle => self.start_send(msg, timeout),
            _ => self.ignore(),
        }
    }

    /// `on_send_ack`: when the pipe has sent the user's message, the user is
    /// told so, the timer is cancelled, and the pipe can send again.
    pub open spec fn on_send_ack(self, eid: EndpointId) -> PairStep {
        match self.send {
            SendState::Sending(_, timeout) => if self.is_peer(eid) {
                PairStep {
                    next: PairView {
                        peer: self.peer,
                        can_send: true,
                        can_recv: self.can_recv,
                        send: SendState::Idle,
                        recv: self.recv,
                    },
                    cmds: seq![ProtoCmd::ReplySend(Reply::Sent)] + cancelled(timeout),
                }
            } else {
                self.ignore()
            },
            _ => self.ignore(),
        }
    }

    /// `on_send_timeout`: a pending send is answered with an error of kind
    /// `TimedOut`.
    pub open spec fn on_send_timeout(self) -> PairStep {
        match self.send {
            SendState::Idle => self.ignore(),
            _ => PairStep {
                next: PairView {
                    peer: self.peer,
                    can_send: self.can_send,
                    can_recv: self.can_recv,
                    send: SendState::Idle,
                    recv: self.recv,
                },
                cmds: seq![ProtoCmd::ReplySend(Reply::Error(send_timed_out()))],
            },
        }
    }

    /// `on_send_ready`: the pipe can send, and a message on hold is sent.
    pub open spec fn on_send_ready(self, eid: EndpointId) -> PairStep {
        if self.is_peer(eid) {
            let ready = PairView {
                peer: self.peer,
                can_send: true,
                can_recv: self.can_recv,
                send: self.send,
                recv: self.recv,
            };
            match self.send {
                SendState::OnHold(msg, timeout) => ready.start_send(msg, timeout),
                _ => ready.ignore(),
            }
        } else {
            self.ignore()
        }
    }

    /// A receive is started: the pipe is asked for a message if it can
    /// receive, or the receive is put on hold.
    pub open spec fn start_recv(self, timeout: Timeout) -> PairStep {
        match self.peer {
            Some((eid, _)) => if self.can_recv {
                PairStep {
                    next: PairView {
                        peer: self.peer,
                        can_send: self.can_send,
                        can_recv: false,
                        send: self.send,
                        recv: RecvState::Receiving(timeout),
                    },
                    cmds: seq![ProtoCmd::Recv(eid)],
                }
            } else {
                self.hold_recv(timeout)
            },
            None => self.hold_recv(timeout),
        }
    }

    /// The receive is put on hold.
    pub open spec fn hold_recv(self, timeout: Timeout) -> PairStep {
        PairStep {
            next: PairView {
                peer: self.peer,
                can_send: self.can_send,
                can_recv: self.can_recv,
                send: self.send,
                recv: RecvState::OnHold(timeout),
            },
            cmds: Seq::empty(),
        }
    }

    /// `recv`: a receive is started if none is pending, and ignored
    /// otherwise.
    pub open spec fn recv(self, timeout: Timeout) -> PairStep {
        match self.recv {
            RecvState::Idle => self.start_recv(timeout),
            _ => self.ignore(),
        }
    }

    /// `on_recv_ack`: the message of the pipe answers the receive, and its
    /// timer is cancelled.
    pub open spec fn on_recv_ack(self, eid: EndpointId, msg: Message) -> PairStep {
        match self.recv {
            RecvState::Receiving(timeout) => if self.is_peer(eid) {
                PairStep {
                    next: PairView {
                        peer: self.peer,
                        can_send: self.can_send,
                        can_recv: self.can_recv,
                        send: self.send,
                        recv: RecvState::Idle,
                    },
                    cmds: seq![ProtoCmd::ReplyRecv(Reply::Recv(msg))] + cancelled(timeout),
                }
            } else {
                self.ignore()
            },
            _ => self.ignore(),
        }
    }

    /// `on_recv_timeout`: a pending receive is answered with an error of
    /// kind `TimedOut`.
    pub open spec fn on_recv_timeout(self) -> PairStep {
        match self.recv {
            RecvState::Idle => self.ignore(),
            _ => PairStep {
                next: PairView {
                    peer: self.peer,
                    can_send: self.can_send,
                    can_recv: self.can_recv,
                    send: self.send,
                    recv: RecvState::Idle,
                },
                cmds: seq![ProtoCmd::ReplyRecv(Reply::Error(recv_timed_out()))],
            },
        }
    }

    /// `on_recv_ready`: the pipe can receive, and a receive on hold is
    /// started.
    pub open spec fn on_recv_ready(self, eid: EndpointId) -> PairStep {
        if self.is_peer(eid) {
            let ready = PairView {
                peer: self.peer,
                can_send: self.can_send,
                can_recv: true,
                send: self.send,
                recv: self.recv,
            };
            match self.recv {
                RecvState::OnHold(timeout) => ready.start_recv(timeout),
                _ => ready.ignore(),
            }
        } else {
            self.ignore()
        }
    }

    /// Every step answers exactly the sends and receives that it owes an
    /// answer: each is owed an answer from the step that accepts it to the
    /// step that answers it, and no more than one of each kind is owed an
    /// answer at a time.
    pub proof fn lemma_steps(self, eid: EndpointId, pipe: Pipe, msg: Message, timeout: Timeout)
        ensures
            accounted(self, self.add_pipe(eid, pipe).0, 0, 0),
            accounted(self, PairStep { next: self.remove_pipe(eid), cmds: Seq::empty() }, 0, 0),
            accounted(self, self.send(Rc::new(msg), timeout), if self.send is Idle {
                1
            } else {
                0
            }, 0),
            accounted(self, self.recv(timeout), 0, if self.recv is Idle {
                1
            } else {
                0
            }),
            accounted(self, self.on_send_ack(eid), 0, 0),
            accounted(self, self.on_send_timeout(), 0, 0),
            accounted(self, self.on_send_ready(eid), 0, 0),
            accounted(self, self.on_recv_ack(eid, msg), 0, 0),
            accounted(self, self.on_recv_timeout(), 0, 0),
            accounted(self, self.on_recv_ready(eid), 0, 0),
    {
        let any = ProtoCmd::OptionSet;
        lemma_replies_short(any, any);
        lemma_replies_short(ProtoCmd::Close(eid), any);
        lemma_replies_short(ProtoCmd::ReplySend(Reply::Sent), any);
        lemma_replies_short(ProtoCmd::ReplySend(Reply::Error(send_timed_out())), any);
        lemma_replies_short(ProtoCmd::ReplyRecv(Reply::Recv(msg)), any);
        lemma_replies_short(ProtoCmd::ReplyRecv(Reply::Error(recv_timed_out())), any);
        if let Some((peer, _)) = self.peer {
            lemma_replies_short(ProtoCmd::Send(peer, Rc::new(msg)), any);
            lemma_replies_short(ProtoCmd::Recv(peer), any);
            if let SendState::OnHold(m, t) = self.send {
                lemma_replies_short(ProtoCmd::Send(peer, m), any);
            }
        }
        if let SendState::Sending(m, t) = self.send {
            if let Some(s) = t {
                lemma_replies_short(ProtoCmd::Cancel(s), any);
            }
            lemma_replies_concat(seq![ProtoCmd::ReplySend(Reply::Sent)], cancelled(t));
        }
        if let RecvState::Receiving(t) = self.recv {
            if let Some(s) = t {
                lemma_replies_short(ProtoCmd::Cancel(s), any);
            }
            lemma_replies_concat(seq![ProtoCmd::ReplyRecv(Reply::Recv(msg))], cancelled(t));
        }
    }
}

/// A step accounts for every answer: what the socket owed before, and what
/// the step accepts, is either answered by the step or owed afterwards.
pub open spec fn accounted(before: PairView, step: PairStep, sends: nat, recvs: nat) -> bool {
    &&& before.owed_send() + sends == send_replies(step.cmds) + step.next.owed_send()
    &&& before.owed_recv() + recvs == recv_replies(step.cmds) + step.next.owed_recv()
    &&& step.next.owed_send() <= 1
    &&& step.next.owed_recv() <= 1
}

/// PAIR, one end of a conversation of two.
pub struct Pair {
    peer: Option<(EndpointId, Pipe)>,
    can_send: bool,
    can_recv: bool,
    send: SendState,
    recv: RecvState,
}

impl View for Pair {
    type V = PairView;

    closed spec fn view(&self) -> PairView {
        PairView {
            peer: self.peer,
            can_send: self.can_send,
            can_recv: self.can_recv,
            send: self.send,
            recv: self.recv,
        }
    }
}

impl Pair {
    /// A PAIR socket without a pipe, at rest.
    pub fn new() -> (pair: Pair)
        ensures
            pair@ == PairView::empty(),
    {
        Pair {
            peer: None,
            can_send: false,
            can_recv: false,
            send: SendState::Idle,
            recv: RecvState::Idle,
        }
    }

    /// The protocol identifier of PAIR.
    pub fn id(&self) -> (id: u16)
        ensures
            id == PAIR,
    {
        PAIR
    }

    /// The protocol identifier of the peer, PAIR.
    pub fn peer_id(&self) -> (id: u16)
        ensures
            id == PAIR,
    {
        PAIR
    }

    /// Whether a send is pending.
    pub fn is_sending(&self) -> (pending: bool)
        ensures
            pending == (self@.owed_send() == 1),
    {
        match self.send {
            SendState::Idle => false,
            _ => true,
        }
    }

    /// Whether a receive is pending.
    pub fn is_receiving(&self) -> (pending: bool)
        ensures
            pending == (self@.owed_recv() == 1),
    {
        match self.recv {
            RecvState::Idle => false,
            _ => true,
        }
    }

    fn is_peer(&self, eid: EndpointId) -> (yes: bool)
        ensures
            yes == self@.is_peer(eid),
    {
        match self.peer {
            Some((id, _)) => id == eid,
            None => false,
        }
    }

    fn take_send(&mut self) -> (state: SendState)
        ensures
            state == old(self)@.send,
            final(self)@ == (PairView {
                peer: old(self)@.peer,
                can_send: old(self)@.can_send,
                can_recv: old(self)@.can_recv,
                send: SendState::Idle,
                recv: old(self)@.recv,
            }),
    {
        let mut state = SendState::Idle;
        std::mem::swap(&mut self.send, &mut state);
        state
    }

    /// Takes the first pipe in. Any further pipe is refused with an error of
    /// kind `InvalidInput`, and its closing is asked for.
    pub fn add_pipe(&mut self, ctx: &mut Context, eid: EndpointId, pipe: Pipe) -> (res: Result<
        (),
        Error,
    >)
        ensures
            final(self)@ == old(self)@.add_pipe(eid, pipe).0.next,
            final(ctx)@ == old(ctx)@ + old(self)@.add_pipe(eid, pipe).0.cmds,
            res == old(self)@.add_pipe(eid, pipe).1,
    {
        match self.peer {
            None => {
                self.peer = Some((eid, pipe));
                self.can_send = false;
                self.can_recv = false;
                assert(ctx@ =~= old(ctx)@ + Seq::<ProtoCmd>::empty());
                Ok(())
            },
            Some(_) => {
                ctx.push(ProtoCmd::Close(eid));
                assert(ctx@ =~= old(ctx)@ + seq![ProtoCmd::Close(eid)]);
                Err(invalid_input_io_error("pair socket has a peer already"))
            },
        }
    }

    /// Gives the pipe up, if it belongs to the endpoint `eid`, and hands it
    /// back. A send or a receive that it was serving is put on hold.
    pub fn remove_pipe(&mut self, ctx: &mut Context, eid: EndpointId) -> (pipe: Option<Pipe>)
        ensures
            final(self)@ == old(self)@.remove_pipe(eid),
            final(ctx)@ == old(ctx)@,
            pipe == if old(self)@.pipes().contains_key(eid.0) {
                Some(old(self)@.pipes()[eid.0])
            } else {
                None
            },
    {
        match self.peer {
            Some((id, pipe)) => {
                if id == eid {
                    self.peer = None;
                    self.can_send = false;
                    self.can_recv = false;
                    let state = self.take_send();
                    self.send = match state {
                        SendState::Sending(msg, timeout) => SendState::OnHold(msg, timeout),
                        other => other,
                    };
                    self.recv = match self.recv {
                        RecvState::Receiving(timeout) => RecvState::OnHold(timeout),
                        other => other,
                    };
                    Some(pipe)
                } else {
                    None
                }
            },
            None => None,
        }
    }

    fn start_send(&mut self, ctx: &mut Context, msg: Rc<Message>, timeout: Timeout)
        ensures
            final(self)@ == old(self)@.start_send(msg, timeout).next,
            final(ctx)@ == old(ctx)@ + old(self)@.start_send(msg, timeout).cmds,
    {
        let target = match self.peer {
            Some((eid, _)) => if self.can_send {
                Some(eid)
            } else {
                None
            },
            None => None,
        };
        match target {
            Some(eid) => {
                ctx.push(ProtoCmd::Send(eid, share(&msg)));
                self.send = SendState::Sending(msg, timeout);
                self.can_send = false;
                assert(ctx@ =~= old(ctx)@ + seq![ProtoCmd::Send(eid, msg)]);
            },
            None => {
                self.send = SendState::OnHold(msg, timeout);
                assert(ctx@ =~= old(ctx)@ + Seq::<ProtoCmd>::empty());
            },
        }
    }

    /// The user hands over a message. It goes to the pipe if the pipe can
    /// send; otherwise it is put on hold. While a send is pending, a second
    /// one is ignored.
    pub fn send(&mut self, ctx: &mut Context, msg: Message, timeout: Timeout)
        ensures
            final(self)@ == old(self)@.send(Rc::new(msg), timeout).next,
            final(ctx)@ == old(ctx)@ + old(self)@.send(Rc::new(msg), timeout).cmds,
    {
        if self.is_sending() {
            assert(ctx@ =~= old(ctx)@ + Seq::<ProtoCmd>::empty());
        } else {
            self.start_send(ctx, Rc::new(msg), timeout);
        }
    }

    /// The pipe has sent its message: the user is told that it is sent, the
    /// timer of the send is cancelled, and the pipe can send again.
    pub fn on_send_ack(&mut self, ctx: &mut Context, eid: EndpointId)
        ensures
            final(self)@ == old(self)@.on_send_ack(eid).next,
            final(ctx)@ == old(ctx)@ + old(self)@.on_send_ack(eid).cmds,
    {
        let is_peer = self.is_peer(eid);
        let state = self.take_send();
        match state {
            SendState::Sending(msg, timeout) => {
                if is_peer {
                    ctx.reply_send(Reply::Sent);
                    ctx.cancel_timeout(timeout);
                    self.can_send = true;
                    assert(ctx@ =~= old(ctx)@ + (seq![ProtoCmd::ReplySend(Reply::Sent)]
                        + cancelled(timeout)));
                } else {
                    self.send = SendState::Sending(msg, timeout);
                    assert(ctx@ =~= old(ctx)@ + Seq::<ProtoCmd>::empty());
                }
            },
            other => {
                self.send = other;
                assert(ctx@ =~= old(ctx)@ + Seq::<ProtoCmd>::empty());
            },
        }
    }

    /// The deadline of the send has passed: the user gets an error of kind
    /// `TimedOut`, and the message is given up.
    pub fn on_send_timeout(&mut self, ctx: &mut Context)
        ensures
            final(self)@ == old(self)@.on_send_timeout().next,
            final(ctx)@ == old(ctx)@ + old(self)@.on_send_timeout().cmds,
    {
        if self.is_sending() {
            ctx.reply_send(Reply::Error(timedout_io_error("Send timed out")));
            self.send = SendState::Idle;
            assert(ctx@ =~= old(ctx)@ + seq![ProtoCmd::ReplySend(Reply::Error(send_timed_out()))]);
        } else {
            assert(ctx@ =~= old(ctx)@ + Seq::<ProtoCmd>::empty());
        }
    }

    /// The pipe reports that it can send: a message on hold is sent.
    pub fn on_send_ready(&mut self, ctx: &mut Context, eid: EndpointId)
        ensures
            final(self)@ == old(self)@.on_send_ready(eid).next,
            final(ctx)@ == old(ctx)@ + old(self)@.on_send_ready(eid).cmds,
    {
        if self.is_peer(eid) {
            self.can_send = true;
            let state = self.take_send();
            match state {
                SendState::OnHold(msg, timeout) => {
                    self.start_send(ctx, msg, timeout);
                },
                other => {
                    self.send = other;
                    assert(ctx@ =~= old(ctx)@ + Seq::<ProtoCmd>::empty());
                },
            }
        } else {
            assert(ctx@ =~= old(ctx)@ + Seq::<ProtoCmd>::empty());
        }
    }

    fn start_recv(&mut self, ctx: &mut Context, timeout: Timeout)
        ensures
            final(self)@ == old(self)@.start_recv(timeout).next,
            final(ctx)@ == old(ctx)@ + old(self)@.start_recv(timeout).cmds,
    {
        let target = match self.peer {
            Some((eid, _)) => if self.can_recv {
                Some(eid)
            } else {
                None
            },
            None => None,
        };
        match target {
            Some(eid) => {
                ctx.push(ProtoCmd::Recv(eid));
                self.recv = RecvState::Receiving(timeout);
                self.can_recv = false;
                assert(ctx@ =~= old(ctx)@ + seq![ProtoCmd::Recv(eid)]);
            },
            None => {
                self.recv = RecvState::OnHold(timeout);
                assert(ctx@ =~= old(ctx)@ + Seq::<ProtoCmd>::empty());
            },
        }
    }

    /// The user asks for a message. The pipe is asked for one if it can
    /// receive; otherwise the receive is put on hold. While a receive is
    /// pending, a second one is ignored.
    pub fn recv(&mut self, ctx: &mut Context, timeout: Timeout)
        ensures
            final(self)@ == old(self)@.recv(timeout).next,
            final(ctx)@ == old(ctx)@ + old(self)@.recv(timeout).cmds,
    {
        if self.is_receiving() {
            assert(ctx@ =~= old(ctx)@ + Seq::<ProtoCmd>::empty());
        } else {
            self.start_recv(ctx, timeout);
        }
    }

    /// The pipe hands over a message: the user gets it, and the timer of the
    /// receive is cancelled.
    pub fn on_recv_ack(&mut self, ctx: &mut Context, eid: EndpointId, msg: Message)
        ensures
            final(self)@ == old(self)@.on_recv_ack(eid, msg).next,
            final(ctx)@ == old(ctx)@ + old(self)@.on_recv_ack(eid, msg).cmds,
    {
        match self.recv {
            RecvState::Receiving(timeout) => {
                if self.is_peer(eid) {
                    ctx.reply_recv(Reply::Recv(msg));
                    ctx.cancel_timeout(timeout);
                    self.recv = RecvState::Idle;
                    assert(ctx@ =~= old(ctx)@ + (seq![ProtoCmd::ReplyRecv(Reply::Recv(msg))]
                        + cancelled(timeout)));
                } else {
                    assert(ctx@ =~= old(ctx)@ + Seq::<ProtoCmd>::empty());
                }
            },
            _ => {
                assert(ctx@ =~= old(ctx)@ + Seq::<ProtoCmd>::empty());
            },
        }
    }

    /// The deadline of the receive has passed: the user gets an error of
    /// kind `TimedOut`.
    pub fn on_recv_timeout(&mut self, ctx: &mut Context)
        ensures
            final(self)@ == old(self)@.on_recv_timeout().next,
            final(ctx)@ == old(ctx)@ + old(self)@.on_recv_timeout().cmds,
    {
        if self.is_receiving() {
            ctx.reply_recv(Reply::Error(timedout_io_error("Recv timed out")));
            self.recv = RecvState::Idle;
            assert(ctx@ =~= old(ctx)@ + seq![ProtoCmd::ReplyRecv(Reply::Error(recv_timed_out()))]);
        } else {
            assert(ctx@ =~= old(ctx)@ + Seq::<ProtoCmd>::empty());
        }
    }

    /// The pipe reports that it can receive: a receive on hold is started.
    pub fn on_recv_ready(&mut self, ctx: &mut Context, eid: EndpointId)
        ensures
            final(self)@ == old(self)@.on_recv_ready(eid).next,
            final(ctx)@ == old(ctx)@ + old(self)@.on_recv_ready(eid).cmds,
    {
        if self.is_peer(eid) {
            self.can_recv = true;
            match self.recv {
                RecvState::OnHold(timeout) => self.start_recv(ctx, timeout),
                _ => {
                    assert(ctx@ =~= old(ctx)@ + Seq::<ProtoCmd>::empty());
                },
            }
        } else {
            assert(ctx@ =~= old(ctx)@ + Seq::<ProtoCmd>::empty());
        }
    }
}

} // verus!
