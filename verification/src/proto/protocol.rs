//! The protocol of a socket, whichever it is.
//!
//! Every protocol takes the same operations. A socket holds its protocol as
//! one value of `SocketProtocol` and hands each operation on to it.

use std::rc::Rc;
use vstd::prelude::*;
use crate::error::{invalid_input_io_error, Error, ErrorKind};
use crate::ids::{EndpointId, SocketId};
use crate::message::Message;
use crate::options::SocketOption;
use crate::proto::context::{
    lemma_replies_short,
    recv_replies,
    send_replies,
    Context,
    ProtoCmd,
    Timeout,
};
use crate::proto::pair::{Pair, PairStep, PairView};
use crate::proto::pipe::Pipe;
use crate::proto::publ::{Pub, PubStep, PubView};
use crate::proto::pull::{Pull, PullStep, PullView};
use crate::proto::push::{Push, PushStep, PushView};
use crate::proto::sub::{pipe_already_added, Sub, SubStep, SubView};
use crate::socket_type::SocketType;

verus! {

/// What every protocol can tell of itself.
pub trait Protocol {
    /// The pattern that the protocol implements.
    spec fn socket_type(&self) -> SocketType;

    /// The protocol identifier that the socket announces.
    fn id(&self) -> (id: u16)
        ensures
            id == self.socket_type().spec_id(),
    ;

    /// The protocol identifier that the socket expects of its peers.
    fn peer_id(&self) -> (id: u16)
        ensures
            id == self.socket_type().spec_peer().spec_id(),
    ;
}

impl Protocol for Pull {
    open spec fn socket_type(&self) -> SocketType {
        SocketType::Pull
    }

    fn id(&self) -> (id: u16) {
        Pull::id(self)
    }

    fn peer_id(&self) -> (id: u16) {
        Pull::peer_id(self)
    }
}

impl Protocol for Push {
    open spec fn socket_type(&self) -> SocketType {
        SocketType::Push
    }

    fn id(&self) -> (id: u16) {
        Push::id(self)
    }

    fn peer_id(&self) -> (id: u16) {
        Push::peer_id(self)
    }
}

impl Protocol for Pub {
    open spec fn socket_type(&self) -> SocketType {
        SocketType::Pub
    }

    fn id(&self) -> (id: u16) {
        Pub::id(self)
    }

    fn peer_id(&self) -> (id: u16) {
        Pub::peer_id(self)
    }
}

impl Protocol for Pair {
    open spec fn socket_type(&self) -> SocketType {
        SocketType::Pair
    }

    fn id(&self) -> (id: u16) {
        Pair::id(self)
    }

    fn peer_id(&self) -> (id: u16) {
        Pair::peer_id(self)
    }
}

impl Protocol for Sub {
    open spec fn socket_type(&self) -> SocketType {
        SocketType::Sub
    }

    fn id(&self) -> (id: u16) {
        Sub::id(self)
    }

    fn peer_id(&self) -> (id: u16) {
        Sub::peer_id(self)
    }
}

/// The protocol of a socket.
pub enum SocketProtocol {
    Push(Push),
    Pull(Pull),
    Sub(Sub),
    Pub(Pub),
    Pair(Pair),
}

/// The content of a protocol.
pub enum ProtocolView {
    Push(PushView),
    Pull(PullView),
    Sub(SubView),
    Pub(PubView),
    Pair(PairView),
}

/// The outcome of a step: the content that follows, and what the step wrote
/// into the context.
pub struct ProtocolStep {
    pub next: ProtocolView,
    pub cmds: Seq<ProtoCmd>,
}

/// The error that answers an option that the protocol does not have.
pub open spec fn option_not_supported() -> Error {
    Error { kind: ErrorKind::InvalidInput, message: "option not supported by protocol" }
}

/// The step of a PUSH socket as the step of a protocol.
pub open spec fn of_push(step: PushStep) -> ProtocolStep {
    ProtocolStep { next: ProtocolView::Push(step.next), cmds: step.cmds }
}

/// The step of a PULL socket as the step of a protocol.
pub open spec fn of_pull(step: PullStep) -> ProtocolStep {
    ProtocolStep { next: ProtocolView::Pull(step.next), cmds: step.cmds }
}

/// The step of a SUB socket as the step of a protocol.
pub open spec fn of_sub(step: SubStep) -> ProtocolStep {
    ProtocolStep { next: ProtocolView::Sub(step.next), cmds: step.cmds }
}

/// The step of a PUB socket as the step of a protocol.
pub open spec fn of_pub(step: PubStep) -> ProtocolStep {
    ProtocolStep { next: ProtocolView::Pub(step.next), cmds: step.cmds }
}

/// The step of a PAIR socket as the step of a protocol.
pub open spec fn of_pair(step: PairStep) -> ProtocolStep {
    ProtocolStep { next: ProtocolView::Pair(step.next), cmds: step.cmds }
}

impl ProtocolView {
    /// The pattern that the protocol implements.
    pub open spec fn socket_type(self) -> SocketType {
        match self {
            ProtocolView::Push(_) => SocketType::Push,
            ProtocolView::Pull(_) => SocketType::Pull,
            ProtocolView::Sub(_) => SocketType::Sub,
            ProtocolView::Pub(_) => SocketType::Pub,
            ProtocolView::Pair(_) => SocketType::Pair,
        }
    }

    /// The invariant of the protocol's content.
    pub open spec fn wf(self) -> bool {
        match self {
            ProtocolView::Push(v) => v.wf(),
            ProtocolView::Pull(v) => v.wf(),
            ProtocolView::Sub(v) => v.wf(),
            ProtocolView::Pub(v) => v.wf(),
            ProtocolView::Pair(_) => true,
        }
    }

    /// A step that changes nothing.
    pub open spec fn ignore(self) -> ProtocolStep {
        ProtocolStep { next: self, cmds: Seq::empty() }
    }

    /// The number of sends that the protocol owes an answer to.
    pub open spec fn owed_send(self) -> nat {
        match self {
            ProtocolView::Push(v) => v.owed(),
            ProtocolView::Pair(v) => v.owed_send(),
            _ => 0,
        }
    }

    /// The number of receives that the protocol owes an answer to.
    pub open spec fn owed_recv(self) -> nat {
        match self {
            ProtocolView::Pull(v) => v.owed(),
            ProtocolView::Sub(v) => v.owed(),
            ProtocolView::Pair(v) => v.owed_recv(),
            _ => 0,
        }
    }

    /// A change of content that writes nothing into the context.
    pub open spec fn quiet(next: ProtocolView) -> ProtocolStep {
        ProtocolStep { next, cmds: Seq::empty() }
    }

    /// `add_pipe`, and whether the protocol took the pipe without complaint.
    pub open spec fn add_pipe(self, eid: EndpointId, pipe: Pipe) -> (ProtocolStep, Result<
        (),
        Error,
    >) {
        match self {
            ProtocolView::Push(v) => (
                Self::quiet(ProtocolView::Push(v.add_pipe(eid, pipe))),
                Ok(()),
            ),
            ProtocolView::Pull(v) => (
                Self::quiet(ProtocolView::Pull(v.add_pipe(eid, pipe))),
                Ok(()),
            ),
            ProtocolView::Sub(v) => (
                Self::quiet(ProtocolView::Sub(v.add_pipe(eid, pipe))),
                if v.pipes.contains_key(eid.0) {
                    Err(pipe_already_added())
                } else {
                    Ok(())
                },
            ),
            ProtocolView::Pub(v) => (Self::quiet(ProtocolView::Pub(v.add_pipe(eid, pipe))), Ok(())),
            ProtocolView::Pair(v) => (of_pair(v.add_pipe(eid, pipe).0), v.add_pipe(eid, pipe).1),
        }
    }

    /// The pipes of the protocol, by the number of their endpoint.
    pub open spec fn pipes(self) -> Map<usize, Pipe> {
        match self {
            ProtocolView::Push(v) => v.pipes,
            ProtocolView::Pull(v) => v.pipes,
            ProtocolView::Sub(v) => v.pipes,
            ProtocolView::Pub(v) => v.pipes,
            ProtocolView::Pair(v) => v.pipes(),
        }
    }

    /// `remove_pipe`.
    pub open spec fn remove_pipe(self, eid: EndpointId) -> ProtocolView {
        match self {
            ProtocolView::Push(v) => ProtocolView::Push(v.remove_pipe(eid)),
            ProtocolView::Pull(v) => ProtocolView::Pull(v.remove_pipe(eid)),
            ProtocolView::Sub(v) => ProtocolView::Sub(v.remove_pipe(eid)),
            ProtocolView::Pub(v) => ProtocolView::Pub(v.remove_pipe(eid)),
            ProtocolView::Pair(v) => ProtocolView::Pair(v.remove_pipe(eid)),
        }
    }

    /// `send`.
    pub open spec fn send(self, msg: Message, timeout: Timeout) -> ProtocolStep {
        match self {
            ProtocolView::Push(v) => of_push(v.send(Rc::new(msg), timeout)),
            ProtocolView::Pull(v) => of_pull(v.send(timeout)),
            ProtocolView::Sub(v) => of_sub(v.send(timeout)),
            ProtocolView::Pub(v) => of_pub(v.send(Rc::new(msg), timeout)),
            ProtocolView::Pair(v) => of_pair(v.send(Rc::new(msg), timeout)),
        }
    }

    /// `recv`.
    pub open spec fn recv(self, timeout: Timeout) -> ProtocolStep {
        match self {
            ProtocolView::Push(v) => of_push(v.recv(timeout)),
            ProtocolView::Pull(v) => of_pull(v.recv(timeout)),
            ProtocolView::Sub(v) => of_sub(v.recv(timeout)),
            ProtocolView::Pub(v) => of_pub(v.recv(timeout)),
            ProtocolView::Pair(v) => of_pair(v.recv(timeout)),
        }
    }

    /// `on_send_ack`.
    pub open spec fn on_send_ack(self, eid: EndpointId) -> ProtocolStep {
        match self {
            ProtocolView::Push(v) => of_push(v.on_send_ack(eid)),
            ProtocolView::Pub(v) => of_pub(v.on_send_ready(eid)),
            ProtocolView::Pair(v) => of_pair(v.on_send_ack(eid)),
            _ => self.ignore(),
        }
    }

    /// `on_send_timeout`.
    pub open spec fn on_send_timeout(self) -> ProtocolStep {
        match self {
            ProtocolView::Push(v) => of_push(v.on_send_timeout()),
            ProtocolView::Pair(v) => of_pair(v.on_send_timeout()),
            _ => self.ignore(),
        }
    }

    /// `on_send_ready`.
    pub open spec fn on_send_ready(self, eid: EndpointId) -> ProtocolStep {
        match self {
            ProtocolView::Push(v) => of_push(v.on_send_ready(eid)),
            ProtocolView::Pub(v) => of_pub(v.on_send_ready(eid)),
            ProtocolView::Pair(v) => of_pair(v.on_send_ready(eid)),
            _ => self.ignore(),
        }
    }

    /// `on_recv_ack`.
    pub open spec fn on_recv_ack(self, eid: EndpointId, msg: Message) -> ProtocolStep {
        match self {
            ProtocolView::Pull(v) => of_pull(v.on_recv_ack(eid, msg)),
            ProtocolView::Sub(v) => of_sub(v.on_recv_ack(eid, msg)),
            ProtocolView::Pair(v) => of_pair(v.on_recv_ack(eid, msg)),
            _ => self.ignore(),
        }
    }

    /// `on_recv_timeout`.
    pub open spec fn on_recv_timeout(self) -> ProtocolStep {
        match self {
            ProtocolView::Pull(v) => of_pull(v.on_recv_timeout()),
            ProtocolView::Sub(v) => of_sub(v.on_recv_timeout()),
            ProtocolView::Pair(v) => of_pair(v.on_recv_timeout()),
            _ => self.ignore(),
        }
    }

    /// `on_recv_ready`.
    pub open spec fn on_recv_ready(self, eid: EndpointId) -> ProtocolStep {
        match self {
            ProtocolView::Pull(v) => of_pull(v.on_recv_ready(eid)),
            ProtocolView::Sub(v) => of_sub(v.on_recv_ready(eid)),
            ProtocolView::Pair(v) => of_pair(v.on_recv_ready(eid)),
            _ => self.ignore(),
        }
    }

    /// `set_option`. Only SUB has options of its own.
    pub open spec fn set_option(self, option: SocketOption) -> (ProtocolView, Result<(), Error>) {
        match self {
            ProtocolView::Sub(v) => (
                ProtocolView::Sub(v.set_option(option).0),
                v.set_option(option).1,
            ),
            _ => (self, Err(option_not_supported())),
        }
    }

    /// A step accounts for every answer. With `sends` sends and `recvs`
    /// receives handed to the protocol by the step (none or one of each, and
    /// one only while none is owed an answer), each of them, and each that
    /// was owed an answer before, is either answered by the step or owed an
    /// answer afterwards; and no more than one of each kind is ever owed.
    pub open spec fn balanced(self, step: ProtocolStep, sends: nat, recvs: nat) -> bool {
        &&& step.next.wf()
        &&& step.next.socket_type() == self.socket_type()
        &&& self.owed_send() + sends == send_replies(step.cmds) + step.next.owed_send()
        &&& self.owed_recv() + recvs == recv_replies(step.cmds) + step.next.owed_recv()
        &&& step.next.owed_send() <= 1
        &&& step.next.owed_recv() <= 1
    }

    /// Every step of every protocol accounts for every answer. A send or a
    /// receive that is handed over while another is owed an answer is
    /// ignored, and is not counted.
    pub proof fn lemma_balanced(self, eid: EndpointId, pipe: Pipe, msg: Message, timeout: Timeout)
        requires
            self.wf(),
        ensures
            self.owed_send() <= 1,
            self.owed_recv() <= 1,
            pipe.wf() ==> self.balanced(self.add_pipe(eid, pipe).0, 0, 0),
            self.balanced(ProtocolStep { next: self.remove_pipe(eid), cmds: Seq::empty() }, 0, 0),
            self.balanced(self.send(msg, timeout), if self.owed_send() == 0 {
                1
            } else {
                0
            }, 0),
            self.balanced(self.recv(timeout), 0, if self.owed_recv() == 0 {
                1
            } else {
                0
            }),
            self.balanced(self.on_send_ack(eid), 0, 0),
            self.balanced(self.on_send_timeout(), 0, 0),
            self.balanced(self.on_send_ready(eid), 0, 0),
            self.balanced(self.on_recv_ack(eid, msg), 0, 0),
            self.balanced(self.on_recv_timeout(), 0, 0),
            self.balanced(self.on_recv_ready(eid), 0, 0),
    {
        let any = ProtoCmd::Recv(eid);
        lemma_replies_short(any, any);
        match self {
            ProtocolView::Push(v) => {
                v.lemma_steps(eid, pipe, Rc::new(msg), timeout);
            },
            ProtocolView::Pull(v) => {
                v.lemma_steps(eid, pipe, msg, timeout);
            },
            ProtocolView::Sub(v) => {
                v.lemma_steps(eid, pipe, msg, timeout, 0);
            },
            ProtocolView::Pub(v) => {
                v.lemma_steps(eid, pipe, Rc::new(msg), timeout);
            },
            ProtocolView::Pair(v) => {
                v.lemma_steps(eid, pipe, msg, timeout);
            },
        }
    }
}

impl View for SocketProtocol {
    type V = ProtocolView;

    open spec fn view(&self) -> ProtocolView {
        match *self {
            SocketProtocol::Push(p) => ProtocolView::Push(p@),
            SocketProtocol::Pull(p) => ProtocolView::Pull(p@),
            SocketProtocol::Sub(p) => ProtocolView::Sub(p@),
            SocketProtocol::Pub(p) => ProtocolView::Pub(p@),
            SocketProtocol::Pair(p) => ProtocolView::Pair(p@),
        }
    }
}

/// Whether the library has a protocol for the pattern.
pub fn is_supported(socket_type: SocketType) -> (yes: bool)
    ensures
        yes == supported(socket_type),
{
    match socket_type {
        SocketType::Push => true,
        SocketType::Pull => true,
        SocketType::Sub => true,
        SocketType::Pub => true,
        SocketType::Pair => true,
        _ => false,
    }
}

/// The patterns that the library has a protocol for.
pub open spec fn supported(socket_type: SocketType) -> bool {
    socket_type == SocketType::Push || socket_type == SocketType::Pull || socket_type
        == SocketType::Sub || socket_type == SocketType::Pub || socket_type == SocketType::Pair
}

/// The content of a new protocol of the given pattern: no pipes, nothing
/// pending.
pub open spec fn empty_protocol(socket_type: SocketType) -> ProtocolView {
    match socket_type {
        SocketType::Push => ProtocolView::Push(PushView::empty()),
        SocketType::Pull => ProtocolView::Pull(PullView::empty()),
        SocketType::Pub => ProtocolView::Pub(PubView::empty()),
        SocketType::Pair => ProtocolView::Pair(PairView::empty()),
        _ => ProtocolView::Sub(SubView::empty()),
    }
}

/// A new protocol for the socket `id` of the given pattern, without pipes
/// and at rest; `None` for a pattern that the library has no protocol for.
pub fn create_protocol(id: SocketId, socket_type: SocketType) -> (protocol: Option<SocketProtocol>)
    ensures
        protocol is Some <==> supported(socket_type),
        protocol matches Some(p) ==> p.wf() && p@ == empty_protocol(socket_type),
{
    match socket_type {
        SocketType::Push => Some(SocketProtocol::Push(Push::new())),
        SocketType::Pull => Some(SocketProtocol::Pull(Pull::new())),
        SocketType::Sub => {
            let sub = Sub::new(id);
            proof {
                sub.lemma_wf();
            }
            Some(SocketProtocol::Sub(sub))
        },
        SocketType::Pub => Some(SocketProtocol::Pub(Pub::new())),
        SocketType::Pair => Some(SocketProtocol::Pair(Pair::new())),
        _ => None,
    }
}

impl Protocol for SocketProtocol {
    open spec fn socket_type(&self) -> SocketType {
        self@.socket_type()
    }

    fn id(&self) -> (id: u16) {
        match self {
            SocketProtocol::Push(p) => Push::id(p),
            SocketProtocol::Pull(p) => Pull::id(p),
            SocketProtocol::Sub(p) => Sub::id(p),
            SocketProtocol::Pub(p) => Pub::id(p),
            SocketProtocol::Pair(p) => Pair::id(p),
        }
    }

    fn peer_id(&self) -> (id: u16) {
        match self {
            SocketProtocol::Push(p) => Push::peer_id(p),
            SocketProtocol::Pull(p) => Pull::peer_id(p),
            SocketProtocol::Sub(p) => Sub::peer_id(p),
            SocketProtocol::Pub(p) => Pub::peer_id(p),
            SocketProtocol::Pair(p) => Pair::peer_id(p),
        }
    }
}

impl SocketProtocol {
    /// The invariant that every operation keeps.
    pub closed spec fn wf(&self) -> bool {
        match *self {
            SocketProtocol::Push(p) => p.wf(),
            SocketProtocol::Pull(p) => p.wf(),
            SocketProtocol::Sub(p) => p.wf(),
            SocketProtocol::Pub(p) => p.wf(),
            SocketProtocol::Pair(_) => true,
        }
    }

    /// What well-formedness says of the content.
    pub proof fn lemma_wf(&self)
        requires
            self.wf(),
        ensures
            self@.wf(),
    {
        match *self {
            SocketProtocol::Sub(p) => {
                p.lemma_wf();
            },
            _ => {},
        }
    }

    /// Whether a send is owed an answer.
    pub fn is_send_pending(&self) -> (pending: bool)
        ensures
            pending == (self@.owed_send() != 0),
    {
        match self {
            SocketProtocol::Push(p) => p.is_sending(),
            SocketProtocol::Pair(p) => p.is_sending(),
            _ => false,
        }
    }

    /// Whether a receive is owed an answer.
    pub fn is_recv_pending(&self) -> (pending: bool)
        ensures
            pending == (self@.owed_recv() != 0),
    {
        match self {
            SocketProtocol::Push(_) => false,
            SocketProtocol::Pub(_) => false,
            SocketProtocol::Pair(p) => p.is_receiving(),
            SocketProtocol::Pull(p) => match p.state() {
                crate::proto::pull::State::Idle => false,
                _ => true,
            },
            SocketProtocol::Sub(p) => match p.state() {
                crate::proto::sub::State::Idle => false,
                _ => true,
            },
        }
    }

    /// Takes a pipe in.
    pub fn add_pipe(&mut self, ctx: &mut Context, eid: EndpointId, pipe: Pipe) -> (res: Result<
        (),
        Error,
    >)
        requires
            old(self).wf(),
            pipe.wf(),
        ensures
            final(self)@ == old(self)@.add_pipe(eid, pipe).0.next,
            res == old(self)@.add_pipe(eid, pipe).1,
            final(self).wf(),
            final(ctx)@ == old(ctx)@ + old(self)@.add_pipe(eid, pipe).0.cmds,
    {
        match self {
            SocketProtocol::Push(p) => {
                p.add_pipe(ctx, eid, pipe);
                assert(ctx@ =~= old(ctx)@ + Seq::<ProtoCmd>::empty());
                Ok(())
            },
            SocketProtocol::Pull(p) => {
                p.add_pipe(ctx, eid, pipe);
                assert(ctx@ =~= old(ctx)@ + Seq::<ProtoCmd>::empty());
                Ok(())
            },
            SocketProtocol::Sub(p) => {
                let res = p.add_pipe(ctx, eid, pipe);
                assert(ctx@ =~= old(ctx)@ + Seq::<ProtoCmd>::empty());
                res
            },
            SocketProtocol::Pub(p) => {
                p.add_pipe(ctx, eid, pipe);
                assert(ctx@ =~= old(ctx)@ + Seq::<ProtoCmd>::empty());
                Ok(())
            },
            SocketProtocol::Pair(p) => p.add_pipe(ctx, eid, pipe),
        }
    }

    /// Gives a pipe up, and hands it back if the protocol had it.
    pub fn remove_pipe(&mut self, ctx: &mut Context, eid: EndpointId) -> (pipe: Option<Pipe>)
        requires
            old(self).wf(),
        ensures
            final(self)@ == old(self)@.remove_pipe(eid),
            final(self).wf(),
            final(ctx)@ == old(ctx)@,
            pipe == if old(self)@.pipes().contains_key(eid.0) {
                Some(old(self)@.pipes()[eid.0])
            } else {
                None
            },
    {
        match self {
            SocketProtocol::Push(p) => p.remove_pipe(ctx, eid),
            SocketProtocol::Pull(p) => p.remove_pipe(ctx, eid),
            SocketProtocol::Sub(p) => p.remove_pipe(ctx, eid),
            SocketProtocol::Pub(p) => p.remove_pipe(ctx, eid),
            SocketProtocol::Pair(p) => p.remove_pipe(ctx, eid),
        }
    }

    /// The user hands over a message.
    pub fn send(&mut self, ctx: &mut Context, msg: Message, timeout: Timeout)
        requires
            old(self).wf(),
        ensures
            final(self)@ == old(self)@.send(msg, timeout).next,
            final(ctx)@ == old(ctx)@ + old(self)@.send(msg, timeout).cmds,
            final(self).wf(),
    {
        match self {
            SocketProtocol::Push(p) => p.send(ctx, msg, timeout),
            SocketProtocol::Pull(p) => p.send(ctx, msg, timeout),
            SocketProtocol::Sub(p) => p.send(ctx, msg, timeout),
            SocketProtocol::Pub(p) => p.send(ctx, msg, timeout),
            SocketProtocol::Pair(p) => p.send(ctx, msg, timeout),
        }
    }

    /// The user asks for a message.
    pub fn recv(&mut self, ctx: &mut Context, timeout: Timeout)
        requires
            old(self).wf(),
        ensures
            final(self)@ == old(self)@.recv(timeout).next,
            final(ctx)@ == old(ctx)@ + old(self)@.recv(timeout).cmds,
            final(self).wf(),
    {
        match self {
            SocketProtocol::Push(p) => p.recv(ctx, timeout),
            SocketProtocol::Pull(p) => p.recv(ctx, timeout),
            SocketProtocol::Sub(p) => p.recv(ctx, timeout),
            SocketProtocol::Pub(p) => p.recv(ctx, timeout),
            SocketProtocol::Pair(p) => p.recv(ctx, timeout),
        }
    }

    /// A pipe has sent its message.
    pub fn on_send_ack(&mut self, ctx: &mut Context, eid: EndpointId)
        requires
            old(self).wf(),
        ensures
            final(self)@ == old(self)@.on_send_ack(eid).next,
            final(ctx)@ == old(ctx)@ + old(self)@.on_send_ack(eid).cmds,
            final(self).wf(),
    {
        match self {
            SocketProtocol::Push(p) => p.on_send_ack(ctx, eid),
            SocketProtocol::Pub(p) => p.on_send_ack(ctx, eid),
            SocketProtocol::Pair(p) => p.on_send_ack(ctx, eid),
            SocketProtocol::Pull(p) => {
                p.on_send_ack(ctx, eid);
                assert(ctx@ =~= old(ctx)@ + Seq::<ProtoCmd>::empty());
            },
            SocketProtocol::Sub(p) => {
                p.on_send_ack(ctx, eid);
                assert(ctx@ =~= old(ctx)@ + Seq::<ProtoCmd>::empty());
            },
        }
    }

    /// The deadline of the send has passed.
    pub fn on_send_timeout(&mut self, ctx: &mut Context)
        requires
            old(self).wf(),
        ensures
            final(self)@ == old(self)@.on_send_timeout().next,
            final(ctx)@ == old(ctx)@ + old(self)@.on_send_timeout().cmds,
            final(self).wf(),
    {
        match self {
            SocketProtocol::Push(p) => p.on_send_timeout(ctx),
            SocketProtocol::Pub(p) => {
                p.on_send_timeout(ctx);
                assert(ctx@ =~= old(ctx)@ + Seq::<ProtoCmd>::empty());
            },
            SocketProtocol::Pair(p) => p.on_send_timeout(ctx),
            SocketProtocol::Pull(p) => {
                p.on_send_timeout(ctx);
                assert(ctx@ =~= old(ctx)@ + Seq::<ProtoCmd>::empty());
            },
            SocketProtocol::Sub(p) => {
                p.on_send_timeout(ctx);
                assert(ctx@ =~= old(ctx)@ + Seq::<ProtoCmd>::empty());
            },
        }
    }

    /// A pipe reports that it can send.
    pub fn on_send_ready(&mut self, ctx: &mut Context, eid: EndpointId)
        requires
            old(self).wf(),
        ensures
            final(self)@ == old(self)@.on_send_ready(eid).next,
            final(ctx)@ == old(ctx)@ + old(self)@.on_send_ready(eid).cmds,
            final(self).wf(),
    {
        match self {
            SocketProtocol::Push(p) => p.on_send_ready(ctx, eid),
            SocketProtocol::Pub(p) => p.on_send_ready(ctx, eid),
            SocketProtocol::Pair(p) => p.on_send_ready(ctx, eid),
            SocketProtocol::Pull(p) => {
                p.on_send_ready(ctx, eid);
                assert(ctx@ =~= old(ctx)@ + Seq::<ProtoCmd>::empty());
            },
            SocketProtocol::Sub(p) => {
                p.on_send_ready(ctx, eid);
                assert(ctx@ =~= old(ctx)@ + Seq::<ProtoCmd>::empty());
            },
        }
    }

    /// A pipe hands over a message.
    pub fn on_recv_ack(&mut self, ctx: &mut Context, eid: EndpointId, msg: Message)
        requires
            old(self).wf(),
        ensures
            final(self)@ == old(self)@.on_recv_ack(eid, msg).next,
            final(ctx)@ == old(ctx)@ + old(self)@.on_recv_ack(eid, msg).cmds,
            final(self).wf(),
    {
        match self {
            SocketProtocol::Push(p) => {
                p.on_recv_ack(ctx, eid, msg);
                assert(ctx@ =~= old(ctx)@ + Seq::<ProtoCmd>::empty());
            },
            SocketProtocol::Pub(p) => {
                p.on_recv_ack(ctx, eid, msg);
                assert(ctx@ =~= old(ctx)@ + Seq::<ProtoCmd>::empty());
            },
            SocketProtocol::Pair(p) => p.on_recv_ack(ctx, eid, msg),
            SocketProtocol::Pull(p) => p.on_recv_ack(ctx, eid, msg),
            SocketProtocol::Sub(p) => p.on_recv_ack(ctx, eid, msg),
        }
    }

    /// The deadline of the receive has passed.
    pub fn on_recv_timeout(&mut self, ctx: &mut Context)
        requires
            old(self).wf(),
        ensures
            final(self)@ == old(self)@.on_recv_timeout().next,
            final(ctx)@ == old(ctx)@ + old(self)@.on_recv_timeout().cmds,
            final(self).wf(),
    {
        match self {
            SocketProtocol::Push(p) => {
                p.on_recv_timeout(ctx);
                assert(ctx@ =~= old(ctx)@ + Seq::<ProtoCmd>::empty());
            },
            SocketProtocol::Pub(p) => {
                p.on_recv_timeout(ctx);
                assert(ctx@ =~= old(ctx)@ + Seq::<ProtoCmd>::empty());
            },
            SocketProtocol::Pair(p) => p.on_recv_timeout(ctx),
            SocketProtocol::Pull(p) => p.on_recv_timeout(ctx),
            SocketProtocol::Sub(p) => p.on_recv_timeout(ctx),
        }
    }

    /// A pipe reports that it can receive.
    pub fn on_recv_ready(&mut self, ctx: &mut Context, eid: EndpointId)
        requires
            old(self).wf(),
        ensures
            final(self)@ == old(self)@.on_recv_ready(eid).next,
            final(ctx)@ == old(ctx)@ + old(self)@.on_recv_ready(eid).cmds,
            final(self).wf(),
    {
        match self {
            SocketProtocol::Push(p) => {
                p.on_recv_ready(ctx, eid);
                assert(ctx@ =~= old(ctx)@ + Seq::<ProtoCmd>::empty());
            },
            SocketProtocol::Pub(p) => {
                p.on_recv_ready(ctx, eid);
                assert(ctx@ =~= old(ctx)@ + Seq::<ProtoCmd>::empty());
            },
            SocketProtocol::Pair(p) => p.on_recv_ready(ctx, eid),
            SocketProtocol::Pull(p) => p.on_recv_ready(ctx, eid),
            SocketProtocol::Sub(p) => p.on_recv_ready(ctx, eid),
        }
    }

    /// Sets an option of the protocol. Only SUB has options of its own; for
    /// any other protocol the call fails with an error of kind
    /// `InvalidInput`.
    pub fn set_option(&mut self, option: SocketOption) -> (res: Result<(), Error>)
        requires
            old(self).wf(),
        ensures
            final(self)@ == old(self)@.set_option(option).0,
            res == old(self)@.set_option(option).1,
            final(self).wf(),
    {
        match self {
            SocketProtocol::Sub(p) => p.set_option(option),
            _ => Err(invalid_input_io_error("option not supported by protocol")),
        }
    }
}

} // verus!
