//! PUB: sends every message to all the pipes that can take it, and does not
//! receive.
//!
//! A send is answered as soon as the message is handed to the pipes. A pipe
//! that has been given a message can take the next one when it reports the
//! message sent, or reports that it can send.

use std::collections::HashMap;
use std::rc::Rc;
use vstd::prelude::*;
use crate::error::{other_io_error, Error, ErrorKind};
use crate::ids::EndpointId;
use crate::message::{share, Message};
use crate::prio_state::PrioState;
use crate::priolist::PrioList;
use crate::proto::context::{
    cancelled,
    lemma_replies_concat,
    lemma_replies_short,
    recv_replies,
    send_replies,
    Context,
    ProtoCmd,
    Reply,
    Timeout,
};
use crate::proto::pipe::Pipe;
use crate::socket_type::{PUB, SUB};

verus! {

broadcast use vstd::std_specs::hash::group_hash_axioms;

/// The content of a PUB socket: its pipes by the number of their endpoint,
/// and the selector that tells which of them can send.
pub struct PubView {
    pub pipes: Map<usize, Pipe>,
    pub lb: PrioState,
}

/// The outcome of a step: the content that follows, and what the step wrote
/// into the context.
pub struct PubStep {
    pub next: PubView,
    pub cmds: Seq<ProtoCmd>,
}

/// The error that answers a receive.
pub open spec fn recv_not_supported() -> Error {
    Error { kind: ErrorKind::Other, message: "Recv is not supported by pub protocol" }
}

/// The requests that hand `msg` to each of the pipes named from `lo` on in
/// `targets` that the socket has, in that order.
pub open spec fn multicast(
    targets: Seq<EndpointId>,
    pipes: Map<usize, Pipe>,
    msg: Rc<Message>,
    lo: int,
) -> Seq<ProtoCmd>
    decreases targets.len() - lo,
{
    if lo < 0 || lo >= targets.len() {
        Seq::empty()
    } else if pipes.contains_key(targets[lo].0) {
        seq![ProtoCmd::Send(targets[lo], msg)] + multicast(targets, pipes, msg, lo + 1)
    } else {
        multicast(targets, pipes, msg, lo + 1)
    }
}

/// Handing a message to pipes answers no send and no receive.
pub proof fn lemma_multicast(
    targets: Seq<EndpointId>,
    pipes: Map<usize, Pipe>,
    msg: Rc<Message>,
    lo: int,
)
    requires
        0 <= lo,
    ensures
        send_replies(multicast(targets, pipes, msg, lo)) == 0,
        recv_replies(multicast(targets, pipes, msg, lo)) == 0,
    decreases targets.len() - lo,
{
    let any = ProtoCmd::OptionSet;
    lemma_replies_short(any, any);
    if lo < targets.len() {
        lemma_multicast(targets, pipes, msg, lo + 1);
        lemma_replies_short(ProtoCmd::Send(targets[lo], msg), any);
        lemma_replies_concat(
            seq![ProtoCmd::Send(targets[lo], msg)],
            multicast(targets, pipes, msg, lo + 1),
        );
    }
}

impl PubView {
    /// The invariant: the selector is well formed.
    pub open spec fn wf(self) -> bool {
        self.lb.wf()
    }

    /// A socket without pipes.
    pub open spec fn empty() -> PubView {
        PubView { pipes: Map::empty(), lb: PrioState::empty() }
    }

    /// A step that changes nothing.
    pub open spec fn ignore(self) -> PubStep {
        PubStep { next: self, cmds: Seq::empty() }
    }

    /// `add_pipe`: the pipe joins the selector, inactive, with its send
    /// priority.
    pub open spec fn add_pipe(self, eid: EndpointId, pipe: Pipe) -> PubView {
        PubView {
            pipes: self.pipes.insert(eid.0, pipe),
            lb: self.lb.insert(eid, pipe.send_priority),
        }
    }

    /// `remove_pipe`: the pipe leaves.
    pub open spec fn remove_pipe(self, eid: EndpointId) -> PubView {
        PubView { pipes: self.pipes.remove(eid.0), lb: self.lb.remove(eid) }
    }

    /// `send`: every pipe that can send is given the message, in the order
    /// in which the pipes were added, and cannot send until it reports back;
    /// then the user is told that the message is sent, and the timer of the
    /// send is cancelled.
    pub open spec fn send(self, msg: Rc<Message>, timeout: Timeout) -> PubStep {
        PubStep {
            next: PubView { pipes: self.pipes, lb: self.lb.deactivate_all() },
            cmds: multicast(self.lb.active_ids(), self.pipes, msg, 0) + (seq![
                ProtoCmd::ReplySend(Reply::Sent),
            ] + cancelled(timeout)),
        }
    }

    /// `recv`: refused at once, and its timer is cancelled.
    pub open spec fn recv(self, timeout: Timeout) -> PubStep {
        PubStep {
            next: self,
            cmds: seq![ProtoCmd::ReplyRecv(Reply::Error(recv_not_supported()))] + cancelled(
                timeout,
            ),
        }
    }

    /// `on_send_ack` and `on_send_ready`: the pipe can send.
    pub open spec fn on_send_ready(self, eid: EndpointId) -> PubStep {
        PubStep {
            next: PubView { pipes: self.pipes, lb: self.lb.activate(eid) },
            cmds: Seq::empty(),
        }
    }

    /// Every step keeps the invariant, and a PUB socket never owes an
    /// answer: a send and a receive are answered by the step that takes
    /// them, and no other step answers anything.
    pub proof fn lemma_steps(self, eid: EndpointId, pipe: Pipe, msg: Rc<Message>, timeout: Timeout)
        requires
            self.wf(),
        ensures
            pipe.wf() ==> self.add_pipe(eid, pipe).wf(),
            self.remove_pipe(eid).wf(),
            answered(self.send(msg, timeout), 1, 0),
            answered(self.recv(timeout), 0, 1),
            answered(self.on_send_ready(eid), 0, 0),
    {
        if pipe.wf() {
            self.lb.lemma_insert_wf(eid, pipe.send_priority);
        }
        self.lb.lemma_remove_wf(eid);
        self.lb.lemma_deactivate_all_wf();
        self.lb.lemma_activate_wf(eid);
        let any = ProtoCmd::OptionSet;
        lemma_replies_short(any, any);
        lemma_replies_short(ProtoCmd::ReplyRecv(Reply::Error(recv_not_supported())), any);
        lemma_replies_short(ProtoCmd::ReplySend(Reply::Sent), any);
        if let Some(s) = timeout {
            lemma_replies_short(ProtoCmd::Cancel(s), any);
        }
        lemma_replies_concat(
            seq![ProtoCmd::ReplyRecv(Reply::Error(recv_not_supported()))],
            cancelled(timeout),
        );
        lemma_replies_concat(seq![ProtoCmd::ReplySend(Reply::Sent)], cancelled(timeout));
        lemma_multicast(self.lb.active_ids(), self.pipes, msg, 0);
        lemma_replies_concat(
            multicast(self.lb.active_ids(), self.pipes, msg, 0),
            seq![ProtoCmd::ReplySend(Reply::Sent)] + cancelled(timeout),
        );
    }
}

/// A step keeps the invariant, and answers `sends` sends and `recvs`
/// receives.
pub open spec fn answered(step: PubStep, sends: nat, recvs: nat) -> bool {
    &&& step.next.wf()
    &&& send_replies(step.cmds) == sends
    &&& recv_replies(step.cmds) == recvs
}

/// PUB, the sending end of publish and subscribe.
pub struct Pub {
    pipes: HashMap<usize, Pipe>,
    lb: PrioList,
}

impl View for Pub {
    type V = PubView;

    closed spec fn view(&self) -> PubView {
        PubView { pipes: self.pipes@, lb: self.lb@ }
    }
}

impl Pub {
    /// The invariant that every operation keeps.
    pub open spec fn wf(&self) -> bool {
        self@.wf()
    }

    /// A PUB socket without pipes.
    pub fn new() -> (publ: Pub)
        ensures
            publ@ == PubView::empty(),
            publ.wf(),
    {
        let publ = Pub { pipes: HashMap::new(), lb: PrioList::new() };
        assert(publ@.pipes =~= Map::<usize, Pipe>::empty());
        publ
    }

    /// The protocol identifier of PUB.
    pub fn id(&self) -> (id: u16)
        ensures
            id == PUB,
    {
        PUB
    }

    /// The protocol identifier of the peer, SUB.
    pub fn peer_id(&self) -> (id: u16)
        ensures
            id == SUB,
    {
        SUB
    }

    /// Takes a pipe in. It joins the selector, inactive, with its send
    /// priority.
    pub fn add_pipe(&mut self, ctx: &mut Context, eid: EndpointId, pipe: Pipe)
        requires
            old(self).wf(),
            pipe.wf(),
        ensures
            final(self)@ == old(self)@.add_pipe(eid, pipe),
            final(self).wf(),
            final(ctx)@ == old(ctx)@,
    {
        self.lb.insert(eid, pipe.get_send_priority());
        self.pipes.insert(eid.0, pipe);
    }

    /// Gives a pipe up, and hands it back if the socket had it.
    pub fn remove_pipe(&mut self, ctx: &mut Context, eid: EndpointId) -> (pipe: Option<Pipe>)
        requires
            old(self).wf(),
        ensures
            final(self)@ == old(self)@.remove_pipe(eid),
            final(self).wf(),
            final(ctx)@ == old(ctx)@,
            pipe == if old(self)@.pipes.contains_key(eid.0) {
                Some(old(self)@.pipes[eid.0])
            } else {
                None
            },
    {
        self.lb.remove(eid);
        self.pipes.remove(&eid.0)
    }

    /// The user hands over a message. Every pipe that can send gets a handle
    /// to it, the message itself is not copied, and the user is told at once
    /// that it is sent.
    pub fn send(&mut self, ctx: &mut Context, msg: Message, timeout: Timeout)
        requires
            old(self).wf(),
        ensures
            final(self)@ == old(self)@.send(Rc::new(msg), timeout).next,
            final(ctx)@ == old(ctx)@ + old(self)@.send(Rc::new(msg), timeout).cmds,
            final(self).wf(),
    {
        let msg = Rc::new(msg);
        let targets = self.lb.active();
        let mut i: usize = 0;
        while i < targets.len()
            invariant
                i <= targets@.len(),
                *self == *old(self),
                ctx@ + multicast(targets@, self.pipes@, msg, i as int) == old(ctx)@ + multicast(
                    targets@,
                    self.pipes@,
                    msg,
                    0,
                ),
            decreases targets@.len() - i,
        {
            let ghost before = ctx@;
            let eid = targets[i];
            if self.pipes.contains_key(&eid.0) {
                ctx.push(ProtoCmd::Send(eid, share(&msg)));
                assert(ctx@ + multicast(targets@, self.pipes@, msg, i + 1) =~= before + multicast(
                    targets@,
                    self.pipes@,
                    msg,
                    i as int,
                ));
            }
            i += 1;
        }
        let ghost sent = ctx@;
        assert(sent =~= sent + multicast(targets@, self.pipes@, msg, i as int));
        ctx.reply_send(Reply::Sent);
        ctx.cancel_timeout(timeout);
        self.lb.deactivate_all();
        assert(ctx@ =~= old(ctx)@ + (multicast(targets@, old(self).pipes@, msg, 0) + (seq![
            ProtoCmd::ReplySend(Reply::Sent),
        ] + cancelled(timeout))));
    }

    /// A pipe has sent its message: it can take the next one.
    pub fn on_send_ack(&mut self, ctx: &mut Context, eid: EndpointId)
        requires
            old(self).wf(),
        ensures
            final(self)@ == old(self)@.on_send_ready(eid).next,
            final(ctx)@ == old(ctx)@ + old(self)@.on_send_ready(eid).cmds,
            final(self).wf(),
    {
        self.lb.activate(eid);
        assert(ctx@ =~= old(ctx)@ + Seq::<ProtoCmd>::empty());
    }

    /// A pipe reports that it can send.
    pub fn on_send_ready(&mut self, ctx: &mut Context, eid: EndpointId)
        requires
            old(self).wf(),
        ensures
            final(self)@ == old(self)@.on_send_ready(eid).next,
            final(ctx)@ == old(ctx)@ + old(self)@.on_send_ready(eid).cmds,
            final(self).wf(),
    {
        self.lb.activate(eid);
        assert(ctx@ =~= old(ctx)@ + Seq::<ProtoCmd>::empty());
    }

    /// A send is answered at once, so none runs out of time.
    pub fn on_send_timeout(&mut self, ctx: &mut Context)
        ensures
            final(self)@ == old(self)@,
            final(ctx)@ == old(ctx)@,
    {
    }

    /// A receive is refused at once: the user gets an error of kind `Other`,
    /// and the timer of the receive is cancelled.
    pub fn recv(&mut self, ctx: &mut Context, timeout: Timeout)
        ensures
            final(self)@ == old(self)@,
            final(ctx)@ == old(ctx)@ + old(self)@.recv(timeout).cmds,
    {
        let error = other_io_error("Recv is not supported by pub protocol");
        ctx.reply_recv(Reply::Error(error));
        ctx.cancel_timeout(timeout);
        assert(ctx@ =~= old(ctx)@ + (seq![ProtoCmd::ReplyRecv(Reply::Error(recv_not_supported()))]
            + cancelled(timeout)));
    }

    /// Nothing is ever asked of a pipe, so no pipe hands over a message.
    pub fn on_recv_ack(&mut self, ctx: &mut Context, eid: EndpointId, msg: Message)
        ensures
            final(self)@ == old(self)@,
            final(ctx)@ == old(ctx)@,
    {
    }

    /// Nothing is ever received, so no receive runs out of time.
    pub fn on_recv_timeout(&mut self, ctx: &mut Context)
        ensures
            final(self)@ == old(self)@,
            final(ctx)@ == old(ctx)@,
    {
    }

    /// Nothing is ever received, so it does not matter which pipe could
    /// receive.
    pub fn on_recv_ready(&mut self, ctx: &mut Context, eid: EndpointId)
        ensures
            final(self)@ == old(self)@,
            final(ctx)@ == old(ctx)@,
    {
    }
}

} // verus!
