//! What a protocol asks of its pipes and of the reactor, and what it
//! answers the user.
//!
//! A protocol never performs anything itself. It writes its answers and
//! requests into a `Context`, in order, and the event loop carries them out.

use std::rc::Rc;
use vstd::prelude::*;
use crate::endpoint::EndpointTmpl;
use crate::error::Error;
use crate::ids::{EndpointId, Scheduled};
use crate::message::Message;
use crate::signal::{EventLoopTimeout, SessionNotify};

verus! {

/// The handle of the timer that guards an operation, if it has a deadline.
pub type Timeout = Option<Scheduled>;

/// The answer to a send or a receive.
#[derive(Debug, PartialEq, Eq, Clone)]
pub enum Reply {
    /// The message was sent.
    Sent,
    /// A message was received.
    Recv(Message),
    /// The operation failed.
    Error(Error),
}

/// One entry of a context.
#[derive(Debug, PartialEq, Eq)]
pub enum ProtoCmd {
    /// The answer to the pending send.
    ReplySend(Reply),
    /// The answer to the pending receive.
    ReplyRecv(Reply),
    /// Have the pipe of this endpoint send the message.
    Send(EndpointId, Rc<Message>),
    /// Have the pipe of this endpoint receive a message.
    Recv(EndpointId),
    /// Cancel the timer.
    Cancel(Scheduled),
    /// Close the pipe of this endpoint.
    Close(EndpointId),
    /// Open a connection for this endpoint.
    Connect(EndpointId, EndpointTmpl),
    /// Open a listener for this endpoint.
    Bind(EndpointId, EndpointTmpl),
    /// Close this endpoint, and the pipes that it has made.
    CloseEndpoint(EndpointId),
    /// The answer to `connect`: the endpoint is recorded.
    Connected(EndpointId),
    /// The answer to `connect`: the address was refused.
    NotConnected(Error),
    /// The answer to `bind`: the endpoint is recorded.
    Bound(EndpointId),
    /// The answer to `bind`: the address was refused.
    NotBound(Error),
    /// The answer to `set_option`: the option is set.
    OptionSet,
    /// The answer to `set_option`: the option was refused.
    OptionNotSet(Error),
    /// Start a timer that delivers the timeout after so many milliseconds.
    Schedule(Scheduled, EventLoopTimeout, u64),
    /// Tell the user.
    Notify(SessionNotify),
    /// Stop the event loop.
    Shutdown,
}

/// The number of answers to sends among the entries.
pub open spec fn send_replies(cmds: Seq<ProtoCmd>) -> nat
    decreases cmds.len(),
{
    if cmds.len() == 0 {
        0
    } else {
        send_replies(cmds.drop_last()) + if cmds.last() is ReplySend {
            1nat
        } else {
            0nat
        }
    }
}

/// The number of answers to receives among the entries.
pub open spec fn recv_replies(cmds: Seq<ProtoCmd>) -> nat
    decreases cmds.len(),
{
    if cmds.len() == 0 {
        0
    } else {
        recv_replies(cmds.drop_last()) + if cmds.last() is ReplyRecv {
            1nat
        } else {
            0nat
        }
    }
}

/// The answers among no entry, one entry and two entries.
pub proof fn lemma_replies_short(a: ProtoCmd, b: ProtoCmd)
    ensures
        send_replies(Seq::<ProtoCmd>::empty()) == 0,
        recv_replies(Seq::<ProtoCmd>::empty()) == 0,
        send_replies(seq![a]) == if a is ReplySend {
            1nat
        } else {
            0nat
        },
        recv_replies(seq![a]) == if a is ReplyRecv {
            1nat
        } else {
            0nat
        },
        send_replies(seq![a, b]) == send_replies(seq![a]) + if b is ReplySend {
            1nat
        } else {
            0nat
        },
        recv_replies(seq![a, b]) == recv_replies(seq![a]) + if b is ReplyRecv {
            1nat
        } else {
            0nat
        },
{
    reveal_with_fuel(send_replies, 3);
    reveal_with_fuel(recv_replies, 3);
    assert(seq![a].drop_last() =~= Seq::<ProtoCmd>::empty());
    assert(seq![a, b].drop_last() =~= seq![a]);
}

/// The answers among two runs of entries, one after the other.
pub proof fn lemma_replies_concat(first: Seq<ProtoCmd>, second: Seq<ProtoCmd>)
    ensures
        send_replies(first + second) == send_replies(first) + send_replies(second),
        recv_replies(first + second) == recv_replies(first) + recv_replies(second),
    decreases second.len(),
{
    if second.len() == 0 {
        assert(first + second =~= first);
    } else {
        assert((first + second).drop_last() =~= first + second.drop_last());
        assert((first + second).last() == second.last());
        lemma_replies_concat(first, second.drop_last());
    }
}

/// The answers and requests of a protocol, in the order in which it made
/// them.
pub struct Context {
    cmds: Vec<ProtoCmd>,
}

impl View for Context {
    type V = Seq<ProtoCmd>;

    closed spec fn view(&self) -> Seq<ProtoCmd> {
        self.cmds@
    }
}

impl Context {
    /// An empty context.
    pub fn new() -> (ctx: Context)
        ensures
            ctx@ == Seq::<ProtoCmd>::empty(),
    {
        Context { cmds: Vec::new() }
    }

    /// Appends an entry.
    pub fn push(&mut self, cmd: ProtoCmd)
        ensures
            final(self)@ == old(self)@.push(cmd),
    {
        self.cmds.push(cmd);
    }

    /// Answers the pending send.
    pub fn reply_send(&mut self, reply: Reply)
        ensures
            final(self)@ == old(self)@.push(ProtoCmd::ReplySend(reply)),
    {
        self.cmds.push(ProtoCmd::ReplySend(reply));
    }

    /// Answers the pending receive.
    pub fn reply_recv(&mut self, reply: Reply)
        ensures
            final(self)@ == old(self)@.push(ProtoCmd::ReplyRecv(reply)),
    {
        self.cmds.push(ProtoCmd::ReplyRecv(reply));
    }

    /// Asks for the timer to be cancelled.
    pub fn cancel(&mut self, scheduled: Scheduled)
        ensures
            final(self)@ == old(self)@.push(ProtoCmd::Cancel(scheduled)),
    {
        self.cmds.push(ProtoCmd::Cancel(scheduled));
    }

    /// Asks for the timer of an operation to be cancelled, if it has one.
    pub fn cancel_timeout(&mut self, timeout: Timeout)
        ensures
            final(self)@ == old(self)@ + cancelled(timeout),
    {
        if let Some(scheduled) = timeout {
            self.cancel(scheduled);
            assert(self@ =~= old(self)@ + cancelled(timeout));
        } else {
            assert(self@ =~= old(self)@ + cancelled(timeout));
        }
    }

    /// The number of entries.
    pub fn len(&self) -> (n: usize)
        ensures
            n == self@.len(),
    {
        self.cmds.len()
    }

    /// The entries, oldest first.
    pub fn commands(&self) -> (cmds: &Vec<ProtoCmd>)
        ensures
            cmds@ == self@,
    {
        &self.cmds
    }

    /// Hands the entries out, oldest first, and leaves the context empty.
    pub fn take(&mut self) -> (cmds: Vec<ProtoCmd>)
        ensures
            cmds@ == old(self)@,
            final(self)@ == Seq::<ProtoCmd>::empty(),
    {
        let mut cmds: Vec<ProtoCmd> = Vec::new();
        std::mem::swap(&mut self.cmds, &mut cmds);
        cmds
    }
}

/// The request that cancels the timer of an operation, if it has one.
pub open spec fn cancelled(timeout: Timeout) -> Seq<ProtoCmd> {
    match timeout {
        Some(scheduled) => seq![ProtoCmd::Cancel(scheduled)],
        None => Seq::empty(),
    }
}

} // verus!
