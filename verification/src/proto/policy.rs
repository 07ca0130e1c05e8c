//! What the protocols that receive from one pipe at a time have in common.

use vstd::prelude::*;
use crate::error::{timedout_io_error, Error, ErrorKind};
use crate::ids::EndpointId;
use crate::message::Message;
use crate::proto::context::{cancelled, Context, ProtoCmd, Reply, Timeout};
use crate::proto::pipe::Pipe;

verus! {

/// The pipe of the endpoint `eid` among `pipes`, if there is one.
pub open spec fn pipe_of(pipes: Map<usize, Pipe>, eid: EndpointId) -> Option<Pipe> {
    if pipes.contains_key(eid.0) {
        Some(pipes[eid.0])
    } else {
        None
    }
}

/// The request that asks the pipe of `eid` for a message, if there is such
/// a pipe.
pub open spec fn asked(pipes: Map<usize, Pipe>, eid: EndpointId) -> Seq<ProtoCmd> {
    if pipes.contains_key(eid.0) {
        seq![ProtoCmd::Recv(eid)]
    } else {
        Seq::empty()
    }
}

/// The error that answers a receive whose deadline has passed.
pub open spec fn recv_timeout_reached() -> Error {
    Error { kind: ErrorKind::TimedOut, message: "recv timeout reached" }
}

/// A protocol that keeps its pipes by the number of their endpoint.
pub trait WithPipes {
    /// The pipes of the protocol.
    spec fn pipes(&self) -> Map<usize, Pipe>;

    /// The pipe of the endpoint `eid`.
    fn get_pipe(&self, eid: &EndpointId) -> (pipe: Option<Pipe>)
        ensures
            pipe == pipe_of(self.pipes(), *eid),
    ;
}

/// A protocol that receives from one pipe at a time.
pub trait WithUnicastRecv: WithPipes {
    /// Whether the protocol has a pipe of the endpoint `eid` to receive
    /// from.
    fn can_recv(&self, eid: EndpointId) -> (yes: bool)
        ensures
            yes == self.pipes().contains_key(eid.0),
    {
        match self.get_pipe(&eid) {
            Some(_) => true,
            None => false,
        }
    }

    /// Asks the pipe of the endpoint `eid` for a message, and tells whether
    /// there is such a pipe.
    fn recv(&self, ctx: &mut Context, eid: EndpointId) -> (started: bool)
        ensures
            started == self.pipes().contains_key(eid.0),
            final(ctx)@ == old(ctx)@ + asked(self.pipes(), eid),
    {
        match self.get_pipe(&eid) {
            Some(_) => {
                ctx.push(ProtoCmd::Recv(eid));
                assert(ctx@ =~= old(ctx)@ + seq![ProtoCmd::Recv(eid)]);
                true
            },
            None => {
                assert(ctx@ =~= old(ctx)@ + Seq::<ProtoCmd>::empty());
                false
            },
        }
    }

    /// Answers the receive with the message, and cancels the timer of the
    /// receive.
    fn on_recv_done(&self, ctx: &mut Context, msg: Message, timeout: Timeout)
        ensures
            final(ctx)@ == old(ctx)@ + (seq![ProtoCmd::ReplyRecv(Reply::Recv(msg))] + cancelled(
                timeout,
            )),
    {
        ctx.reply_recv(Reply::Recv(msg));
        ctx.cancel_timeout(timeout);
        assert(ctx@ =~= old(ctx)@ + (seq![ProtoCmd::ReplyRecv(Reply::Recv(msg))] + cancelled(
            timeout,
        )));
    }

    /// Answers the receive with an error of kind `TimedOut`.
    fn on_recv_timeout(&self, ctx: &mut Context)
        ensures
            final(ctx)@ == old(ctx)@ + seq![
                ProtoCmd::ReplyRecv(Reply::Error(recv_timeout_reached())),
            ],
    {
        let err = timedout_io_error("recv timeout reached");

        ctx.reply_recv(Reply::Error(err));
        assert(ctx@ =~= old(ctx)@ + seq![ProtoCmd::ReplyRecv(Reply::Error(recv_timeout_reached()))]);
    }
}

} // verus!
