//! The socket: one protocol, the endpoints that the user has opened, and the
//! time limits of sends and receives.
//!
//! A socket turns the commands of the user, the events of its pipes and the
//! timers into operations of its protocol. It owes an answer to one send at
//! most and to one receive at most: while one is pending, the next fails with
//! `WouldBlock`.

use vstd::prelude::*;
use crate::endpoint::{
    Backoff,
    Endpoint,
    EndpointDesc,
    EndpointKind,
    EndpointSpec,
    EndpointTmpl,
};
use crate::error::{invalid_input_io_error, would_block_io_error};
use crate::id_sequence::IdSequence;
use crate::ids::{EndpointId, Scheduled, SocketId};
use crate::message::Message;
use crate::options::SocketOption;
use crate::proto::context::{Context, ProtoCmd, Reply, Timeout};
use crate::proto::pipe::Pipe;
use crate::proto::protocol::{Protocol, SocketProtocol};
use crate::signal::{EventLoopTimeout, SocketCmdSignal, SocketEvtSignal};
use crate::socket_model::{
    close_all,
    default_desc,
    endpoint_index,
    lemma_endpoint_index,
    recv_pending,
    scheduled,
    send_pending,
    SocketView,
};
use crate::transport::context::PipeEvt;
use crate::transport::readiness::{event_set_bits, is_readable, is_writable};
use crate::url::check_url;

verus! {

/// A socket.
pub struct Socket {
    id: SocketId,
    protocol: SocketProtocol,
    endpoints: Vec<Endpoint>,
    id_seq: IdSequence,
    send_timeout: Option<u64>,
    recv_timeout: Option<u64>,
    desc: EndpointDesc,
}

impl View for Socket {
    type V = SocketView;

    closed spec fn view(&self) -> SocketView {
        SocketView {
            id: self.id,
            protocol: self.protocol@,
            endpoints: self.endpoints@,
            send_timeout: self.send_timeout,
            recv_timeout: self.recv_timeout,
            desc: self.desc,
        }
    }
}

impl Socket {
    /// The invariant that every operation keeps.
    pub closed spec fn wf(&self) -> bool {
        self@.wf() && self.protocol.wf()
    }

    /// What well-formedness says of the content.
    pub proof fn lemma_wf(&self)
        requires
            self.wf(),
        ensures
            self@.wf(),
    {
    }

    /// A socket with the given protocol, without endpoints and without time
    /// limits. Its endpoints will get the priority 8 in both directions.
    pub fn new(id: SocketId, protocol: SocketProtocol, id_seq: IdSequence) -> (socket: Socket)
        requires
            protocol.wf(),
        ensures
            socket.wf(),
            socket@ == (SocketView {
                id,
                protocol: protocol@,
                endpoints: Seq::empty(),
                send_timeout: None,
                recv_timeout: None,
                desc: default_desc(),
            }),
    {
        proof {
            protocol.lemma_wf();
        }
        Socket {
            id,
            protocol,
            endpoints: Vec::new(),
            id_seq,
            send_timeout: None,
            recv_timeout: None,
            desc: EndpointDesc {
                send_priority: 8,
                recv_priority: 8,
                tcp_no_delay: false,
                recv_max_size: 1_048_576,
            },
        }
    }

    /// The identifier of the socket.
    pub fn id(&self) -> (id: SocketId)
        ensures
            id == self@.id,
    {
        self.id
    }

    /// Whether a send is owed an answer.
    pub fn is_send_pending(&self) -> (pending: bool)
        ensures
            pending == (self@.owed_send() != 0),
    {
        self.protocol.is_send_pending()
    }

    /// Whether a receive is owed an answer.
    pub fn is_recv_pending(&self) -> (pending: bool)
        ensures
            pending == (self@.owed_recv() != 0),
    {
        self.protocol.is_recv_pending()
    }

    /// The number of endpoints that the socket has.
    pub fn endpoint_count(&self) -> (n: usize)
        ensures
            n == self@.endpoints.len(),
    {
        self.endpoints.len()
    }

    fn find(&self, eid: EndpointId) -> (index: Option<usize>)
        ensures
            match index {
                Some(i) => self@.find(eid) == Some(i as int) && i < self@.endpoints.len(),
                None => self@.find(eid) is None,
            },
    {
        let mut i: usize = 0;
        while i < self.endpoints.len()
            invariant
                i <= self.endpoints@.len(),
                endpoint_index(self.endpoints@, eid, 0) == endpoint_index(
                    self.endpoints@,
                    eid,
                    i as int,
                ),
            decreases self.endpoints@.len() - i,
        {
            if self.endpoints[i].eid == eid {
                return Some(i);
            }
            i += 1;
        }
        None
    }

    fn tmpl(&self, url: String, desc: EndpointDesc) -> (tmpl: EndpointTmpl)
        ensures
            tmpl == self@.tmpl(url, desc),
    {
        EndpointTmpl {
            pids: (self.protocol.id(), self.protocol.peer_id()),
            spec: EndpointSpec { url, desc },
        }
    }

    /// A command of the user. `connect` and `bind` record the endpoint under
    /// a fresh identifier, `send` and `recv` start their timer under a fresh
    /// one: the step is that of `handle_cmd_with` for some number.
    pub fn handle_cmd(&mut self, ctx: &mut Context, cmd: SocketCmdSignal)
        requires
            old(self).wf(),
        ensures
            final(self).wf(),
            exists|fresh: usize|
                {
                    let step = #[trigger] old(self)@.handle_cmd(cmd, fresh);
                    final(self)@ == step.next && final(ctx)@ == old(ctx)@ + step.cmds
                },
    {
        let fresh = self.id_seq.next();
        self.handle_cmd_with(ctx, cmd, fresh);
        assert(self@ == old(self)@.handle_cmd(cmd, fresh).next);
    }

    /// A command of the user, with the number to use where the command needs
    /// a fresh identifier.
    pub fn handle_cmd_with(&mut self, ctx: &mut Context, cmd: SocketCmdSignal, fresh: usize)
        requires
            old(self).wf(),
        ensures
            final(self).wf(),
            final(self)@ == old(self)@.handle_cmd(cmd, fresh).next,
            final(ctx)@ == old(ctx)@ + old(self)@.handle_cmd(cmd, fresh).cmds,
    {
        match cmd {
            SocketCmdSignal::Connect(url) => self.open_endpoint(
                ctx,
                EndpointKind::Connector,
                url,
                EndpointId(fresh),
            ),
            SocketCmdSignal::Bind(url) => self.open_endpoint(
                ctx,
                EndpointKind::Acceptor,
                url,
                EndpointId(fresh),
            ),
            SocketCmdSignal::Shutdown(eid) => self.shutdown(ctx, eid),
            SocketCmdSignal::SendMsg(msg) => self.send_with(ctx, msg, Scheduled(fresh)),
            SocketCmdSignal::RecvMsg => self.recv_with(ctx, Scheduled(fresh)),
            SocketCmdSignal::SetOption(option) => self.set_option(ctx, option),
        }
    }

    /// Records an endpoint for `url` under a fresh identifier, asks for a
    /// connection to be opened, and tells the user the identifier. An address
    /// that the library does not serve is refused with `InvalidInput`.
    pub fn connect(&mut self, ctx: &mut Context, url: String)
        requires
            old(self).wf(),
        ensures
            final(self).wf(),
            exists|eid: EndpointId|
                {
                    let step = #[trigger] old(self)@.open_endpoint(
                        EndpointKind::Connector,
                        url,
                        eid,
                    );
                    final(self)@ == step.next && final(ctx)@ == old(ctx)@ + step.cmds
                },
    {
        let eid = EndpointId(self.id_seq.next());
        self.open_endpoint(ctx, EndpointKind::Connector, url, eid);
        assert(self@ == old(self)@.open_endpoint(EndpointKind::Connector, url, eid).next);
    }

    /// Records an endpoint for `url` under a fresh identifier, asks for a
    /// listener to be opened, and tells the user the identifier. An address
    /// that the library does not serve is refused with `InvalidInput`.
    pub fn bind(&mut self, ctx: &mut Context, url: String)
        requires
            old(self).wf(),
        ensures
            final(self).wf(),
            exists|eid: EndpointId|
                {
                    let step = #[trigger] old(self)@.open_endpoint(EndpointKind::Acceptor, url, eid);
                    final(self)@ == step.next && final(ctx)@ == old(ctx)@ + step.cmds
                },
    {
        let eid = EndpointId(self.id_seq.next());
        self.open_endpoint(ctx, EndpointKind::Acceptor, url, eid);
        assert(self@ == old(self)@.open_endpoint(EndpointKind::Acceptor, url, eid).next);
    }

    /// `connect` or `bind` under the identifier `eid`.
    pub fn open_endpoint(
        &mut self,
        ctx: &mut Context,
        kind: EndpointKind,
        url: String,
        eid: EndpointId,
    )
        requires
            old(self).wf(),
        ensures
            final(self).wf(),
            final(self)@ == old(self)@.open_endpoint(kind, url, eid).next,
            final(ctx)@ == old(ctx)@ + old(self)@.open_endpoint(kind, url, eid).cmds,
    {
        let ghost step = self@.open_endpoint(kind, url, eid);
        match check_url(&url) {
            Ok(_) => {
                let tmpl = self.tmpl(url.clone(), self.desc);
                let endpoint = Endpoint { eid, kind, url, desc: self.desc, backoff: Backoff::new() };
                self.endpoints.push(endpoint);
                match kind {
                    EndpointKind::Connector => {
                        ctx.push(ProtoCmd::Connect(eid, tmpl));
                        ctx.push(ProtoCmd::Connected(eid));
                    },
                    EndpointKind::Acceptor => {
                        ctx.push(ProtoCmd::Bind(eid, tmpl));
                        ctx.push(ProtoCmd::Bound(eid));
                    },
                }
                assert(ctx@ =~= old(ctx)@ + step.cmds);
                assert forall|i: int| 0 <= i < self.endpoints@.len() implies (
                #[trigger] self.endpoints@[i]).wf() by {
                    if i < old(self).endpoints@.len() {
                        assert(self.endpoints@[i] == old(self).endpoints@[i]);
                    }
                }
            },
            Err(e) => {
                match kind {
                    EndpointKind::Connector => ctx.push(ProtoCmd::NotConnected(e)),
                    EndpointKind::Acceptor => ctx.push(ProtoCmd::NotBound(e)),
                }
                assert(ctx@ =~= old(ctx)@ + step.cmds);
            },
        }
    }

    /// Forgets the endpoint `eid` and asks for it to be closed, with the
    /// pipes that it has made. Nothing happens if the socket has no such
    /// endpoint.
    pub fn shutdown(&mut self, ctx: &mut Context, eid: EndpointId)
        requires
            old(self).wf(),
        ensures
            final(self).wf(),
            final(self)@ == old(self)@.shutdown(eid).next,
            final(ctx)@ == old(ctx)@ + old(self)@.shutdown(eid).cmds,
    {
        match self.find(eid) {
            Some(k) => {
                self.endpoints.remove(k);
                ctx.push(ProtoCmd::CloseEndpoint(eid));
                assert(ctx@ =~= old(ctx)@ + seq![ProtoCmd::CloseEndpoint(eid)]);
                assert forall|i: int| 0 <= i < self.endpoints@.len() implies (
                #[trigger] self.endpoints@[i]).wf() by {
                    let j = if i < k { i } else { i + 1 };
                    assert(self.endpoints@[i] == old(self).endpoints@[j]);
                }
            },
            None => {
                assert(ctx@ =~= old(ctx)@ + Seq::<ProtoCmd>::empty());
            },
        }
    }

    fn schedule(
        &self,
        ctx: &mut Context,
        limit: Option<u64>,
        timer: Scheduled,
        what: EventLoopTimeout,
    ) -> (timeout: Timeout)
        ensures
            timeout == scheduled(limit, timer, what).0,
            final(ctx)@ == old(ctx)@ + scheduled(limit, timer, what).1,
    {
        match limit {
            Some(delay) => {
                ctx.push(ProtoCmd::Schedule(timer, what, delay));
                assert(ctx@ =~= old(ctx)@ + seq![ProtoCmd::Schedule(timer, what, delay)]);
                Some(timer)
            },
            None => {
                assert(ctx@ =~= old(ctx)@ + Seq::<ProtoCmd>::empty());
                None
            },
        }
    }

    /// The user hands over a message. While a send is pending it fails with
    /// `WouldBlock`; otherwise its timer is started under a fresh identifier,
    /// if sends have a time limit, and the protocol gets the message.
    pub fn send(&mut self, ctx: &mut Context, msg: Message)
        requires
            old(self).wf(),
        ensures
            final(self).wf(),
            exists|timer: Scheduled|
                {
                    let step = #[trigger] old(self)@.send(msg, timer);
                    final(self)@ == step.next && final(ctx)@ == old(ctx)@ + step.cmds
                },
    {
        let timer = Scheduled(self.id_seq.next());
        self.send_with(ctx, msg, timer);
        assert(self@ == old(self)@.send(msg, timer).next);
    }

    /// `send`, with the identifier to start the timer under.
    pub fn send_with(&mut self, ctx: &mut Context, msg: Message, timer: Scheduled)
        requires
            old(self).wf(),
        ensures
            final(self).wf(),
            final(self)@ == old(self)@.send(msg, timer).next,
            final(ctx)@ == old(ctx)@ + old(self)@.send(msg, timer).cmds,
    {
        if self.protocol.is_send_pending() {
            ctx.reply_send(Reply::Error(would_block_io_error("a send is already pending")));
            assert(ctx@ =~= old(ctx)@ + seq![ProtoCmd::ReplySend(Reply::Error(send_pending()))]);
        } else {
            let timeout = self.schedule(
                ctx,
                self.send_timeout,
                timer,
                EventLoopTimeout::CancelSend(self.id),
            );
            self.protocol.send(ctx, msg, timeout);
            proof {
                self.protocol.lemma_wf();
                let first = scheduled(
                    self.send_timeout,
                    timer,
                    EventLoopTimeout::CancelSend(self.id),
                ).1;
                assert(ctx@ =~= old(ctx)@ + (first + old(self)@.protocol.send(msg, timeout).cmds));
            }
        }
    }

    /// The user asks for a message. While a receive is pending it fails with
    /// `WouldBlock`; otherwise its timer is started under a fresh identifier,
    /// if receives have a time limit, and the protocol is asked.
    pub fn recv(&mut self, ctx: &mut Context)
        requires
            old(self).wf(),
        ensures
            final(self).wf(),
            exists|timer: Scheduled|
                {
                    let step = #[trigger] old(self)@.recv(timer);
                    final(self)@ == step.next && final(ctx)@ == old(ctx)@ + step.cmds
                },
    {
        let timer = Scheduled(self.id_seq.next());
        self.recv_with(ctx, timer);
        assert(self@ == old(self)@.recv(timer).next);
    }

    /// `recv`, with the identifier to start the timer under.
    pub fn recv_with(&mut self, ctx: &mut Context, timer: Scheduled)
        requires
            old(self).wf(),
        ensures
            final(self).wf(),
            final(self)@ == old(self)@.recv(timer).next,
            final(ctx)@ == old(ctx)@ + old(self)@.recv(timer).cmds,
    {
        if self.protocol.is_recv_pending() {
            ctx.reply_recv(Reply::Error(would_block_io_error("a recv is already pending")));
            assert(ctx@ =~= old(ctx)@ + seq![ProtoCmd::ReplyRecv(Reply::Error(recv_pending()))]);
        } else {
            let timeout = self.schedule(
                ctx,
                self.recv_timeout,
                timer,
                EventLoopTimeout::CancelRecv(self.id),
            );
            self.protocol.recv(ctx, timeout);
            proof {
                self.protocol.lemma_wf();
                let first = scheduled(
                    self.recv_timeout,
                    timer,
                    EventLoopTimeout::CancelRecv(self.id),
                ).1;
                assert(ctx@ =~= old(ctx)@ + (first + old(self)@.protocol.recv(timeout).cmds));
            }
        }
    }

    /// Sets an option, and tells the user whether it was taken. The socket
    /// keeps the time limits and what its new endpoints are made with; any
    /// other option is the protocol's.
    pub fn set_option(&mut self, ctx: &mut Context, option: SocketOption)
        requires
            old(self).wf(),
        ensures
            final(self).wf(),
            final(self)@ == old(self)@.set_option(option).next,
            final(ctx)@ == old(ctx)@ + old(self)@.set_option(option).cmds,
    {
        let res = match option {
            SocketOption::SendTimeout(limit) => {
                self.send_timeout = limit;
                Ok(())
            },
            SocketOption::RecvTimeout(limit) => {
                self.recv_timeout = limit;
                Ok(())
            },
            SocketOption::SendPriority(p) => {
                if 1 <= p && p <= 16 {
                    self.desc.send_priority = p;
                    Ok(())
                } else {
                    Err(invalid_input_io_error("priority must be between 1 and 16"))
                }
            },
            SocketOption::RecvPriority(p) => {
                if 1 <= p && p <= 16 {
                    self.desc.recv_priority = p;
                    Ok(())
                } else {
                    Err(invalid_input_io_error("priority must be between 1 and 16"))
                }
            },
            SocketOption::TcpNoDelay(flag) => {
                self.desc.tcp_no_delay = flag;
                Ok(())
            },
            SocketOption::RecvMaxSize(size) => {
                self.desc.recv_max_size = size;
                Ok(())
            },
            other => {
                let res = self.protocol.set_option(other);
                proof {
                    self.protocol.lemma_wf();
                }
                res
            },
        };
        match res {
            Ok(_) => {
                ctx.push(ProtoCmd::OptionSet);
                assert(ctx@ =~= old(ctx)@ + seq![ProtoCmd::OptionSet]);
            },
            Err(e) => {
                ctx.push(ProtoCmd::OptionNotSet(e));
                assert(ctx@ =~= old(ctx)@ + seq![ProtoCmd::OptionNotSet(e)]);
            },
        }
    }

    /// An event of an endpoint. A new pipe goes to the protocol, with the
    /// priorities that the socket gives its endpoints at this time.
    pub fn handle_evt(&mut self, ctx: &mut Context, evt: SocketEvtSignal)
        requires
            old(self).wf(),
        ensures
            final(self).wf(),
            final(self)@ == old(self)@.handle_evt(evt).next,
            final(ctx)@ == old(ctx)@ + old(self)@.handle_evt(evt).cmds,
    {
        match evt {
            SocketEvtSignal::PipeAdded(eid) => {
                let pipe = Pipe::new(eid, &self.desc);
                let _ = self.protocol.add_pipe(ctx, eid, pipe);
                proof {
                    self.protocol.lemma_wf();
                }
            },
            _ => {
                assert(ctx@ =~= old(ctx)@ + Seq::<ProtoCmd>::empty());
            },
        }
    }

    fn endpoint_succeeded(&mut self, eid: EndpointId)
        requires
            old(self).wf(),
        ensures
            final(self).wf(),
            final(self)@ == old(self)@.with_endpoints(old(self)@.after_success(eid)),
    {
        if let Some(k) = self.find(eid) {
            proof {
                lemma_endpoint_index(self.endpoints@, eid, 0);
            }
            let url = self.endpoints[k].url.clone();
            let kind = self.endpoints[k].kind;
            let desc = self.endpoints[k].desc;
            self.endpoints[k] = Endpoint { eid, kind, url, desc, backoff: Backoff::new() };
            assert forall|i: int| 0 <= i < self.endpoints@.len() implies (
            #[trigger] self.endpoints@[i]).wf() by {
                assert(old(self).endpoints@[i].wf());
            }
        }
    }

    fn endpoint_failed(&mut self, ctx: &mut Context, eid: EndpointId, timer: Scheduled)
        requires
            old(self).wf(),
        ensures
            final(self).wf(),
            final(self)@ == old(self)@.with_endpoints(old(self)@.after_failure(eid, timer).0),
            final(ctx)@ == old(ctx)@ + old(self)@.after_failure(eid, timer).1,
    {
        match self.find(eid) {
            Some(k) => {
                proof {
                    lemma_endpoint_index(self.endpoints@, eid, 0);
                    assert(self.endpoints@[k as int].wf());
                }
                let kind = self.endpoints[k].kind;
                let desc = self.endpoints[k].desc;
                let mut backoff = self.endpoints[k].backoff;
                let delay = backoff.failed();
                let what = match kind {
                    EndpointKind::Connector => EventLoopTimeout::Reconnect(
                        eid,
                        self.endpoints[k].url.clone(),
                    ),
                    EndpointKind::Acceptor => EventLoopTimeout::Rebind(
                        eid,
                        self.endpoints[k].url.clone(),
                    ),
                };
                let url = self.endpoints[k].url.clone();
                self.endpoints[k] = Endpoint { eid, kind, url, desc, backoff };
                ctx.push(ProtoCmd::Schedule(timer, what, delay));
                assert(ctx@ =~= old(ctx)@ + old(self)@.after_failure(eid, timer).1);
                assert forall|i: int| 0 <= i < self.endpoints@.len() implies (
                #[trigger] self.endpoints@[i]).wf() by {
                    assert(old(self).endpoints@[i].wf());
                }
            },
            None => {
                assert(ctx@ =~= old(ctx)@ + Seq::<ProtoCmd>::empty());
            },
        }
    }

    /// An event of the pipe of `eid`. Should the pipe have closed, its
    /// endpoint is opened again after a delay, by a timer that is started
    /// under a fresh identifier.
    pub fn on_pipe_evt(&mut self, ctx: &mut Context, eid: EndpointId, evt: PipeEvt)
        requires
            old(self).wf(),
        ensures
            final(self).wf(),
            exists|timer: Scheduled|
                {
                    let step = #[trigger] old(self)@.on_pipe_evt(eid, evt, timer);
                    final(self)@ == step.next && final(ctx)@ == old(ctx)@ + step.cmds
                },
    {
        let timer = Scheduled(self.id_seq.next());
        self.on_pipe_evt_with(ctx, eid, evt, timer);
        assert(self@ == old(self)@.on_pipe_evt(eid, evt, timer).next);
    }

    /// An event of the pipe of `eid`, with the identifier to start a timer
    /// under. An open pipe can send, and its endpoint has succeeded. A
    /// closed pipe leaves the protocol, and its endpoint is opened again
    /// after its delay. The other events go to the protocol as they are.
    pub fn on_pipe_evt_with(
        &mut self,
        ctx: &mut Context,
        eid: EndpointId,
        evt: PipeEvt,
        timer: Scheduled,
    )
        requires
            old(self).wf(),
        ensures
            final(self).wf(),
            final(self)@ == old(self)@.on_pipe_evt(eid, evt, timer).next,
            final(ctx)@ == old(ctx)@ + old(self)@.on_pipe_evt(eid, evt, timer).cmds,
    {
        match evt {
            PipeEvt::Opened => {
                self.endpoint_succeeded(eid);
                self.protocol.on_send_ready(ctx, eid);
            },
            PipeEvt::Closed => {
                self.endpoint_failed(ctx, eid, timer);
                let _ = self.protocol.remove_pipe(ctx, eid);
            },
            PipeEvt::SentMsg => self.protocol.on_send_ack(ctx, eid),
            PipeEvt::RecvMsg(msg) => self.protocol.on_recv_ack(ctx, eid, msg),
            PipeEvt::CanSend => self.protocol.on_send_ready(ctx, eid),
            PipeEvt::CanRecv => self.protocol.on_recv_ready(ctx, eid),
        }
        proof {
            self.protocol.lemma_wf();
        }
    }

    /// The reactor reports the pipe of `eid` ready: a readable pipe can
    /// receive, and a writable pipe can send.
    pub fn ready(&mut self, ctx: &mut Context, eid: EndpointId, events: mio::EventSet)
        requires
            old(self).wf(),
        ensures
            final(self).wf(),
            final(self)@ == old(self)@.ready(eid, event_set_bits(events)).next,
            final(ctx)@ == old(ctx)@ + old(self)@.ready(eid, event_set_bits(events)).cmds,
    {
        let ghost step = self@.ready(eid, event_set_bits(events));
        if is_readable(&events) {
            self.protocol.on_recv_ready(ctx, eid);
        } else {
            assert(ctx@ =~= old(ctx)@ + Seq::<ProtoCmd>::empty());
        }
        proof {
            self.protocol.lemma_wf();
        }
        if is_writable(&events) {
            self.protocol.on_send_ready(ctx, eid);
            assert(ctx@ =~= old(ctx)@ + step.cmds);
        } else {
            assert(ctx@ =~= old(ctx)@ + step.cmds);
        }
        proof {
            self.protocol.lemma_wf();
        }
    }

    /// Whether the socket has the endpoint `eid`.
    pub fn has_endpoint(&self, eid: EndpointId) -> (yes: bool)
        ensures
            yes == (self@.find(eid) is Some),
    {
        self.find(eid).is_some()
    }

    /// The timer of the send has fired: the protocol gives the send up.
    pub fn on_send_timeout(&mut self, ctx: &mut Context)
        requires
            old(self).wf(),
        ensures
            final(self).wf(),
            final(self)@ == old(self)@.on_send_timeout().next,
            final(ctx)@ == old(ctx)@ + old(self)@.on_send_timeout().cmds,
    {
        self.protocol.on_send_timeout(ctx);
        proof {
            self.protocol.lemma_wf();
        }
    }

    /// The timer of the receive has fired: the protocol gives the receive
    /// up.
    pub fn on_recv_timeout(&mut self, ctx: &mut Context)
        requires
            old(self).wf(),
        ensures
            final(self).wf(),
            final(self)@ == old(self)@.on_recv_timeout().next,
            final(ctx)@ == old(ctx)@ + old(self)@.on_recv_timeout().cmds,
    {
        self.protocol.on_recv_timeout(ctx);
        proof {
            self.protocol.lemma_wf();
        }
    }

    /// No protocol of the library runs a survey: the timer means nothing.
    pub fn on_survey_timeout(&mut self, ctx: &mut Context)
        ensures
            *final(self) == *old(self),
            final(ctx)@ == old(ctx)@,
    {
    }

    /// No protocol of the library sends a request again: the timer means
    /// nothing.
    pub fn resend(&mut self, ctx: &mut Context)
        ensures
            *final(self) == *old(self),
            final(ctx)@ == old(ctx)@,
    {
    }

    fn reopen(&mut self, ctx: &mut Context, kind: EndpointKind, eid: EndpointId)
        requires
            old(self).wf(),
        ensures
            final(self).wf(),
            final(self)@ == old(self)@.reopen(kind, eid).next,
            final(ctx)@ == old(ctx)@ + old(self)@.reopen(kind, eid).cmds,
    {
        let ghost step = self@.reopen(kind, eid);
        match self.find(eid) {
            Some(k) => {
                let found = match self.endpoints[k].kind {
                    EndpointKind::Connector => match kind {
                        EndpointKind::Connector => true,
                        EndpointKind::Acceptor => false,
                    },
                    EndpointKind::Acceptor => match kind {
                        EndpointKind::Connector => false,
                        EndpointKind::Acceptor => true,
                    },
                };
                if found {
                    let tmpl = self.tmpl(self.endpoints[k].url.clone(), self.endpoints[k].desc);
                    match kind {
                        EndpointKind::Connector => ctx.push(ProtoCmd::Connect(eid, tmpl)),
                        EndpointKind::Acceptor => ctx.push(ProtoCmd::Bind(eid, tmpl)),
                    }
                    assert(ctx@ =~= old(ctx)@ + step.cmds);
                } else {
                    assert(ctx@ =~= old(ctx)@ + Seq::<ProtoCmd>::empty());
                }
            },
            None => {
                assert(ctx@ =~= old(ctx)@ + Seq::<ProtoCmd>::empty());
            },
        }
    }

    /// The timer of a connector has fired: the connection is opened again,
    /// if the socket still has the endpoint.
    pub fn reconnect(&mut self, ctx: &mut Context, eid: EndpointId)
        requires
            old(self).wf(),
        ensures
            final(self).wf(),
            final(self)@ == old(self)@.reopen(EndpointKind::Connector, eid).next,
            final(ctx)@ == old(ctx)@ + old(self)@.reopen(EndpointKind::Connector, eid).cmds,
    {
        self.reopen(ctx, EndpointKind::Connector, eid);
    }

    /// The timer of an acceptor has fired: the listener is opened again, if
    /// the socket still has the endpoint.
    pub fn rebind(&mut self, ctx: &mut Context, eid: EndpointId)
        requires
            old(self).wf(),
        ensures
            final(self).wf(),
            final(self)@ == old(self)@.reopen(EndpointKind::Acceptor, eid).next,
            final(ctx)@ == old(ctx)@ + old(self)@.reopen(EndpointKind::Acceptor, eid).cmds,
    {
        self.reopen(ctx, EndpointKind::Acceptor, eid);
    }

    /// Forgets every endpoint and asks for each to be closed, with its
    /// pipes.
    pub fn destroy(&mut self, ctx: &mut Context)
        requires
            old(self).wf(),
        ensures
            final(self).wf(),
            final(self)@ == old(self)@.destroy().next,
            final(ctx)@ == old(ctx)@ + old(self)@.destroy().cmds,
    {
        let ghost all = self.endpoints@;
        let mut i: usize = 0;
        while i < self.endpoints.len()
            invariant
                i <= self.endpoints@.len(),
                self.endpoints@ == all,
                *self == *old(self),
                ctx@ + close_all(all, i as int) == old(ctx)@ + close_all(all, 0),
            decreases self.endpoints@.len() - i,
        {
            let ghost before = ctx@;
            ctx.push(ProtoCmd::CloseEndpoint(self.endpoints[i].eid));
            assert(ctx@ + close_all(all, i + 1) =~= before + close_all(all, i as int));
            i += 1;
        }
        assert(ctx@ =~= ctx@ + close_all(all, i as int));
        self.endpoints.clear();
    }
}

} // verus!
