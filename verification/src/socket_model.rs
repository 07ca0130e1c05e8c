//! The socket as a mathematical state machine: what it holds, and what each
//! command, event and timer does to it.

use vstd::prelude::*;
use vstd::utf8::encode_utf8;
use crate::endpoint::{
    next_delay,
    Backoff,
    Endpoint,
    EndpointDesc,
    EndpointKind,
    EndpointSpec,
    EndpointTmpl,
    INITIAL_BACKOFF,
};
use crate::error::{Error, ErrorKind};
use crate::ids::{EndpointId, Scheduled, SocketId};
use crate::message::Message;
use crate::options::SocketOption;
use crate::prio_state::valid_priority;
use crate::proto::context::{
    lemma_replies_concat,
    lemma_replies_short,
    recv_replies,
    send_replies,
    ProtoCmd,
    Reply,
    Timeout,
};
use crate::proto::pipe::Pipe;
use crate::proto::protocol::{ProtocolStep, ProtocolView};
use crate::signal::{EventLoopTimeout, SocketCmdSignal, SocketEvtSignal};
use crate::transport::context::PipeEvt;
use crate::transport::readiness::{event_set_bits, readable_in, writable_in};
use crate::url::{invalid_url, valid_url};

verus! {

/// The content of a socket.
pub struct SocketView {
    pub id: SocketId,
    pub protocol: ProtocolView,
    pub endpoints: Seq<Endpoint>,
    pub send_timeout: Option<u64>,
    pub recv_timeout: Option<u64>,
    pub desc: EndpointDesc,
}

/// The outcome of a step: the content that follows, and what the step wrote
/// into the context.
pub struct SocketStep {
    pub next: SocketView,
    pub cmds: Seq<ProtoCmd>,
}

/// The error that answers a send while another is pending.
pub open spec fn send_pending() -> Error {
    Error { kind: ErrorKind::WouldBlock, message: "a send is already pending" }
}

/// The error that answers a receive while another is pending.
pub open spec fn recv_pending() -> Error {
    Error { kind: ErrorKind::WouldBlock, message: "a recv is already pending" }
}

/// The error that answers a priority that is not between 1 and 16.
pub open spec fn invalid_priority() -> Error {
    Error { kind: ErrorKind::InvalidInput, message: "priority must be between 1 and 16" }
}

/// How the endpoints of a new socket treat their pipes.
pub open spec fn default_desc() -> EndpointDesc {
    EndpointDesc {
        send_priority: 8,
        recv_priority: 8,
        tcp_no_delay: false,
        recv_max_size: 1_048_576,
    }
}

/// The position of the endpoint `eid`, searched from `lo` on.
pub open spec fn endpoint_index(endpoints: Seq<Endpoint>, eid: EndpointId, lo: int) -> Option<int>
    decreases endpoints.len() - lo,
{
    if lo < 0 || lo >= endpoints.len() {
        None
    } else if endpoints[lo].eid == eid {
        Some(lo)
    } else {
        endpoint_index(endpoints, eid, lo + 1)
    }
}

/// What `endpoint_index` finds is the first endpoint `eid` from `lo` on.
pub proof fn lemma_endpoint_index(endpoints: Seq<Endpoint>, eid: EndpointId, lo: int)
    requires
        0 <= lo,
    ensures
        match endpoint_index(endpoints, eid, lo) {
            Some(i) => lo <= i < endpoints.len() && endpoints[i].eid == eid && forall|k: int|
                lo <= k < i ==> (#[trigger] endpoints[k]).eid != eid,
            None => forall|k: int|
                lo <= k < endpoints.len() ==> (#[trigger] endpoints[k]).eid != eid,
        },
    decreases endpoints.len() - lo,
{
    if lo < endpoints.len() && endpoints[lo].eid != eid {
        lemma_endpoint_index(endpoints, eid, lo + 1);
    }
}

/// The requests that close the endpoints from `lo` on, one by one.
pub open spec fn close_all(endpoints: Seq<Endpoint>, lo: int) -> Seq<ProtoCmd>
    decreases endpoints.len() - lo,
{
    if lo < 0 || lo >= endpoints.len() {
        Seq::empty()
    } else {
        seq![ProtoCmd::CloseEndpoint(endpoints[lo].eid)] + close_all(endpoints, lo + 1)
    }
}

/// The timer of an operation with a time limit, and the request that starts
/// it; for an operation without one, no timer and no request.
pub open spec fn scheduled(limit: Option<u64>, timer: Scheduled, what: EventLoopTimeout) -> (
    Timeout,
    Seq<ProtoCmd>,
) {
    match limit {
        Some(delay) => (Some(timer), seq![ProtoCmd::Schedule(timer, what, delay)]),
        None => (None, Seq::empty()),
    }
}

impl SocketView {
    /// The invariant: the protocol is well formed, and the priorities and
    /// delays of the socket and of its endpoints are in range.
    pub open spec fn wf(self) -> bool {
        &&& self.protocol.wf()
        &&& self.desc.wf()
        &&& forall|i: int| 0 <= i < self.endpoints.len() ==> (#[trigger] self.endpoints[i]).wf()
    }

    /// The number of sends that the socket owes an answer to.
    pub open spec fn owed_send(self) -> nat {
        self.protocol.owed_send()
    }

    /// The number of receives that the socket owes an answer to.
    pub open spec fn owed_recv(self) -> nat {
        self.protocol.owed_recv()
    }

    /// The protocol identifiers that the socket announces and expects.
    pub open spec fn pids(self) -> (u16, u16) {
        (
            self.protocol.socket_type().spec_id(),
            self.protocol.socket_type().spec_peer().spec_id(),
        )
    }

    /// What an endpoint for `url` is opened with.
    pub open spec fn tmpl(self, url: String, desc: EndpointDesc) -> EndpointTmpl {
        EndpointTmpl { pids: self.pids(), spec: EndpointSpec { url, desc } }
    }

    /// The same content with another protocol content.
    pub open spec fn with_protocol(self, protocol: ProtocolView) -> SocketView {
        SocketView {
            id: self.id,
            protocol,
            endpoints: self.endpoints,
            send_timeout: self.send_timeout,
            recv_timeout: self.recv_timeout,
            desc: self.desc,
        }
    }

    /// The same content with other endpoints.
    pub open spec fn with_endpoints(self, endpoints: Seq<Endpoint>) -> SocketView {
        SocketView {
            id: self.id,
            protocol: self.protocol,
            endpoints,
            send_timeout: self.send_timeout,
            recv_timeout: self.recv_timeout,
            desc: self.desc,
        }
    }

    /// The same content with other time limits and defaults.
    pub open spec fn with_options(
        self,
        send_timeout: Option<u64>,
        recv_timeout: Option<u64>,
        desc: EndpointDesc,
    ) -> SocketView {
        SocketView {
            id: self.id,
            protocol: self.protocol,
            endpoints: self.endpoints,
            send_timeout,
            recv_timeout,
            desc,
        }
    }

    /// A step that changes nothing.
    pub open spec fn ignore(self) -> SocketStep {
        SocketStep { next: self, cmds: Seq::empty() }
    }

    /// A step of the protocol as a step of the socket.
    pub open spec fn lift(self, step: ProtocolStep) -> SocketStep {
        SocketStep { next: self.with_protocol(step.next), cmds: step.cmds }
    }

    /// The position of the endpoint `eid`.
    pub open spec fn find(self, eid: EndpointId) -> Option<int> {
        endpoint_index(self.endpoints, eid, 0)
    }

    /// `connect` or `bind` with the fresh identifier `eid`: an address that
    /// the library serves is recorded as an endpoint, its opening is asked
    /// for, and the user gets the identifier; any other address is refused.
    pub open spec fn open_endpoint(self, kind: EndpointKind, url: String, eid: EndpointId) -> SocketStep {
        if valid_url(encode_utf8(url@)) {
            SocketStep {
                next: self.with_endpoints(
                    self.endpoints.push(
                        Endpoint {
                            eid,
                            kind,
                            url,
                            desc: self.desc,
                            backoff: Backoff { delay: INITIAL_BACKOFF },
                        },
                    ),
                ),
                cmds: match kind {
                    EndpointKind::Connector => seq![
                        ProtoCmd::Connect(eid, self.tmpl(url, self.desc)),
                        ProtoCmd::Connected(eid),
                    ],
                    EndpointKind::Acceptor => seq![
                        ProtoCmd::Bind(eid, self.tmpl(url, self.desc)),
                        ProtoCmd::Bound(eid),
                    ],
                },
            }
        } else {
            SocketStep {
                next: self,
                cmds: match kind {
                    EndpointKind::Connector => seq![ProtoCmd::NotConnected(invalid_url())],
                    EndpointKind::Acceptor => seq![ProtoCmd::NotBound(invalid_url())],
                },
            }
        }
    }

    /// `shutdown`: the endpoint is forgotten, and its closing is asked for.
    /// Nothing happens for an endpoint that the socket does not have.
    pub open spec fn shutdown(self, eid: EndpointId) -> SocketStep {
        match self.find(eid) {
            Some(i) => SocketStep {
                next: self.with_endpoints(self.endpoints.remove(i)),
                cmds: seq![ProtoCmd::CloseEndpoint(eid)],
            },
            None => self.ignore(),
        }
    }

    /// `send` with the fresh timer `timer`: while a send is pending, the new
    /// one fails with `WouldBlock`; otherwise the timer of the send is
    /// started, if sends have a time limit, and the protocol gets the message.
    pub open spec fn send(self, msg: Message, timer: Scheduled) -> SocketStep {
        if self.owed_send() != 0 {
            SocketStep {
                next: self,
                cmds: seq![ProtoCmd::ReplySend(Reply::Error(send_pending()))],
            }
        } else {
            let (timeout, cmds) = scheduled(
                self.send_timeout,
                timer,
                EventLoopTimeout::CancelSend(self.id),
            );
            let step = self.protocol.send(msg, timeout);
            SocketStep { next: self.with_protocol(step.next), cmds: cmds + step.cmds }
        }
    }

    /// `recv` with the fresh timer `timer`: while a receive is pending, the
    /// new one fails with `WouldBlock`; otherwise the timer of the receive is
    /// started, if receives have a time limit, and the protocol is asked.
    pub open spec fn recv(self, timer: Scheduled) -> SocketStep {
        if self.owed_recv() != 0 {
            SocketStep {
                next: self,
                cmds: seq![ProtoCmd::ReplyRecv(Reply::Error(recv_pending()))],
            }
        } else {
            let (timeout, cmds) = scheduled(
                self.recv_timeout,
                timer,
                EventLoopTimeout::CancelRecv(self.id),
            );
            let step = self.protocol.recv(timeout);
            SocketStep { next: self.with_protocol(step.next), cmds: cmds + step.cmds }
        }
    }

    /// What `set_option` does to the content, and whether the option was
    /// taken. The socket keeps the time limits and what its new endpoints
    /// are made with; a priority must lie between 1 and 16; any other option
    /// is the protocol's.
    pub open spec fn apply_option(self, option: SocketOption) -> (SocketView, Result<(), Error>) {
        match option {
            SocketOption::SendTimeout(limit) => (
                self.with_options(limit, self.recv_timeout, self.desc),
                Ok(()),
            ),
            SocketOption::RecvTimeout(limit) => (
                self.with_options(self.send_timeout, limit, self.desc),
                Ok(()),
            ),
            SocketOption::SendPriority(p) => if valid_priority(p) {
                (
                    self.with_options(
                        self.send_timeout,
                        self.recv_timeout,
                        EndpointDesc {
                            send_priority: p,
                            recv_priority: self.desc.recv_priority,
                            tcp_no_delay: self.desc.tcp_no_delay,
                            recv_max_size: self.desc.recv_max_size,
                        },
                    ),
                    Ok(()),
                )
            } else {
                (self, Err(invalid_priority()))
            },
            SocketOption::RecvPriority(p) => if valid_priority(p) {
                (
                    self.with_options(
                        self.send_timeout,
                        self.recv_timeout,
                        EndpointDesc {
                            send_priority: self.desc.send_priority,
                            recv_priority: p,
                            tcp_no_delay: self.desc.tcp_no_delay,
                            recv_max_size: self.desc.recv_max_size,
                        },
                    ),
                    Ok(()),
                )
            } else {
                (self, Err(invalid_priority()))
            },
            SocketOption::TcpNoDelay(flag) => (
                self.with_options(
                    self.send_timeout,
                    self.recv_timeout,
                    EndpointDesc {
                        send_priority: self.desc.send_priority,
                        recv_priority: self.desc.recv_priority,
                        tcp_no_delay: flag,
                        recv_max_size: self.desc.recv_max_size,
                    },
                ),
                Ok(()),
            ),
            SocketOption::RecvMaxSize(size) => (
                self.with_options(
                    self.send_timeout,
                    self.recv_timeout,
                    EndpointDesc {
                        send_priority: self.desc.send_priority,
                        recv_priority: self.desc.recv_priority,
                        tcp_no_delay: self.desc.tcp_no_delay,
                        recv_max_size: size,
                    },
                ),
                Ok(()),
            ),
            _ => (
                self.with_protocol(self.protocol.set_option(option).0),
                self.protocol.set_option(option).1,
            ),
        }
    }

    /// `set_option`: the option is applied, and the user learns whether it
    /// was taken.
    pub open spec fn set_option(self, option: SocketOption) -> SocketStep {
        let (next, res) = self.apply_option(option);
        SocketStep {
            next,
            cmds: match res {
                Ok(_) => seq![ProtoCmd::OptionSet],
                Err(e) => seq![ProtoCmd::OptionNotSet(e)],
            },
        }
    }

    /// A command of the user, with the fresh number `fresh` for the endpoint
    /// or the timer that the command may need.
    pub open spec fn handle_cmd(self, cmd: SocketCmdSignal, fresh: usize) -> SocketStep {
        match cmd {
            SocketCmdSignal::Connect(url) => self.open_endpoint(
                EndpointKind::Connector,
                url,
                EndpointId(fresh),
            ),
            SocketCmdSignal::Bind(url) => self.open_endpoint(
                EndpointKind::Acceptor,
                url,
                EndpointId(fresh),
            ),
            SocketCmdSignal::Shutdown(eid) => self.shutdown(eid),
            SocketCmdSignal::SendMsg(msg) => self.send(msg, Scheduled(fresh)),
            SocketCmdSignal::RecvMsg => self.recv(Scheduled(fresh)),
            SocketCmdSignal::SetOption(option) => self.set_option(option),
        }
    }

    /// The handle of a new pipe: it gets the priorities that the socket
    /// gives its endpoints at this time.
    pub open spec fn new_pipe(self, eid: EndpointId) -> Pipe {
        Pipe {
            eid,
            send_priority: self.desc.send_priority,
            recv_priority: self.desc.recv_priority,
        }
    }

    /// An event of an endpoint: a new pipe goes to the protocol; nothing
    /// else concerns the socket.
    pub open spec fn handle_evt(self, evt: SocketEvtSignal) -> SocketStep {
        match evt {
            SocketEvtSignal::PipeAdded(eid) => self.lift(
                self.protocol.add_pipe(eid, self.new_pipe(eid)).0,
            ),
            _ => self.ignore(),
        }
    }

    /// The endpoints after the pipe of `eid` was opened: the endpoint that
    /// made the connection has succeeded, and starts over with the shortest
    /// delay.
    pub open spec fn after_success(self, eid: EndpointId) -> Seq<Endpoint> {
        match self.find(eid) {
            Some(i) => self.endpoints.update(
                i,
                Endpoint {
                    eid,
                    kind: self.endpoints[i].kind,
                    url: self.endpoints[i].url,
                    desc: self.endpoints[i].desc,
                    backoff: Backoff { delay: INITIAL_BACKOFF },
                },
            ),
            None => self.endpoints,
        }
    }

    /// What the loss of the pipe of `eid` does to the endpoints, with the
    /// fresh timer `timer`: the endpoint `eid`, if the socket has it, is
    /// opened again after its delay, and its next delay is twice as long.
    pub open spec fn after_failure(self, eid: EndpointId, timer: Scheduled) -> (
        Seq<Endpoint>,
        Seq<ProtoCmd>,
    ) {
        match self.find(eid) {
            Some(i) => (
                self.endpoints.update(
                    i,
                    Endpoint {
                        eid,
                        kind: self.endpoints[i].kind,
                        url: self.endpoints[i].url,
                        desc: self.endpoints[i].desc,
                        backoff: Backoff { delay: next_delay(self.endpoints[i].backoff.delay) },
                    },
                ),
                seq![
                    ProtoCmd::Schedule(
                        timer,
                        match self.endpoints[i].kind {
                            EndpointKind::Connector => EventLoopTimeout::Reconnect(
                                eid,
                                self.endpoints[i].url,
                            ),
                            EndpointKind::Acceptor => EventLoopTimeout::Rebind(
                                eid,
                                self.endpoints[i].url,
                            ),
                        },
                        self.endpoints[i].backoff.delay,
                    ),
                ],
            ),
            None => (self.endpoints, Seq::empty()),
        }
    }

    /// An event of the pipe of `eid`, with the fresh timer `timer`.
    /// An open pipe can send, and its endpoint has succeeded. A closed pipe
    /// leaves the protocol, and its endpoint is opened again after its delay.
    /// The other events go to the protocol as they are.
    pub open spec fn on_pipe_evt(self, eid: EndpointId, evt: PipeEvt, timer: Scheduled) -> SocketStep {
        match evt {
            PipeEvt::Opened => self.with_endpoints(self.after_success(eid)).lift(
                self.protocol.on_send_ready(eid),
            ),
            PipeEvt::Closed => SocketStep {
                next: self.with_endpoints(self.after_failure(eid, timer).0).with_protocol(
                    self.protocol.remove_pipe(eid),
                ),
                cmds: self.after_failure(eid, timer).1,
            },
            PipeEvt::SentMsg => self.lift(self.protocol.on_send_ack(eid)),
            PipeEvt::RecvMsg(msg) => self.lift(self.protocol.on_recv_ack(eid, msg)),
            PipeEvt::CanSend => self.lift(self.protocol.on_send_ready(eid)),
            PipeEvt::CanRecv => self.lift(self.protocol.on_recv_ready(eid)),
        }
    }

    /// The timer of the send has fired.
    pub open spec fn on_send_timeout(self) -> SocketStep {
        self.lift(self.protocol.on_send_timeout())
    }

    /// The timer of the receive has fired.
    pub open spec fn on_recv_timeout(self) -> SocketStep {
        self.lift(self.protocol.on_recv_timeout())
    }

    /// The timer of an endpoint has fired: the endpoint is opened again, if
    /// the socket still has it and it is of the given kind.
    pub open spec fn reopen(self, kind: EndpointKind, eid: EndpointId) -> SocketStep {
        match self.find(eid) {
            Some(i) => if self.endpoints[i].kind == kind {
                SocketStep {
                    next: self,
                    cmds: match kind {
                        EndpointKind::Connector => seq![
                            ProtoCmd::Connect(
                                eid,
                                self.tmpl(self.endpoints[i].url, self.endpoints[i].desc),
                            ),
                        ],
                        EndpointKind::Acceptor => seq![
                            ProtoCmd::Bind(
                                eid,
                                self.tmpl(self.endpoints[i].url, self.endpoints[i].desc),
                            ),
                        ],
                    },
                }
            } else {
                self.ignore()
            },
            None => self.ignore(),
        }
    }

    /// The reactor reports the pipe of `eid` ready: a readable pipe can
    /// receive, and then a writable pipe can send.
    pub open spec fn ready(self, eid: EndpointId, bits: usize) -> SocketStep {
        let first = if readable_in(bits) {
            self.lift(self.protocol.on_recv_ready(eid))
        } else {
            self.ignore()
        };
        let second = if writable_in(bits) {
            first.next.lift(first.next.protocol.on_send_ready(eid))
        } else {
            first.next.ignore()
        };
        SocketStep { next: second.next, cmds: first.cmds + second.cmds }
    }

    /// `destroy`: every endpoint is forgotten, and its closing is asked for.
    pub open spec fn destroy(self) -> SocketStep {
        SocketStep {
            next: self.with_endpoints(Seq::empty()),
            cmds: close_all(self.endpoints, 0),
        }
    }

    /// A step accounts for every answer. With `sends` sends and `recvs`
    /// receives asked of the socket by the step, each of them, and each that
    /// was owed an answer before, is either answered by the step or owed an
    /// answer afterwards; and no more than one of each kind is ever owed.
    pub open spec fn balanced(self, step: SocketStep, sends: nat, recvs: nat) -> bool {
        &&& step.next.wf()
        &&& step.next.id == self.id
        &&& step.next.protocol.socket_type() == self.protocol.socket_type()
        &&& self.owed_send() + sends == send_replies(step.cmds) + step.next.owed_send()
        &&& self.owed_recv() + recvs == recv_replies(step.cmds) + step.next.owed_recv()
        &&& step.next.owed_send() <= 1
        &&& step.next.owed_recv() <= 1
    }
}

/// Closing endpoints answers no send and no receive.
pub proof fn lemma_close_all(endpoints: Seq<Endpoint>, lo: int)
    requires
        0 <= lo,
    ensures
        send_replies(close_all(endpoints, lo)) == 0,
        recv_replies(close_all(endpoints, lo)) == 0,
    decreases endpoints.len() - lo,
{
    let any = ProtoCmd::OptionSet;
    lemma_replies_short(any, any);
    if lo < endpoints.len() {
        lemma_close_all(endpoints, lo + 1);
        lemma_replies_short(ProtoCmd::CloseEndpoint(endpoints[lo].eid), any);
        lemma_replies_concat(
            seq![ProtoCmd::CloseEndpoint(endpoints[lo].eid)],
            close_all(endpoints, lo + 1),
        );
    }
}

impl SocketView {
    /// `send` and `recv` account for every answer.
    pub proof fn lemma_send_recv_balanced(self, msg: Message, timer: Scheduled)
        requires
            self.wf(),
        ensures
            self.owed_send() <= 1,
            self.owed_recv() <= 1,
            self.balanced(self.send(msg, timer), 1, 0),
            self.balanced(self.recv(timer), 0, 1),
    {
        let any = ProtoCmd::OptionSet;
        lemma_replies_short(any, any);
        lemma_replies_short(ProtoCmd::ReplySend(Reply::Error(send_pending())), any);
        lemma_replies_short(ProtoCmd::ReplyRecv(Reply::Error(recv_pending())), any);
        let s = scheduled(self.send_timeout, timer, EventLoopTimeout::CancelSend(self.id));
        let r = scheduled(self.recv_timeout, timer, EventLoopTimeout::CancelRecv(self.id));
        if let Some(delay) = self.send_timeout {
            lemma_replies_short(
                ProtoCmd::Schedule(timer, EventLoopTimeout::CancelSend(self.id), delay),
                any,
            );
        }
        if let Some(delay) = self.recv_timeout {
            lemma_replies_short(
                ProtoCmd::Schedule(timer, EventLoopTimeout::CancelRecv(self.id), delay),
                any,
            );
        }
        self.protocol.lemma_balanced(EndpointId(0), self.new_pipe(EndpointId(0)), msg, s.0);
        self.protocol.lemma_balanced(EndpointId(0), self.new_pipe(EndpointId(0)), msg, r.0);
        lemma_replies_concat(s.1, self.protocol.send(msg, s.0).cmds);
        lemma_replies_concat(r.1, self.protocol.recv(r.0).cmds);
    }

    /// The commands that neither send nor receive answer no send and no
    /// receive.
    pub proof fn lemma_other_cmds_balanced(
        self,
        kind: EndpointKind,
        url: String,
        eid: EndpointId,
        option: SocketOption,
    )
        requires
            self.wf(),
        ensures
            self.balanced(self.open_endpoint(kind, url, eid), 0, 0),
            self.balanced(self.shutdown(eid), 0, 0),
            self.balanced(self.set_option(option), 0, 0),
            self.balanced(self.reopen(kind, eid), 0, 0),
            self.balanced(self.destroy(), 0, 0),
    {
        let any = ProtoCmd::OptionSet;
        lemma_replies_short(any, any);
        lemma_replies_short(ProtoCmd::Connect(eid, self.tmpl(url, self.desc)), ProtoCmd::Connected(eid));
        lemma_replies_short(ProtoCmd::Bind(eid, self.tmpl(url, self.desc)), ProtoCmd::Bound(eid));
        lemma_replies_short(ProtoCmd::NotConnected(invalid_url()), any);
        lemma_replies_short(ProtoCmd::NotBound(invalid_url()), any);
        lemma_replies_short(ProtoCmd::CloseEndpoint(eid), any);
        lemma_endpoint_index(self.endpoints, eid, 0);
        lemma_close_all(self.endpoints, 0);
        // open_endpoint
        let opened = self.open_endpoint(kind, url, eid).next;
        assert forall|i: int| 0 <= i < opened.endpoints.len() implies (
        #[trigger] opened.endpoints[i]).wf() by {
            if i < self.endpoints.len() {
                assert(opened.endpoints[i] == self.endpoints[i]);
            }
        }
        // shutdown
        if let Some(k) = self.find(eid) {
            let rest = self.endpoints.remove(k);
            assert forall|i: int| 0 <= i < rest.len() implies (#[trigger] rest[i]).wf() by {
                let j = if i < k { i } else { i + 1 };
                assert(rest[i] == self.endpoints[j]);
            }
            let e = self.endpoints[k];
            lemma_replies_short(ProtoCmd::Connect(eid, self.tmpl(e.url, e.desc)), any);
            lemma_replies_short(ProtoCmd::Bind(eid, self.tmpl(e.url, e.desc)), any);
        }
        // set_option
        let (next, res) = self.apply_option(option);
        if let Err(e) = res {
            lemma_replies_short(ProtoCmd::OptionNotSet(e), any);
        }
        match option {
            SocketOption::Subscribe(_) | SocketOption::Unsubscribe(_) => {
                assert(next.protocol.wf());
                assert(next.protocol.owed_send() == self.protocol.owed_send());
                assert(next.protocol.owed_recv() == self.protocol.owed_recv());
            },
            _ => {},
        }
        self.protocol.lemma_balanced(
            eid,
            self.new_pipe(eid),
            Message { header: arbitrary(), body: arbitrary() },
            None,
        );
    }

    /// Readiness of a pipe answers no send and no receive that was not owed.
    pub proof fn lemma_ready_balanced(self, eid: EndpointId, bits: usize)
        requires
            self.wf(),
        ensures
            self.balanced(self.ready(eid, bits), 0, 0),
    {
        let unread = Message { header: arbitrary(), body: arbitrary() };
        let any = ProtoCmd::OptionSet;
        lemma_replies_short(any, any);
        self.protocol.lemma_balanced(eid, self.new_pipe(eid), unread, None);
        let first = if readable_in(bits) {
            self.lift(self.protocol.on_recv_ready(eid))
        } else {
            self.ignore()
        };
        assert(self.balanced(first, 0, 0));
        first.next.protocol.lemma_balanced(eid, self.new_pipe(eid), unread, None);
        let second = if writable_in(bits) {
            first.next.lift(first.next.protocol.on_send_ready(eid))
        } else {
            first.next.ignore()
        };
        assert(first.next.balanced(second, 0, 0));
        lemma_replies_concat(first.cmds, second.cmds);
    }

    /// The events of endpoints and the timers of sends and receives account
    /// for every answer.
    pub proof fn lemma_evt_balanced(self, evt: SocketEvtSignal)
        requires
            self.wf(),
        ensures
            self.balanced(self.handle_evt(evt), 0, 0),
            self.balanced(self.on_send_timeout(), 0, 0),
            self.balanced(self.on_recv_timeout(), 0, 0),
    {
        let any = ProtoCmd::OptionSet;
        lemma_replies_short(any, any);
        let unread = Message { header: arbitrary(), body: arbitrary() };
        self.protocol.lemma_balanced(EndpointId(0), self.new_pipe(EndpointId(0)), unread, None);
        if let SocketEvtSignal::PipeAdded(added) = evt {
            self.protocol.lemma_balanced(added, self.new_pipe(added), unread, None);
        }
    }

    /// What an open or a closed pipe does to the endpoints keeps their
    /// priorities and delays in range, and answers nothing.
    pub proof fn lemma_endpoints_after(self, eid: EndpointId, timer: Scheduled)
        requires
            self.wf(),
        ensures
            self.with_endpoints(self.after_success(eid)).wf(),
            self.with_endpoints(self.after_failure(eid, timer).0).wf(),
            send_replies(self.after_failure(eid, timer).1) == 0,
            recv_replies(self.after_failure(eid, timer).1) == 0,
    {
        let any = ProtoCmd::OptionSet;
        lemma_replies_short(any, any);
        lemma_endpoint_index(self.endpoints, eid, 0);
        let ok = self.after_success(eid);
        assert forall|i: int| 0 <= i < ok.len() implies (#[trigger] ok[i]).wf() by {
            assert(self.endpoints[i].wf());
        }
        let (failed, cmds) = self.after_failure(eid, timer);
        assert forall|i: int| 0 <= i < failed.len() implies (#[trigger] failed[i]).wf() by {
            assert(self.endpoints[i].wf());
        }
        if let Some(k) = self.find(eid) {
            let e = self.endpoints[k];
            lemma_replies_short(
                ProtoCmd::Schedule(timer, EventLoopTimeout::Reconnect(eid, e.url), e.backoff.delay),
                any,
            );
            lemma_replies_short(
                ProtoCmd::Schedule(timer, EventLoopTimeout::Rebind(eid, e.url), e.backoff.delay),
                any,
            );
        }
    }

    /// The events of pipes account for every answer.
    pub proof fn lemma_pipe_evt_balanced(self, eid: EndpointId, pipe_evt: PipeEvt, timer: Scheduled)
        requires
            self.wf(),
        ensures
            self.balanced(self.on_pipe_evt(eid, pipe_evt, timer), 0, 0),
    {
        let msg = match pipe_evt {
            PipeEvt::RecvMsg(m) => m,
            _ => Message { header: arbitrary(), body: arbitrary() },
        };
        self.protocol.lemma_balanced(eid, self.new_pipe(eid), msg, None);
        self.lemma_endpoints_after(eid, timer);
        match pipe_evt {
            PipeEvt::Opened => {
                let step = self.protocol.on_send_ready(eid);
                assert(self.protocol.balanced(step, 0, 0));
            },
            PipeEvt::Closed => {
                let next = self.protocol.remove_pipe(eid);
                assert(self.protocol.balanced(ProtocolStep { next, cmds: Seq::empty() }, 0, 0));
            },
            PipeEvt::SentMsg => {
                assert(self.protocol.balanced(self.protocol.on_send_ack(eid), 0, 0));
            },
            PipeEvt::RecvMsg(m) => {
                assert(self.protocol.balanced(self.protocol.on_recv_ack(eid, m), 0, 0));
            },
            PipeEvt::CanSend => {
                assert(self.protocol.balanced(self.protocol.on_send_ready(eid), 0, 0));
            },
            PipeEvt::CanRecv => {
                assert(self.protocol.balanced(self.protocol.on_recv_ready(eid), 0, 0));
            },
        }
    }

    /// Whatever is asked of a socket and whatever happens to it, it owes an
    /// answer to one send at most and to one receive at most, and it
    /// answers each send and each receive exactly once: a step answers what
    /// was owed before or was asked by the step, unless it is owed
    /// afterwards.
    pub proof fn lemma_balanced(self, cmd: SocketCmdSignal, fresh: usize)
        requires
            self.wf(),
        ensures
            self.owed_send() <= 1,
            self.owed_recv() <= 1,
            self.balanced(self.handle_cmd(cmd, fresh), if cmd is SendMsg {
                1
            } else {
                0
            }, if cmd is RecvMsg {
                1
            } else {
                0
            }),
    {
        match cmd {
            SocketCmdSignal::Connect(url) => {
                self.lemma_other_cmds_balanced(
                    EndpointKind::Connector,
                    url,
                    EndpointId(fresh),
                    SocketOption::TcpNoDelay(true),
                );
            },
            SocketCmdSignal::Bind(url) => {
                self.lemma_other_cmds_balanced(
                    EndpointKind::Acceptor,
                    url,
                    EndpointId(fresh),
                    SocketOption::TcpNoDelay(true),
                );
            },
            SocketCmdSignal::Shutdown(eid) => {
                self.lemma_other_cmds_balanced(
                    EndpointKind::Acceptor,
                    arbitrary(),
                    eid,
                    SocketOption::TcpNoDelay(true),
                );
            },
            SocketCmdSignal::SendMsg(msg) => {
                self.lemma_send_recv_balanced(msg, Scheduled(fresh));
            },
            SocketCmdSignal::RecvMsg => {
                self.lemma_send_recv_balanced(
                    Message { header: arbitrary(), body: arbitrary() },
                    Scheduled(fresh),
                );
            },
            SocketCmdSignal::SetOption(option) => {
                self.lemma_other_cmds_balanced(
                    EndpointKind::Acceptor,
                    arbitrary(),
                    EndpointId(0),
                    option,
                );
            },
        }
        self.lemma_send_recv_balanced(
            Message { header: arbitrary(), body: arbitrary() },
            Scheduled(fresh),
        );
    }
}

/// What can be asked of one socket.
pub enum SocketOp {
    /// A command of the user.
    Cmd(SocketCmdSignal),
    /// An event of an endpoint.
    Evt(SocketEvtSignal),
    /// An event of the pipe of an endpoint.
    Pipe(EndpointId, PipeEvt),
    /// The reactor reports the pipe of an endpoint ready.
    Ready(EndpointId, mio::EventSet),
    /// The timer of the send has fired.
    SendTimeout,
    /// The timer of the receive has fired.
    RecvTimeout,
    /// The timer of a survey has fired.
    SurveyTimeout,
    /// The timer to send a request again has fired.
    Resend,
    /// The timer of a connector has fired.
    Reconnect(EndpointId),
    /// The timer of an acceptor has fired.
    Rebind(EndpointId),
}

/// What `op` does to a socket, with the fresh number `fresh` for the
/// endpoint or the timer that it may need.
pub open spec fn apply(socket: SocketView, op: SocketOp, fresh: usize) -> SocketStep {
    match op {
        SocketOp::Cmd(cmd) => socket.handle_cmd(cmd, fresh),
        SocketOp::Evt(evt) => socket.handle_evt(evt),
        SocketOp::Pipe(eid, evt) => socket.on_pipe_evt(eid, evt, Scheduled(fresh)),
        SocketOp::Ready(eid, events) => socket.ready(eid, event_set_bits(events)),
        SocketOp::SendTimeout => socket.on_send_timeout(),
        SocketOp::RecvTimeout => socket.on_recv_timeout(),
        SocketOp::SurveyTimeout => socket.ignore(),
        SocketOp::Resend => socket.ignore(),
        SocketOp::Reconnect(eid) => socket.reopen(EndpointKind::Connector, eid),
        SocketOp::Rebind(eid) => socket.reopen(EndpointKind::Acceptor, eid),
    }
}

/// The number of sends among the operations `ops[lo..hi]`.
pub open spec fn sends_asked(ops: Seq<(SocketOp, usize)>, lo: int, hi: int) -> nat
    decreases hi - lo,
{
    if lo < 0 || lo >= hi || hi > ops.len() {
        0
    } else {
        sends_asked(ops, lo, hi - 1) + if ops[hi - 1].0 matches SocketOp::Cmd(
            SocketCmdSignal::SendMsg(_),
        ) {
            1nat
        } else {
            0nat
        }
    }
}

/// The number of receives among the operations `ops[lo..hi]`.
pub open spec fn recvs_asked(ops: Seq<(SocketOp, usize)>, lo: int, hi: int) -> nat
    decreases hi - lo,
{
    if lo < 0 || lo >= hi || hi > ops.len() {
        0
    } else {
        recvs_asked(ops, lo, hi - 1) + if ops[hi - 1].0 matches SocketOp::Cmd(
            SocketCmdSignal::RecvMsg,
        ) {
            1nat
        } else {
            0nat
        }
    }
}

/// The socket after the first `n` of the operations `ops`, and all that
/// these operations wrote into the context.
pub open spec fn run(socket: SocketView, ops: Seq<(SocketOp, usize)>, n: nat) -> SocketStep
    decreases n,
{
    if n == 0 || n > ops.len() {
        socket.ignore()
    } else {
        let before = run(socket, ops, (n - 1) as nat);
        let step = apply(before.next, ops[n - 1].0, ops[n - 1].1);
        SocketStep { next: step.next, cmds: before.cmds + step.cmds }
    }
}

/// One operation accounts for every answer.
pub proof fn lemma_apply_balanced(socket: SocketView, op: SocketOp, fresh: usize)
    requires
        socket.wf(),
    ensures
        socket.balanced(
            apply(socket, op, fresh),
            if op matches SocketOp::Cmd(SocketCmdSignal::SendMsg(_)) {
                1
            } else {
                0
            },
            if op matches SocketOp::Cmd(SocketCmdSignal::RecvMsg) {
                1
            } else {
                0
            },
        ),
{
    let any = ProtoCmd::OptionSet;
    lemma_replies_short(any, any);
    match op {
        SocketOp::Cmd(cmd) => socket.lemma_balanced(cmd, fresh),
        SocketOp::Evt(evt) => socket.lemma_evt_balanced(evt),
        SocketOp::Pipe(eid, evt) => socket.lemma_pipe_evt_balanced(eid, evt, Scheduled(fresh)),
        SocketOp::Ready(eid, events) => socket.lemma_ready_balanced(eid, event_set_bits(events)),
        SocketOp::SendTimeout => socket.lemma_evt_balanced(SocketEvtSignal::Readable),
        SocketOp::RecvTimeout => socket.lemma_evt_balanced(SocketEvtSignal::Readable),
        SocketOp::SurveyTimeout => {
            socket.lemma_send_recv_balanced(
                Message { header: arbitrary(), body: arbitrary() },
                Scheduled(fresh),
            );
        },
        SocketOp::Resend => {
            socket.lemma_send_recv_balanced(
                Message { header: arbitrary(), body: arbitrary() },
                Scheduled(fresh),
            );
        },
        SocketOp::Reconnect(eid) => socket.lemma_other_cmds_balanced(
            EndpointKind::Connector,
            arbitrary(),
            eid,
            SocketOption::TcpNoDelay(true),
        ),
        SocketOp::Rebind(eid) => socket.lemma_other_cmds_balanced(
            EndpointKind::Acceptor,
            arbitrary(),
            eid,
            SocketOption::TcpNoDelay(true),
        ),
    }
}

/// Over any run of a socket, the sends that were asked of it are answered
/// exactly once each, but for the one that may still be owed an answer; and
/// so are the receives. At every point of the run the socket owes an answer
/// to one send at most and to one receive at most.
pub proof fn lemma_every_request_is_answered_once(
    socket: SocketView,
    ops: Seq<(SocketOp, usize)>,
    n: nat,
)
    requires
        socket.wf(),
        n <= ops.len(),
    ensures
        run(socket, ops, n).next.wf(),
        run(socket, ops, n).next.owed_send() <= 1,
        run(socket, ops, n).next.owed_recv() <= 1,
        socket.owed_send() + sends_asked(ops, 0, n as int) == send_replies(
            run(socket, ops, n).cmds,
        ) + run(socket, ops, n).next.owed_send(),
        socket.owed_recv() + recvs_asked(ops, 0, n as int) == recv_replies(
            run(socket, ops, n).cmds,
        ) + run(socket, ops, n).next.owed_recv(),
    decreases n,
{
    let any = ProtoCmd::OptionSet;
    lemma_replies_short(any, any);
    if n == 0 {
        socket.lemma_send_recv_balanced(
            Message { header: arbitrary(), body: arbitrary() },
            Scheduled(0),
        );
    } else {
        lemma_every_request_is_answered_once(socket, ops, (n - 1) as nat);
        let before = run(socket, ops, (n - 1) as nat);
        let step = apply(before.next, ops[n - 1].0, ops[n - 1].1);
        lemma_apply_balanced(before.next, ops[n - 1].0, ops[n - 1].1);
        lemma_replies_concat(before.cmds, step.cmds);
    }
}

} // verus!
