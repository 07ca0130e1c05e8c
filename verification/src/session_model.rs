//! The session as a mathematical state machine: what it holds, and where
//! each command, event and timer goes.

use vstd::prelude::*;
use crate::error::{Error, ErrorKind};
use crate::ids::{EndpointId, ProbeId, SocketId};
use crate::probe::Probe;
use crate::proto::context::ProtoCmd;
use crate::proto::protocol::{empty_protocol, supported, ProtocolView};
use crate::signal::{
    CmdSignal,
    EventLoopSignal,
    EventLoopTimeout,
    EvtSignal,
    SessionCmdSignal,
    SessionNotify,
    SocketCmdSignal,
    SocketEvtSignal,
};
use crate::socket_model::{apply, default_desc, SocketOp, SocketView};
use crate::socket_type::SocketType;
use crate::transport::context::PipeEvt;

verus! {

/// The content of a session.
pub struct SessionView {
    /// The sockets, by their number.
    pub sockets: Map<usize, SocketView>,
    /// The numbers of the sockets in the order of their creation.
    pub order: Seq<usize>,
    /// The socket of each token.
    pub socket_ids: Map<usize, SocketId>,
    /// The probes, by their number.
    pub probes: Map<usize, Probe>,
    /// The probe of each socket that has one, by the socket's number.
    pub probe_ids: Map<usize, ProbeId>,
}

/// The outcome of a step: the content that follows, and what the step wrote
/// into the context.
pub struct SessionStep {
    pub next: SessionView,
    pub cmds: Seq<ProtoCmd>,
}

/// The error that answers a pattern that the library has no protocol for.
pub open spec fn protocol_not_supported() -> Error {
    Error { kind: ErrorKind::InvalidInput, message: "socket type not supported" }
}

/// The error that answers a probe of a socket that does not exist.
pub open spec fn no_matching_sockets() -> Error {
    Error { kind: ErrorKind::InvalidInput, message: "no matching sockets" }
}

/// A new socket of the given number and pattern.
pub open spec fn new_socket(id: usize, protocol: ProtocolView) -> SocketView {
    SocketView {
        id: SocketId(id),
        protocol,
        endpoints: Seq::empty(),
        send_timeout: None,
        recv_timeout: None,
        desc: default_desc(),
    }
}

/// What it takes to close the sockets named from `lo` on in `order`, each
/// once, in that order: every endpoint of every socket is closed.
pub open spec fn drain(sockets: Map<usize, SocketView>, order: Seq<usize>, lo: int) -> Seq<ProtoCmd>
    decreases order.len() - lo,
{
    if lo < 0 || lo >= order.len() {
        Seq::empty()
    } else if sockets.contains_key(order[lo]) {
        sockets[order[lo]].destroy().cmds + drain(sockets.remove(order[lo]), order, lo + 1)
    } else {
        drain(sockets, order, lo + 1)
    }
}

impl SessionView {
    /// A session without sockets and probes.
    pub open spec fn empty() -> SessionView {
        SessionView {
            sockets: Map::empty(),
            order: Seq::empty(),
            socket_ids: Map::empty(),
            probes: Map::empty(),
            probe_ids: Map::empty(),
        }
    }

    /// The invariant: every socket is well formed.
    pub open spec fn wf(self) -> bool {
        forall|k: usize| self.sockets.contains_key(k) ==> (#[trigger] self.sockets[k]).wf()
    }

    /// A step that changes nothing.
    pub open spec fn ignore(self) -> SessionStep {
        SessionStep { next: self, cmds: Seq::empty() }
    }

    /// The same content with other sockets.
    pub open spec fn with_sockets(self, sockets: Map<usize, SocketView>) -> SessionView {
        SessionView {
            sockets,
            order: self.order,
            socket_ids: self.socket_ids,
            probes: self.probes,
            probe_ids: self.probe_ids,
        }
    }

    /// The same content with other tokens.
    pub open spec fn with_tokens(self, socket_ids: Map<usize, SocketId>) -> SessionView {
        SessionView {
            sockets: self.sockets,
            order: self.order,
            socket_ids,
            probes: self.probes,
            probe_ids: self.probe_ids,
        }
    }

    /// The number of the socket that the token belongs to, if the session
    /// has that socket.
    pub open spec fn socket_of(self, token: usize) -> Option<usize> {
        if self.socket_ids.contains_key(token) && self.sockets.contains_key(
            self.socket_ids[token].0,
        ) {
            Some(self.socket_ids[token].0)
        } else {
            None
        }
    }

    /// `op` reaches the socket `key`, if the session has it; otherwise it
    /// is dropped.
    pub open spec fn route(self, key: usize, op: SocketOp, fresh: usize) -> SessionStep {
        if self.sockets.contains_key(key) {
            let step = apply(self.sockets[key], op, fresh);
            SessionStep {
                next: self.with_sockets(self.sockets.insert(key, step.next)),
                cmds: step.cmds,
            }
        } else {
            self.ignore()
        }
    }

    /// `op` reaches the socket of the token, if there is one; otherwise it
    /// is dropped.
    pub open spec fn route_token(self, token: usize, op: SocketOp, fresh: usize) -> SessionStep {
        match self.socket_of(token) {
            Some(key) => self.route(key, op, fresh),
            None => self.ignore(),
        }
    }

    /// `create_socket` with the fresh number `fresh`: a socket of a pattern
    /// that the library has a protocol for is created under that number, and
    /// the user learns the number; any other pattern is refused.
    pub open spec fn create_socket(self, socket_type: SocketType, fresh: usize) -> SessionStep {
        if supported(socket_type) {
            SessionStep {
                next: SessionView {
                    sockets: self.sockets.insert(
                        fresh,
                        new_socket(fresh, empty_protocol(socket_type)),
                    ),
                    order: self.order.push(fresh),
                    socket_ids: self.socket_ids,
                    probes: self.probes,
                    probe_ids: self.probe_ids,
                },
                cmds: seq![ProtoCmd::Notify(SessionNotify::SocketCreated(SocketId(fresh)))],
            }
        } else {
            SessionStep {
                next: self,
                cmds: seq![
                    ProtoCmd::Notify(SessionNotify::SocketNotCreated(protocol_not_supported())),
                ],
            }
        }
    }

    /// `destroy_socket`: the socket leaves the session, and each of its
    /// endpoints is closed.
    pub open spec fn destroy_socket(self, id: SocketId) -> SessionStep {
        if self.sockets.contains_key(id.0) {
            SessionStep {
                next: self.with_sockets(self.sockets.remove(id.0)),
                cmds: self.sockets[id.0].destroy().cmds,
            }
        } else {
            self.ignore()
        }
    }

    /// `create_probe` with the fresh number `fresh`: a probe of two sockets
    /// of the session is created under that number, and the user learns the
    /// number; if either socket is missing, the probe is refused.
    pub open spec fn create_probe(self, left: SocketId, right: SocketId, fresh: usize) -> SessionStep {
        if self.sockets.contains_key(left.0) && self.sockets.contains_key(right.0) {
            SessionStep {
                next: SessionView {
                    sockets: self.sockets,
                    order: self.order,
                    socket_ids: self.socket_ids,
                    probes: self.probes.insert(
                        fresh,
                        Probe { left, right, left_readable: false, right_readable: false },
                    ),
                    probe_ids: self.probe_ids.insert(left.0, ProbeId(fresh)).insert(
                        right.0,
                        ProbeId(fresh),
                    ),
                },
                cmds: seq![ProtoCmd::Notify(SessionNotify::ProbeCreated(ProbeId(fresh)))],
            }
        } else {
            SessionStep {
                next: self,
                cmds: seq![ProtoCmd::Notify(SessionNotify::ProbeNotCreated(no_matching_sockets()))],
            }
        }
    }

    /// `destroy_probe`: the probe leaves the session.
    pub open spec fn destroy_probe(self, id: ProbeId) -> SessionStep {
        SessionStep {
            next: SessionView {
                sockets: self.sockets,
                order: self.order,
                socket_ids: self.socket_ids,
                probes: self.probes.remove(id.0),
                probe_ids: self.probe_ids,
            },
            cmds: Seq::empty(),
        }
    }

    /// `shutdown`: every socket is closed, in the order of creation, the
    /// session forgets its sockets and tokens, and the event loop is stopped.
    pub open spec fn shutdown(self) -> SessionStep {
        SessionStep {
            next: SessionView {
                sockets: Map::empty(),
                order: Seq::empty(),
                socket_ids: Map::empty(),
                probes: self.probes,
                probe_ids: self.probe_ids,
            },
            cmds: drain(self.sockets, self.order, 0) + seq![ProtoCmd::Shutdown],
        }
    }

    /// A command to the session itself.
    pub open spec fn handle_session_cmd(self, cmd: SessionCmdSignal, fresh: usize) -> SessionStep {
        match cmd {
            SessionCmdSignal::CreateSocket(socket_type) => self.create_socket(socket_type, fresh),
            SessionCmdSignal::DestroySocket(id) => self.destroy_socket(id),
            SessionCmdSignal::CreateProbe(left, right) => self.create_probe(left, right, fresh),
            SessionCmdSignal::DestroyProbe(id) => self.destroy_probe(id),
            SessionCmdSignal::Shutdown => self.shutdown(),
        }
    }

    /// The tokens after the socket `id` has taken the command `cmd` and
    /// become `socket`: an endpoint that was recorded under the fresh number
    /// has that number as its token, and an endpoint that was shut down has
    /// none.
    pub open spec fn tokens_after_cmd(
        self,
        id: SocketId,
        cmd: SocketCmdSignal,
        fresh: usize,
        socket: SocketView,
    ) -> Map<usize, SocketId> {
        match cmd {
            SocketCmdSignal::Connect(_) | SocketCmdSignal::Bind(_) => if socket.find(
                EndpointId(fresh),
            ) is Some {
                self.socket_ids.insert(fresh, id)
            } else {
                self.socket_ids
            },
            SocketCmdSignal::Shutdown(eid) => self.socket_ids.remove(eid.0),
            _ => self.socket_ids,
        }
    }

    /// A command to the socket `id`, with the fresh number `fresh`. The
    /// command is dropped if the session has no such socket.
    pub open spec fn handle_socket_cmd(self, id: SocketId, cmd: SocketCmdSignal, fresh: usize) -> SessionStep {
        if self.sockets.contains_key(id.0) {
            let step = self.route(id.0, SocketOp::Cmd(cmd), fresh);
            SessionStep {
                next: step.next.with_tokens(
                    self.tokens_after_cmd(id, cmd, fresh, step.next.sockets[id.0]),
                ),
                cmds: step.cmds,
            }
        } else {
            self.ignore()
        }
    }

    /// A command of the user.
    pub open spec fn handle_cmd(self, cmd: CmdSignal, fresh: usize) -> SessionStep {
        match cmd {
            CmdSignal::Session(c) => self.handle_session_cmd(c, fresh),
            CmdSignal::Socket(id, c) => self.handle_socket_cmd(id, c, fresh),
            CmdSignal::Probe(_, _) => self.ignore(),
        }
    }

    /// An event of an endpoint of the socket `id`. A new pipe and a new
    /// listener get their token, and the socket learns of them. A readable
    /// socket is recorded by its probe.
    pub open spec fn handle_socket_evt(self, id: SocketId, evt: SocketEvtSignal, fresh: usize) -> SessionStep {
        match evt {
            SocketEvtSignal::PipeAdded(token) | SocketEvtSignal::AcceptorAdded(token) => self.with_tokens(
                self.socket_ids.insert(token.0, id),
            ).route(id.0, SocketOp::Evt(evt), fresh),
            SocketEvtSignal::Readable => if self.probe_ids.contains_key(id.0)
                && self.probes.contains_key(self.probe_ids[id.0].0) {
                let probe_key = self.probe_ids[id.0].0;
                SessionStep {
                    next: SessionView {
                        sockets: self.sockets,
                        order: self.order,
                        socket_ids: self.socket_ids,
                        probes: self.probes.insert(probe_key, self.probes[probe_key].readable(id)),
                        probe_ids: self.probe_ids,
                    },
                    cmds: Seq::empty(),
                }
            } else {
                self.ignore()
            },
        }
    }

    /// An event of the pipe that is registered under `token`, with the
    /// fresh number `fresh`. The event reaches the socket of the token. When
    /// the pipe has closed, the token is given up, unless the socket still
    /// has the endpoint of that number and will open it again.
    pub open spec fn handle_pipe_evt(self, token: EndpointId, evt: PipeEvt, fresh: usize) -> SessionStep {
        let step = self.route_token(token.0, SocketOp::Pipe(token, evt), fresh);
        if evt is Closed {
            let keeps = match self.socket_of(token.0) {
                Some(key) => step.next.sockets[key].find(token) is Some,
                None => false,
            };
            if keeps {
                step
            } else {
                SessionStep {
                    next: step.next.with_tokens(self.socket_ids.remove(token.0)),
                    cmds: step.cmds,
                }
            }
        } else {
            step
        }
    }

    /// An event from inside the reactor.
    pub open spec fn handle_evt(self, evt: EvtSignal, fresh: usize) -> SessionStep {
        match evt {
            EvtSignal::Socket(id, e) => self.handle_socket_evt(id, e, fresh),
            EvtSignal::Pipe(token, e) => self.handle_pipe_evt(token, e, fresh),
        }
    }

    /// A message on the command channel.
    pub open spec fn notify(self, signal: EventLoopSignal, fresh: usize) -> SessionStep {
        match signal {
            EventLoopSignal::Cmd(cmd) => self.handle_cmd(cmd, fresh),
            EventLoopSignal::Evt(evt) => self.handle_evt(evt, fresh),
        }
    }

    /// A timer has fired: it reaches the socket that it names, or the socket
    /// of the token that it names.
    pub open spec fn timeout(self, timeout: EventLoopTimeout, fresh: usize) -> SessionStep {
        match timeout {
            EventLoopTimeout::Reconnect(token, _) => self.route_token(
                token.0,
                SocketOp::Reconnect(token),
                fresh,
            ),
            EventLoopTimeout::Rebind(token, _) => self.route_token(
                token.0,
                SocketOp::Rebind(token),
                fresh,
            ),
            EventLoopTimeout::CancelSend(id) => self.route(id.0, SocketOp::SendTimeout, fresh),
            EventLoopTimeout::CancelRecv(id) => self.route(id.0, SocketOp::RecvTimeout, fresh),
            EventLoopTimeout::CancelSurvey(id) => self.route(id.0, SocketOp::SurveyTimeout, fresh),
            EventLoopTimeout::Resend(id) => self.route(id.0, SocketOp::Resend, fresh),
        }
    }

    /// The socket that a message on the command channel is for, if it is for
    /// one that the session has.
    pub open spec fn target(self, signal: EventLoopSignal) -> Option<SocketId> {
        match signal {
            EventLoopSignal::Cmd(CmdSignal::Socket(id, _)) => self.known(id),
            EventLoopSignal::Evt(EvtSignal::Socket(id, _)) => self.known(id),
            EventLoopSignal::Evt(EvtSignal::Pipe(token, _)) => match self.socket_of(token.0) {
                Some(key) => Some(SocketId(key)),
                None => None,
            },
            _ => None,
        }
    }

    /// The socket that a timer is for, if it is for one that the session
    /// has.
    pub open spec fn timer_target(self, timeout: EventLoopTimeout) -> Option<SocketId> {
        match timeout {
            EventLoopTimeout::Reconnect(token, _) | EventLoopTimeout::Rebind(
                token,
                _,
            ) => match self.socket_of(token.0) {
                Some(key) => Some(SocketId(key)),
                None => None,
            },
            EventLoopTimeout::CancelSend(id) | EventLoopTimeout::CancelRecv(id)
            | EventLoopTimeout::CancelSurvey(id) | EventLoopTimeout::Resend(id) => self.known(id),
        }
    }

    /// The socket `id`, if the session has it.
    pub open spec fn known(self, id: SocketId) -> Option<SocketId> {
        if self.sockets.contains_key(id.0) {
            Some(id)
        } else {
            None
        }
    }

    /// The reactor reports the transport under `token` ready: the event
    /// reaches the socket of the token.
    pub open spec fn ready(self, token: EndpointId, events: mio::EventSet, fresh: usize) -> SessionStep {
        self.route_token(token.0, SocketOp::Ready(token, events), fresh)
    }
}

} // verus!
