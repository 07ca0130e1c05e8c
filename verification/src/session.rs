//! The session: all the sockets and probes of a reactor, and the routes by
//! which commands, events and timers reach them.
//!
//! Commands name their socket. Events of pipes and timers of endpoints name
//! the token under which the transport is registered, which is the number of
//! its endpoint; the session keeps the socket of each token.

use std::collections::HashMap;
use vstd::prelude::*;
use crate::error::invalid_input_io_error;
use crate::id_sequence::IdSequence;
use crate::ids::{EndpointId, ProbeId, Scheduled, SocketId};
use crate::probe::Probe;
use crate::proto::context::{Context, ProtoCmd};
use crate::proto::protocol::create_protocol;
use crate::session_model::{drain, SessionView};
use crate::signal::{
    CmdSignal,
    EventLoopSignal,
    EventLoopTimeout,
    EvtSignal,
    ProbeCmdSignal,
    SessionCmdSignal,
    SessionNotify,
    SocketCmdSignal,
    SocketEvtSignal,
};
use crate::socket::Socket;
use crate::socket_model::{apply, SocketOp, SocketView};
use crate::socket_type::SocketType;
use crate::transport::context::PipeEvt;

verus! {

broadcast use vstd::std_specs::hash::group_hash_axioms;

/// The container of all the sockets and probes of a reactor.
pub struct Session {
    sockets: HashMap<usize, Socket>,
    order: Vec<usize>,
    socket_ids: HashMap<usize, SocketId>,
    probes: HashMap<usize, Probe>,
    probe_ids: HashMap<usize, ProbeId>,
    id_seq: IdSequence,
}

/// The contents of the sockets of a map.
pub open spec fn views(sockets: Map<usize, Socket>) -> Map<usize, SocketView> {
    sockets.map_values(|s: Socket| s@)
}

impl View for Session {
    type V = SessionView;

    closed spec fn view(&self) -> SessionView {
        SessionView {
            sockets: views(self.sockets@),
            order: self.order@,
            socket_ids: self.socket_ids@,
            probes: self.probes@,
            probe_ids: self.probe_ids@,
        }
    }
}

fn apply_op(socket: &mut Socket, ctx: &mut Context, op: SocketOp, fresh: usize)
    requires
        old(socket).wf(),
    ensures
        final(socket).wf(),
        final(socket)@ == apply(old(socket)@, op, fresh).next,
        final(ctx)@ == old(ctx)@ + apply(old(socket)@, op, fresh).cmds,
{
    match op {
        SocketOp::Cmd(cmd) => socket.handle_cmd_with(ctx, cmd, fresh),
        SocketOp::Evt(evt) => socket.handle_evt(ctx, evt),
        SocketOp::Pipe(eid, evt) => socket.on_pipe_evt_with(ctx, eid, evt, Scheduled(fresh)),
        SocketOp::Ready(eid, events) => socket.ready(ctx, eid, events),
        SocketOp::SendTimeout => socket.on_send_timeout(ctx),
        SocketOp::RecvTimeout => socket.on_recv_timeout(ctx),
        SocketOp::SurveyTimeout => {
            socket.on_survey_timeout(ctx);
            assert(ctx@ =~= old(ctx)@ + Seq::<ProtoCmd>::empty());
        },
        SocketOp::Resend => {
            socket.resend(ctx);
            assert(ctx@ =~= old(ctx)@ + Seq::<ProtoCmd>::empty());
        },
        SocketOp::Reconnect(eid) => socket.reconnect(ctx, eid),
        SocketOp::Rebind(eid) => socket.rebind(ctx, eid),
    }
}

impl Session {
    /// The invariant that every operation keeps.
    pub closed spec fn wf(&self) -> bool {
        forall|k: usize| self.sockets@.contains_key(k) ==> (#[trigger] self.sockets@[k]).wf()
    }

    /// What well-formedness says of the content.
    pub proof fn lemma_wf(&self)
        requires
            self.wf(),
        ensures
            self@.wf(),
    {
        assert forall|k: usize| self@.sockets.contains_key(k) implies (
        #[trigger] self@.sockets[k]).wf() by {
            self.sockets@[k].lemma_wf();
        }
    }

    /// A session without sockets and probes, with its own source of
    /// identifiers.
    pub fn new() -> (session: Session)
        ensures
            session@ == SessionView::empty(),
            session.wf(),
    {
        let session = Session {
            sockets: HashMap::new(),
            order: Vec::new(),
            socket_ids: HashMap::new(),
            probes: HashMap::new(),
            probe_ids: HashMap::new(),
            id_seq: IdSequence::new(),
        };
        assert(session@.sockets =~= Map::<usize, SocketView>::empty());
        session
    }

    /// Whether the session has the socket `id`.
    pub fn has_socket(&self, id: SocketId) -> (yes: bool)
        ensures
            yes == self@.sockets.contains_key(id.0),
    {
        self.sockets.contains_key(&id.0)
    }

    /// The socket that the token belongs to, if the session has it.
    pub fn socket_of(&self, token: EndpointId) -> (id: Option<SocketId>)
        ensures
            id == match self@.socket_of(token.0) {
                Some(key) => Some(SocketId(key)),
                None => None,
            },
    {
        match self.socket_ids.get(&token.0) {
            Some(id) => {
                if self.sockets.contains_key(&id.0) {
                    Some(*id)
                } else {
                    None
                }
            },
            None => None,
        }
    }

    /// Draws a fresh identifier for a pipe that a listener has accepted. Which
    /// number it is depends on the identifiers drawn so far.
    pub fn fresh_endpoint_id(&self) -> EndpointId {
        EndpointId(self.id_seq.next())
    }

    fn known(&self, id: SocketId) -> (found: Option<SocketId>)
        ensures
            found == self@.known(id),
    {
        if self.sockets.contains_key(&id.0) {
            Some(id)
        } else {
            None
        }
    }

    /// The socket that a message on the command channel is for, and whose
    /// user gets the answers that the step writes: `None` for a message to
    /// the session itself, to a probe, or to a socket that the session does
    /// not have.
    pub fn target(&self, signal: &EventLoopSignal) -> (id: Option<SocketId>)
        ensures
            id == self@.target(*signal),
    {
        match signal {
            EventLoopSignal::Cmd(CmdSignal::Socket(id, _)) => self.known(*id),
            EventLoopSignal::Evt(EvtSignal::Socket(id, _)) => self.known(*id),
            EventLoopSignal::Evt(EvtSignal::Pipe(token, _)) => self.socket_of(*token),
            _ => None,
        }
    }

    /// The socket that a timer is for: `None` for a socket that the session
    /// does not have.
    pub fn timer_target(&self, timeout: &EventLoopTimeout) -> (id: Option<SocketId>)
        ensures
            id == self@.timer_target(*timeout),
    {
        match timeout {
            EventLoopTimeout::Reconnect(token, _) => self.socket_of(*token),
            EventLoopTimeout::Rebind(token, _) => self.socket_of(*token),
            EventLoopTimeout::CancelSend(id) => self.known(*id),
            EventLoopTimeout::CancelRecv(id) => self.known(*id),
            EventLoopTimeout::CancelSurvey(id) => self.known(*id),
            EventLoopTimeout::Resend(id) => self.known(*id),
        }
    }

    fn route(&mut self, ctx: &mut Context, key: usize, op: SocketOp, fresh: usize)
        requires
            old(self).wf(),
        ensures
            final(self).wf(),
            final(self)@ == old(self)@.route(key, op, fresh).next,
            final(ctx)@ == old(ctx)@ + old(self)@.route(key, op, fresh).cmds,
    {
        match self.sockets.remove(&key) {
            Some(socket) => {
                let mut socket = socket;
                apply_op(&mut socket, ctx, op, fresh);
                self.sockets.insert(key, socket);
                assert(self@.sockets =~= old(self)@.sockets.insert(
                    key,
                    apply(old(self)@.sockets[key], op, fresh).next,
                ));
            },
            None => {
                assert(self.sockets@ =~= old(self).sockets@);
                assert(ctx@ =~= old(ctx)@ + Seq::<ProtoCmd>::empty());
            },
        }
    }

    fn route_token(&mut self, ctx: &mut Context, token: EndpointId, op: SocketOp, fresh: usize)
        requires
            old(self).wf(),
        ensures
            final(self).wf(),
            final(self)@ == old(self)@.route_token(token.0, op, fresh).next,
            final(ctx)@ == old(ctx)@ + old(self)@.route_token(token.0, op, fresh).cmds,
    {
        match self.socket_of(token) {
            Some(id) => self.route(ctx, id.0, op, fresh),
            None => {
                assert(ctx@ =~= old(ctx)@ + Seq::<ProtoCmd>::empty());
            },
        }
    }

    /// A message on the command channel: a command of the user, or an event
    /// from inside the reactor. Where the step needs a fresh identifier, it
    /// gets one: the step is that of `notify_with` for some number.
    pub fn notify(&mut self, ctx: &mut Context, signal: EventLoopSignal)
        requires
            old(self).wf(),
        ensures
            final(self).wf(),
            exists|fresh: usize|
                {
                    let step = #[trigger] old(self)@.notify(signal, fresh);
                    final(self)@ == step.next && final(ctx)@ == old(ctx)@ + step.cmds
                },
    {
        let fresh = self.id_seq.next();
        self.notify_with(ctx, signal, fresh);
        assert(self@ == old(self)@.notify(signal, fresh).next);
    }

    /// A message on the command channel, with the number to use where the
    /// step needs a fresh identifier.
    pub fn notify_with(&mut self, ctx: &mut Context, signal: EventLoopSignal, fresh: usize)
        requires
            old(self).wf(),
        ensures
            final(self).wf(),
            final(self)@ == old(self)@.notify(signal, fresh).next,
            final(ctx)@ == old(ctx)@ + old(self)@.notify(signal, fresh).cmds,
    {
        match signal {
            EventLoopSignal::Cmd(cmd) => self.handle_cmd(ctx, cmd, fresh),
            EventLoopSignal::Evt(evt) => self.handle_evt(ctx, evt, fresh),
        }
    }

    /// A command of the user: to the session, to a socket or to a probe.
    pub fn handle_cmd(&mut self, ctx: &mut Context, cmd: CmdSignal, fresh: usize)
        requires
            old(self).wf(),
        ensures
            final(self).wf(),
            final(self)@ == old(self)@.handle_cmd(cmd, fresh).next,
            final(ctx)@ == old(ctx)@ + old(self)@.handle_cmd(cmd, fresh).cmds,
    {
        match cmd {
            CmdSignal::Session(c) => self.handle_session_cmd(ctx, c, fresh),
            CmdSignal::Socket(id, c) => self.handle_socket_cmd(ctx, id, c, fresh),
            CmdSignal::Probe(id, c) => self.handle_probe_cmd(ctx, id, c),
        }
    }

    /// A command to the session itself.
    pub fn handle_session_cmd(&mut self, ctx: &mut Context, cmd: SessionCmdSignal, fresh: usize)
        requires
            old(self).wf(),
        ensures
            final(self).wf(),
            final(self)@ == old(self)@.handle_session_cmd(cmd, fresh).next,
            final(ctx)@ == old(ctx)@ + old(self)@.handle_session_cmd(cmd, fresh).cmds,
    {
        match cmd {
            SessionCmdSignal::CreateSocket(t) => self.create_socket(ctx, t, fresh),
            SessionCmdSignal::DestroySocket(id) => self.destroy_socket(ctx, id),
            SessionCmdSignal::CreateProbe(l, r) => self.create_probe(ctx, l, r, fresh),
            SessionCmdSignal::DestroyProbe(id) => self.destroy_probe(ctx, id),
            SessionCmdSignal::Shutdown => self.shutdown(ctx),
        }
    }

    /// A command to the socket `id`. The command is dropped if the session
    /// has no such socket. An endpoint that the command records gets its
    /// number as token; one that it shuts down loses its token.
    pub fn handle_socket_cmd(
        &mut self,
        ctx: &mut Context,
        id: SocketId,
        cmd: SocketCmdSignal,
        fresh: usize,
    )
        requires
            old(self).wf(),
        ensures
            final(self).wf(),
            final(self)@ == old(self)@.handle_socket_cmd(id, cmd, fresh).next,
            final(ctx)@ == old(ctx)@ + old(self)@.handle_socket_cmd(id, cmd, fresh).cmds,
    {
        match self.sockets.remove(&id.0) {
            Some(socket) => {
                let mut socket = socket;
                let opens = match &cmd {
                    SocketCmdSignal::Connect(_) => true,
                    SocketCmdSignal::Bind(_) => true,
                    _ => false,
                };
                let shuts = match &cmd {
                    SocketCmdSignal::Shutdown(eid) => Some(*eid),
                    _ => None,
                };
                socket.handle_cmd_with(ctx, cmd, fresh);
                if opens && socket.has_endpoint(EndpointId(fresh)) {
                    self.socket_ids.insert(fresh, id);
                }
                if let Some(eid) = shuts {
                    self.socket_ids.remove(&eid.0);
                }
                self.sockets.insert(id.0, socket);
                assert(self@.sockets =~= old(self)@.sockets.insert(
                    id.0,
                    old(self)@.sockets[id.0].handle_cmd(cmd, fresh).next,
                ));
            },
            None => {
                assert(self.sockets@ =~= old(self).sockets@);
                assert(ctx@ =~= old(ctx)@ + Seq::<ProtoCmd>::empty());
            },
        }
    }

    /// A command to a probe: a probe takes none.
    pub fn handle_probe_cmd(&mut self, ctx: &mut Context, id: ProbeId, cmd: ProbeCmdSignal)
        ensures
            *final(self) == *old(self),
            final(ctx)@ == old(ctx)@ + Seq::<ProtoCmd>::empty(),
    {
        assert(ctx@ =~= old(ctx)@ + Seq::<ProtoCmd>::empty());
    }

    /// An event from inside the reactor: of an endpoint or of a pipe.
    pub fn handle_evt(&mut self, ctx: &mut Context, evt: EvtSignal, fresh: usize)
        requires
            old(self).wf(),
        ensures
            final(self).wf(),
            final(self)@ == old(self)@.handle_evt(evt, fresh).next,
            final(ctx)@ == old(ctx)@ + old(self)@.handle_evt(evt, fresh).cmds,
    {
        match evt {
            EvtSignal::Socket(id, e) => self.handle_socket_evt(ctx, id, e, fresh),
            EvtSignal::Pipe(tok, e) => self.handle_pipe_evt(ctx, tok, e, fresh),
        }
    }

    /// An event of an endpoint of the socket `id`. A new pipe and a new
    /// listener get their token, and the socket learns of them. A readable
    /// socket is recorded by its probe.
    pub fn handle_socket_evt(
        &mut self,
        ctx: &mut Context,
        id: SocketId,
        evt: SocketEvtSignal,
        fresh: usize,
    )
        requires
            old(self).wf(),
        ensures
            final(self).wf(),
            final(self)@ == old(self)@.handle_socket_evt(id, evt, fresh).next,
            final(ctx)@ == old(ctx)@ + old(self)@.handle_socket_evt(id, evt, fresh).cmds,
    {
        match evt {
            SocketEvtSignal::PipeAdded(tok) => {
                self.socket_ids.insert(tok.0, id);
                assert(self@ == old(self)@.with_tokens(old(self)@.socket_ids.insert(tok.0, id)));
                self.route(ctx, id.0, SocketOp::Evt(SocketEvtSignal::PipeAdded(tok)), fresh);
            },
            SocketEvtSignal::AcceptorAdded(tok) => {
                self.socket_ids.insert(tok.0, id);
                assert(self@ == old(self)@.with_tokens(old(self)@.socket_ids.insert(tok.0, id)));
                self.route(ctx, id.0, SocketOp::Evt(SocketEvtSignal::AcceptorAdded(tok)), fresh);
            },
            SocketEvtSignal::Readable => {
                let found = match self.probe_ids.get(&id.0) {
                    Some(probe_id) => Some(*probe_id),
                    None => None,
                };
                if let Some(probe_id) = found {
                    if let Some(probe) = self.probes.remove(&probe_id.0) {
                        let mut probe = probe;
                        probe.on_socket_readable(id);
                        self.probes.insert(probe_id.0, probe);
                        assert(self.probes@ =~= old(self).probes@.insert(
                            probe_id.0,
                            old(self).probes@[probe_id.0].readable(id),
                        ));
                    } else {
                        assert(self.probes@ =~= old(self).probes@);
                    }
                }
                assert(ctx@ =~= old(ctx)@ + Seq::<ProtoCmd>::empty());
                assert(self@ == old(self)@.handle_socket_evt(id, evt, fresh).next);
            },
        }
    }

    /// An event of the pipe that is registered under `tok`. The event
    /// reaches the socket of the token. When the pipe has closed, the token
    /// is given up, unless the socket still has the endpoint of that number
    /// and will open it again.
    pub fn handle_pipe_evt(&mut self, ctx: &mut Context, tok: EndpointId, evt: PipeEvt, fresh: usize)
        requires
            old(self).wf(),
        ensures
            final(self).wf(),
            final(self)@ == old(self)@.handle_pipe_evt(tok, evt, fresh).next,
            final(ctx)@ == old(ctx)@ + old(self)@.handle_pipe_evt(tok, evt, fresh).cmds,
    {
        let closed = match &evt {
            PipeEvt::Closed => true,
            _ => false,
        };
        let owner = self.socket_of(tok);
        let ghost step = self@.route_token(tok.0, SocketOp::Pipe(tok, evt), fresh);
        self.route_token(ctx, tok, SocketOp::Pipe(tok, evt), fresh);
        if closed {
            let keeps = match owner {
                Some(id) => match self.sockets.get(&id.0) {
                    Some(socket) => {
                        assert(step.next.sockets[id.0] == socket@);
                        socket.has_endpoint(tok)
                    },
                    None => {
                        assert(!self@.sockets.contains_key(id.0));
                        false
                    },
                },
                None => false,
            };
            if !keeps {
                self.socket_ids.remove(&tok.0);
                assert(self@ == step.next.with_tokens(old(self)@.socket_ids.remove(tok.0)));
            }
        }
    }

    /// Creates a socket of the given pattern under the number `fresh`, and
    /// tells the user its identifier. A pattern that the library has no
    /// protocol for is refused with `InvalidInput`.
    pub fn create_socket(&mut self, ctx: &mut Context, socket_type: SocketType, fresh: usize)
        requires
            old(self).wf(),
        ensures
            final(self).wf(),
            final(self)@ == old(self)@.create_socket(socket_type, fresh).next,
            final(ctx)@ == old(ctx)@ + old(self)@.create_socket(socket_type, fresh).cmds,
    {
        let id = SocketId(fresh);
        match create_protocol(id, socket_type) {
            Some(protocol) => {
                let socket = Socket::new(id, protocol, self.id_seq.clone());
                self.sockets.insert(fresh, socket);
                self.order.push(fresh);
                ctx.push(ProtoCmd::Notify(SessionNotify::SocketCreated(id)));
                assert(self@.sockets =~= old(self)@.create_socket(socket_type, fresh).next.sockets);
                assert(ctx@ =~= old(ctx)@ + old(self)@.create_socket(socket_type, fresh).cmds);
            },
            None => {
                let e = invalid_input_io_error("socket type not supported");
                ctx.push(ProtoCmd::Notify(SessionNotify::SocketNotCreated(e)));
                assert(ctx@ =~= old(ctx)@ + old(self)@.create_socket(socket_type, fresh).cmds);
            },
        }
    }

    /// Removes the socket `id` from the session and closes each of its
    /// endpoints.
    pub fn destroy_socket(&mut self, ctx: &mut Context, id: SocketId)
        requires
            old(self).wf(),
        ensures
            final(self).wf(),
            final(self)@ == old(self)@.destroy_socket(id).next,
            final(ctx)@ == old(ctx)@ + old(self)@.destroy_socket(id).cmds,
    {
        match self.sockets.remove(&id.0) {
            Some(socket) => {
                let mut socket = socket;
                socket.destroy(ctx);
                assert(self@.sockets =~= old(self)@.sockets.remove(id.0));
            },
            None => {
                assert(self.sockets@ =~= old(self).sockets@);
                assert(ctx@ =~= old(ctx)@ + Seq::<ProtoCmd>::empty());
            },
        }
    }

    /// Creates a probe of two sockets under the number `fresh`, and tells
    /// the user its identifier. If the session lacks either socket, the probe
    /// is refused with `InvalidInput`.
    pub fn create_probe(&mut self, ctx: &mut Context, left_id: SocketId, right_id: SocketId, fresh: usize)
        requires
            old(self).wf(),
        ensures
            final(self).wf(),
            final(self)@ == old(self)@.create_probe(left_id, right_id, fresh).next,
            final(ctx)@ == old(ctx)@ + old(self)@.create_probe(left_id, right_id, fresh).cmds,
    {
        if self.sockets.contains_key(&left_id.0) && self.sockets.contains_key(&right_id.0) {
            let id = ProbeId(fresh);
            let probe = Probe::new(left_id, right_id);

            self.probes.insert(fresh, probe);
            self.probe_ids.insert(left_id.0, id);
            self.probe_ids.insert(right_id.0, id);

            ctx.push(ProtoCmd::Notify(SessionNotify::ProbeCreated(id)));
            assert(ctx@ =~= old(ctx)@ + old(self)@.create_probe(left_id, right_id, fresh).cmds);
        } else {
            let e = invalid_input_io_error("no matching sockets");

            ctx.push(ProtoCmd::Notify(SessionNotify::ProbeNotCreated(e)));
            assert(ctx@ =~= old(ctx)@ + old(self)@.create_probe(left_id, right_id, fresh).cmds);
        }
    }

    /// Removes the probe `id` from the session.
    pub fn destroy_probe(&mut self, ctx: &mut Context, id: ProbeId)
        requires
            old(self).wf(),
        ensures
            final(self).wf(),
            final(self)@ == old(self)@.destroy_probe(id).next,
            final(ctx)@ == old(ctx)@ + old(self)@.destroy_probe(id).cmds,
    {
        let _ = self.probes.remove(&id.0);
        assert(ctx@ =~= old(ctx)@ + Seq::<ProtoCmd>::empty());
    }

    /// Closes every socket, in the order of creation, forgets the sockets
    /// and their tokens, and stops the event loop.
    pub fn shutdown(&mut self, ctx: &mut Context)
        requires
            old(self).wf(),
        ensures
            final(self).wf(),
            final(self)@ == old(self)@.shutdown().next,
            final(ctx)@ == old(ctx)@ + old(self)@.shutdown().cmds,
    {
        let ghost all = views(self.sockets@);
        let ghost order = self.order@;
        let mut i: usize = 0;
        while i < self.order.len()
            invariant
                i <= self.order@.len(),
                self.order@ == order,
                self.wf(),
                self.probes == old(self).probes,
                self.probe_ids == old(self).probe_ids,
                ctx@ + drain(views(self.sockets@), order, i as int) == old(ctx)@ + drain(
                    all,
                    order,
                    0,
                ),
            decreases self.order@.len() - i,
        {
            let key = self.order[i];
            let ghost before = ctx@;
            let ghost sockets = views(self.sockets@);
            let ghost raw = self.sockets@;
            match self.sockets.remove(&key) {
                Some(socket) => {
                    let mut socket = socket;
                    socket.destroy(ctx);
                    assert(views(self.sockets@) =~= sockets.remove(key));
                    assert(ctx@ + drain(views(self.sockets@), order, i + 1) =~= before + drain(
                        sockets,
                        order,
                        i as int,
                    ));
                },
                None => {
                    assert(self.sockets@ =~= raw);
                    assert(views(self.sockets@) =~= sockets);
                },
            }
            i += 1;
        }
        assert(ctx@ =~= ctx@ + drain(views(self.sockets@), order, i as int));
        self.socket_ids.clear();
        self.sockets.clear();
        self.order.clear();
        ctx.push(ProtoCmd::Shutdown);
        assert(self@.sockets =~= Map::<usize, SocketView>::empty());
        assert(ctx@ =~= old(ctx)@ + (drain(all, order, 0) + seq![ProtoCmd::Shutdown]));
    }

    /// A timer has fired. It reaches the socket that it names, or the socket
    /// of the token that it names; where that socket starts a timer of its
    /// own, it does so under a fresh identifier.
    pub fn timeout(&mut self, ctx: &mut Context, timeout: EventLoopTimeout)
        requires
            old(self).wf(),
        ensures
            final(self).wf(),
            exists|fresh: usize|
                {
                    let step = #[trigger] old(self)@.timeout(timeout, fresh);
                    final(self)@ == step.next && final(ctx)@ == old(ctx)@ + step.cmds
                },
    {
        let fresh = self.id_seq.next();
        self.timeout_with(ctx, timeout, fresh);
        assert(self@ == old(self)@.timeout(timeout, fresh).next);
    }

    /// A timer has fired, with the number to use where the step needs a
    /// fresh identifier.
    pub fn timeout_with(&mut self, ctx: &mut Context, timeout: EventLoopTimeout, fresh: usize)
        requires
            old(self).wf(),
        ensures
            final(self).wf(),
            final(self)@ == old(self)@.timeout(timeout, fresh).next,
            final(ctx)@ == old(ctx)@ + old(self)@.timeout(timeout, fresh).cmds,
    {
        match timeout {
            EventLoopTimeout::Reconnect(token, addr) => self.reconnect(ctx, token, addr, fresh),
            EventLoopTimeout::Rebind(token, addr) => self.rebind(ctx, token, addr, fresh),
            EventLoopTimeout::CancelSend(socket_id) => self.on_send_timeout(ctx, socket_id, fresh),
            EventLoopTimeout::CancelRecv(socket_id) => self.on_recv_timeout(ctx, socket_id, fresh),
            EventLoopTimeout::CancelSurvey(socket_id) => self.on_survey_timeout(
                ctx,
                socket_id,
                fresh,
            ),
            EventLoopTimeout::Resend(socket_id) => self.resend(ctx, socket_id, fresh),
        }
    }

    /// The transport under `tok` is to be connected again.
    pub fn reconnect(&mut self, ctx: &mut Context, tok: EndpointId, addr: String, fresh: usize)
        requires
            old(self).wf(),
        ensures
            final(self).wf(),
            final(self)@ == old(self)@.route_token(tok.0, SocketOp::Reconnect(tok), fresh).next,
            final(ctx)@ == old(ctx)@ + old(self)@.route_token(
                tok.0,
                SocketOp::Reconnect(tok),
                fresh,
            ).cmds,
    {
        self.route_token(ctx, tok, SocketOp::Reconnect(tok), fresh);
    }

    /// The listener under `tok` is to be opened again.
    pub fn rebind(&mut self, ctx: &mut Context, tok: EndpointId, addr: String, fresh: usize)
        requires
            old(self).wf(),
        ensures
            final(self).wf(),
            final(self)@ == old(self)@.route_token(tok.0, SocketOp::Rebind(tok), fresh).next,
            final(ctx)@ == old(ctx)@ + old(self)@.route_token(
                tok.0,
                SocketOp::Rebind(tok),
                fresh,
            ).cmds,
    {
        self.route_token(ctx, tok, SocketOp::Rebind(tok), fresh);
    }

    /// The send of the socket `id` has run out of time.
    pub fn on_send_timeout(&mut self, ctx: &mut Context, id: SocketId, fresh: usize)
        requires
            old(self).wf(),
        ensures
            final(self).wf(),
            final(self)@ == old(self)@.route(id.0, SocketOp::SendTimeout, fresh).next,
            final(ctx)@ == old(ctx)@ + old(self)@.route(id.0, SocketOp::SendTimeout, fresh).cmds,
    {
        self.route(ctx, id.0, SocketOp::SendTimeout, fresh);
    }

    /// The receive of the socket `id` has run out of time.
    pub fn on_recv_timeout(&mut self, ctx: &mut Context, id: SocketId, fresh: usize)
        requires
            old(self).wf(),
        ensures
            final(self).wf(),
            final(self)@ == old(self)@.route(id.0, SocketOp::RecvTimeout, fresh).next,
            final(ctx)@ == old(ctx)@ + old(self)@.route(id.0, SocketOp::RecvTimeout, fresh).cmds,
    {
        self.route(ctx, id.0, SocketOp::RecvTimeout, fresh);
    }

    /// The survey of the socket `id` has run out of time.
    pub fn on_survey_timeout(&mut self, ctx: &mut Context, id: SocketId, fresh: usize)
        requires
            old(self).wf(),
        ensures
            final(self).wf(),
            final(self)@ == old(self)@.route(id.0, SocketOp::SurveyTimeout, fresh).next,
            final(ctx)@ == old(ctx)@ + old(self)@.route(id.0, SocketOp::SurveyTimeout, fresh).cmds,
    {
        self.route(ctx, id.0, SocketOp::SurveyTimeout, fresh);
    }

    /// The socket `id` is to send its request again.
    pub fn resend(&mut self, ctx: &mut Context, id: SocketId, fresh: usize)
        requires
            old(self).wf(),
        ensures
            final(self).wf(),
            final(self)@ == old(self)@.route(id.0, SocketOp::Resend, fresh).next,
            final(ctx)@ == old(ctx)@ + old(self)@.route(id.0, SocketOp::Resend, fresh).cmds,
    {
        self.route(ctx, id.0, SocketOp::Resend, fresh);
    }

    /// The reactor reports the transport under `tok` ready: the event
    /// reaches the socket of the token.
    pub fn ready(&mut self, ctx: &mut Context, tok: EndpointId, events: mio::EventSet)
        requires
            old(self).wf(),
        ensures
            final(self).wf(),
            final(self)@ == old(self)@.ready(tok, events, 0).next,
            final(ctx)@ == old(ctx)@ + old(self)@.ready(tok, events, 0).cmds,
    {
        self.route_token(ctx, tok, SocketOp::Ready(tok, events), 0);
    }

    /// The wait of the reactor was interrupted: nothing is to be done.
    pub fn interrupted(&mut self, ctx: &mut Context)
        ensures
            *final(self) == *old(self),
            final(ctx)@ == old(ctx)@,
    {
    }
}

} // verus!
