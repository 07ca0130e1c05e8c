use std::rc::Rc;

use scaproust::error::ErrorKind;
use scaproust::ids::{EndpointId, ProbeId, SocketId};
use scaproust::message::Message;
use scaproust::poll::{PollReq, PollRes};
use scaproust::probe::Probe;
use scaproust::proto::context::{Context, ProtoCmd, Reply};
use scaproust::session::Session;
use scaproust::signal::{
    CmdSignal, EventLoopSignal, EventLoopTimeout, EvtSignal, ProbeCmdSignal, SessionCmdSignal,
    SessionNotify, SocketCmdSignal, SocketEvtSignal,
};
use scaproust::socket_type::SocketType;
use scaproust::transport::context::PipeEvt;

fn eid(n: usize) -> EndpointId {
    EndpointId::from(n)
}

fn msg(n: u8) -> Message {
    Message::from_body(vec![n])
}

fn cmd(id: usize, cmd: SocketCmdSignal) -> EventLoopSignal {
    EventLoopSignal::Cmd(CmdSignal::Socket(SocketId(id), cmd))
}

fn session_cmd(cmd: SessionCmdSignal) -> EventLoopSignal {
    EventLoopSignal::Cmd(CmdSignal::Session(cmd))
}

fn create(session: &mut Session, ctx: &mut Context, t: SocketType, id: usize) {
    session.notify_with(ctx, session_cmd(SessionCmdSignal::CreateSocket(t)), id);
    assert_eq!(
        vec![ProtoCmd::Notify(SessionNotify::SocketCreated(SocketId(id)))],
        ctx.take()
    );
}

#[test]
fn a_new_session_has_no_socket() {
    let session = Session::new();
    assert!(!session.has_socket(SocketId(0)));
    assert_eq!(None, session.socket_of(eid(0)));
}

#[test]
fn create_socket_tells_the_user_a_fresh_id_each_time() {
    let mut ctx = Context::new();
    let mut session = Session::new();
    session.notify(&mut ctx, session_cmd(SessionCmdSignal::CreateSocket(SocketType::Push)));
    session.notify(&mut ctx, session_cmd(SessionCmdSignal::CreateSocket(SocketType::Pull)));
    let cmds = ctx.take();
    assert_eq!(2, cmds.len());
    let ids: Vec<SocketId> = cmds
        .iter()
        .map(|c| match c {
            ProtoCmd::Notify(SessionNotify::SocketCreated(id)) => *id,
            other => panic!("unexpected {:?}", other),
        })
        .collect();
    assert_ne!(ids[0], ids[1]);
    assert!(session.has_socket(ids[0]));
    assert!(session.has_socket(ids[1]));
}

#[test]
fn create_socket_of_a_pattern_without_protocol_is_refused() {
    let mut ctx = Context::new();
    let mut session = Session::new();
    session.notify_with(
        &mut ctx,
        session_cmd(SessionCmdSignal::CreateSocket(SocketType::Bus)),
        4,
    );
    let cmds = ctx.take();
    assert_eq!(1, cmds.len());
    match &cmds[0] {
        ProtoCmd::Notify(SessionNotify::SocketNotCreated(e)) => {
            assert_eq!(ErrorKind::InvalidInput, e.kind())
        }
        other => panic!("unexpected {:?}", other),
    }
    assert!(!session.has_socket(SocketId(4)));
}

#[test]
fn commands_reach_their_socket_and_no_other() {
    let mut ctx = Context::new();
    let mut session = Session::new();
    create(&mut session, &mut ctx, SocketType::Push, 1);
    create(&mut session, &mut ctx, SocketType::Pull, 2);

    session.notify_with(&mut ctx, cmd(1, SocketCmdSignal::RecvMsg), 10);
    let cmds = ctx.take();
    assert_eq!(1, cmds.len());
    assert!(matches!(cmds[0], ProtoCmd::ReplyRecv(Reply::Error(_))));

    session.notify_with(&mut ctx, cmd(2, SocketCmdSignal::SendMsg(msg(1))), 11);
    let cmds = ctx.take();
    assert_eq!(1, cmds.len());
    assert!(matches!(cmds[0], ProtoCmd::ReplySend(Reply::Error(_))));

    session.notify_with(&mut ctx, cmd(3, SocketCmdSignal::RecvMsg), 12);
    assert_eq!(0, ctx.len());
}

#[test]
fn an_endpoint_gets_its_number_as_token() {
    let mut ctx = Context::new();
    let mut session = Session::new();
    create(&mut session, &mut ctx, SocketType::Push, 1);
    session.notify_with(
        &mut ctx,
        cmd(1, SocketCmdSignal::Connect("tcp://a:1".to_string())),
        5,
    );
    assert_eq!(Some(SocketId(1)), session.socket_of(eid(5)));
    session.notify_with(
        &mut ctx,
        cmd(1, SocketCmdSignal::Connect("not an url".to_string())),
        6,
    );
    assert_eq!(None, session.socket_of(eid(6)));
    session.notify_with(&mut ctx, cmd(1, SocketCmdSignal::Shutdown(eid(5))), 7);
    assert_eq!(None, session.socket_of(eid(5)));
    let cmds = ctx.take();
    assert_eq!(4, cmds.len());
    assert_eq!(ProtoCmd::Connected(eid(5)), cmds[1]);
    assert!(matches!(cmds[2], ProtoCmd::NotConnected(_)));
    assert_eq!(ProtoCmd::CloseEndpoint(eid(5)), cmds[3]);
}

#[test]
fn events_of_a_pipe_reach_the_socket_of_its_token() {
    let mut ctx = Context::new();
    let mut session = Session::new();
    create(&mut session, &mut ctx, SocketType::Push, 1);
    create(&mut session, &mut ctx, SocketType::Push, 2);
    session.notify_with(
        &mut ctx,
        EventLoopSignal::Evt(EvtSignal::Socket(
            SocketId(2),
            SocketEvtSignal::PipeAdded(eid(7)),
        )),
        20,
    );
    assert_eq!(Some(SocketId(2)), session.socket_of(eid(7)));
    session.notify_with(
        &mut ctx,
        EventLoopSignal::Evt(EvtSignal::Pipe(eid(7), PipeEvt::Opened)),
        21,
    );
    session.notify_with(&mut ctx, cmd(1, SocketCmdSignal::SendMsg(msg(1))), 22);
    assert_eq!(0, ctx.len());
    session.notify_with(&mut ctx, cmd(2, SocketCmdSignal::SendMsg(msg(2))), 23);
    assert_eq!(vec![ProtoCmd::Send(eid(7), Rc::new(msg(2)))], ctx.take());
    session.notify_with(
        &mut ctx,
        EventLoopSignal::Evt(EvtSignal::Pipe(eid(7), PipeEvt::SentMsg)),
        24,
    );
    assert_eq!(vec![ProtoCmd::ReplySend(Reply::Sent)], ctx.take());
    session.notify_with(
        &mut ctx,
        EventLoopSignal::Evt(EvtSignal::Pipe(eid(8), PipeEvt::SentMsg)),
        25,
    );
    assert_eq!(0, ctx.len());
}

#[test]
fn the_token_of_a_closed_pipe_is_given_up_unless_its_endpoint_stays() {
    let mut ctx = Context::new();
    let mut session = Session::new();
    create(&mut session, &mut ctx, SocketType::Push, 1);
    session.handle_socket_evt(&mut ctx, SocketId(1), SocketEvtSignal::AcceptorAdded(eid(6)), 0);
    session.handle_socket_evt(&mut ctx, SocketId(1), SocketEvtSignal::PipeAdded(eid(7)), 0);
    session.handle_socket_cmd(
        &mut ctx,
        SocketId(1),
        SocketCmdSignal::Connect("tcp://a:1".to_string()),
        8,
    );
    ctx.take();
    session.handle_pipe_evt(&mut ctx, eid(7), PipeEvt::Closed, 30);
    assert_eq!(None, session.socket_of(eid(7)));
    assert_eq!(0, ctx.len());
    session.handle_pipe_evt(&mut ctx, eid(8), PipeEvt::Closed, 31);
    assert_eq!(Some(SocketId(1)), session.socket_of(eid(8)));
    let cmds = ctx.take();
    assert_eq!(1, cmds.len());
    assert!(matches!(cmds[0], ProtoCmd::Schedule(_, EventLoopTimeout::Reconnect(_, _), 100)));
    session.handle_pipe_evt(&mut ctx, eid(9), PipeEvt::Closed, 32);
    assert_eq!(0, ctx.len());
    assert_eq!(Some(SocketId(1)), session.socket_of(eid(6)));
}

#[test]
fn timers_reach_their_socket() {
    let mut ctx = Context::new();
    let mut session = Session::new();
    create(&mut session, &mut ctx, SocketType::Push, 1);
    create(&mut session, &mut ctx, SocketType::Pull, 2);
    session.notify_with(&mut ctx, cmd(1, SocketCmdSignal::SendMsg(msg(1))), 10);
    session.notify_with(&mut ctx, cmd(2, SocketCmdSignal::RecvMsg), 11);
    assert_eq!(0, ctx.len());

    session.timeout(&mut ctx, EventLoopTimeout::CancelSend(SocketId(2)));
    session.timeout(&mut ctx, EventLoopTimeout::CancelRecv(SocketId(1)));
    session.timeout(&mut ctx, EventLoopTimeout::CancelSurvey(SocketId(1)));
    session.timeout(&mut ctx, EventLoopTimeout::Resend(SocketId(1)));
    session.timeout(&mut ctx, EventLoopTimeout::CancelSend(SocketId(3)));
    assert_eq!(0, ctx.len());

    session.timeout(&mut ctx, EventLoopTimeout::CancelSend(SocketId(1)));
    let cmds = ctx.take();
    assert_eq!(1, cmds.len());
    assert!(matches!(cmds[0], ProtoCmd::ReplySend(Reply::Error(_))));
    session.timeout(&mut ctx, EventLoopTimeout::CancelRecv(SocketId(2)));
    let cmds = ctx.take();
    assert_eq!(1, cmds.len());
    assert!(matches!(cmds[0], ProtoCmd::ReplyRecv(Reply::Error(_))));
}

#[test]
fn reconnect_and_rebind_timers_reach_the_socket_of_the_token() {
    let mut ctx = Context::new();
    let mut session = Session::new();
    create(&mut session, &mut ctx, SocketType::Push, 1);
    session.notify_with(
        &mut ctx,
        cmd(1, SocketCmdSignal::Connect("tcp://a:1".to_string())),
        5,
    );
    session.notify_with(
        &mut ctx,
        cmd(1, SocketCmdSignal::Bind("tcp://*:2".to_string())),
        6,
    );
    ctx.take();
    session.timeout_with(
        &mut ctx,
        EventLoopTimeout::Reconnect(eid(5), "tcp://a:1".to_string()),
        0,
    );
    session.timeout_with(
        &mut ctx,
        EventLoopTimeout::Rebind(eid(6), "tcp://*:2".to_string()),
        0,
    );
    let cmds = ctx.take();
    assert_eq!(2, cmds.len());
    assert!(matches!(cmds[0], ProtoCmd::Connect(_, _)));
    assert!(matches!(cmds[1], ProtoCmd::Bind(_, _)));
    session.timeout_with(
        &mut ctx,
        EventLoopTimeout::Reconnect(eid(9), "tcp://a:1".to_string()),
        0,
    );
    session.timeout_with(
        &mut ctx,
        EventLoopTimeout::Rebind(eid(5), "tcp://a:1".to_string()),
        0,
    );
    assert_eq!(0, ctx.len());
}

#[test]
fn readiness_reaches_the_socket_of_the_token() {
    let mut ctx = Context::new();
    let mut session = Session::new();
    create(&mut session, &mut ctx, SocketType::Pull, 1);
    session.handle_socket_evt(&mut ctx, SocketId(1), SocketEvtSignal::PipeAdded(eid(7)), 0);
    session.notify_with(&mut ctx, cmd(1, SocketCmdSignal::RecvMsg), 10);
    session.ready(&mut ctx, eid(8), mio::EventSet::readable());
    session.ready(&mut ctx, eid(7), mio::EventSet::writable());
    assert_eq!(0, ctx.len());
    session.ready(&mut ctx, eid(7), mio::EventSet::readable());
    assert_eq!(vec![ProtoCmd::Recv(eid(7))], ctx.take());
    session.interrupted(&mut ctx);
    assert_eq!(0, ctx.len());
}

#[test]
fn destroy_socket_closes_its_endpoints() {
    let mut ctx = Context::new();
    let mut session = Session::new();
    create(&mut session, &mut ctx, SocketType::Push, 1);
    session.notify_with(
        &mut ctx,
        cmd(1, SocketCmdSignal::Connect("tcp://a:1".to_string())),
        5,
    );
    ctx.take();
    session.notify_with(
        &mut ctx,
        session_cmd(SessionCmdSignal::DestroySocket(SocketId(1))),
        0,
    );
    assert_eq!(vec![ProtoCmd::CloseEndpoint(eid(5))], ctx.take());
    assert!(!session.has_socket(SocketId(1)));
    session.notify_with(
        &mut ctx,
        session_cmd(SessionCmdSignal::DestroySocket(SocketId(1))),
        0,
    );
    assert_eq!(0, ctx.len());
}

#[test]
fn shutdown_closes_the_sockets_in_order_and_stops_the_loop() {
    let mut ctx = Context::new();
    let mut session = Session::new();
    create(&mut session, &mut ctx, SocketType::Push, 3);
    create(&mut session, &mut ctx, SocketType::Pull, 1);
    create(&mut session, &mut ctx, SocketType::Sub, 2);
    session.notify_with(&mut ctx, cmd(1, SocketCmdSignal::Bind("tcp://*:1".to_string())), 11);
    session.notify_with(&mut ctx, cmd(3, SocketCmdSignal::Connect("tcp://a:1".to_string())), 12);
    session.notify_with(&mut ctx, cmd(3, SocketCmdSignal::Connect("tcp://b:1".to_string())), 13);
    session.notify_with(&mut ctx, cmd(2, SocketCmdSignal::Connect("tcp://c:1".to_string())), 14);
    session.notify_with(
        &mut ctx,
        session_cmd(SessionCmdSignal::DestroySocket(SocketId(2))),
        0,
    );
    ctx.take();
    session.notify_with(&mut ctx, session_cmd(SessionCmdSignal::Shutdown), 0);
    assert_eq!(
        vec![
            ProtoCmd::CloseEndpoint(eid(12)),
            ProtoCmd::CloseEndpoint(eid(13)),
            ProtoCmd::CloseEndpoint(eid(11)),
            ProtoCmd::Shutdown,
        ],
        ctx.take()
    );
    assert!(!session.has_socket(SocketId(1)));
    assert!(!session.has_socket(SocketId(3)));
    assert_eq!(None, session.socket_of(eid(12)));
}

#[test]
fn a_probe_needs_both_its_sockets() {
    let mut ctx = Context::new();
    let mut session = Session::new();
    create(&mut session, &mut ctx, SocketType::Push, 1);
    create(&mut session, &mut ctx, SocketType::Pull, 2);
    session.notify_with(
        &mut ctx,
        session_cmd(SessionCmdSignal::CreateProbe(SocketId(1), SocketId(3))),
        9,
    );
    let cmds = ctx.take();
    assert_eq!(1, cmds.len());
    match &cmds[0] {
        ProtoCmd::Notify(SessionNotify::ProbeNotCreated(e)) => {
            assert_eq!(ErrorKind::InvalidInput, e.kind())
        }
        other => panic!("unexpected {:?}", other),
    }
    session.notify_with(
        &mut ctx,
        session_cmd(SessionCmdSignal::CreateProbe(SocketId(1), SocketId(2))),
        9,
    );
    assert_eq!(
        vec![ProtoCmd::Notify(SessionNotify::ProbeCreated(ProbeId(9)))],
        ctx.take()
    );
    session.notify_with(
        &mut ctx,
        EventLoopSignal::Evt(EvtSignal::Socket(SocketId(2), SocketEvtSignal::Readable)),
        0,
    );
    session.notify_with(
        &mut ctx,
        EventLoopSignal::Cmd(CmdSignal::Probe(ProbeId(9), ProbeCmdSignal::PollReadable)),
        0,
    );
    session.notify_with(
        &mut ctx,
        session_cmd(SessionCmdSignal::DestroyProbe(ProbeId(9))),
        0,
    );
    session.notify_with(
        &mut ctx,
        EventLoopSignal::Evt(EvtSignal::Socket(SocketId(2), SocketEvtSignal::Readable)),
        0,
    );
    assert_eq!(0, ctx.len());
}

#[test]
fn a_probe_records_which_of_its_sockets_can_be_read() {
    let mut probe = Probe::new(SocketId(1), SocketId(2));
    assert_eq!(PollRes { recv: false, send: false }, probe.poll(SocketId(1)));
    probe.on_socket_readable(SocketId(2));
    probe.on_socket_readable(SocketId(3));
    assert_eq!(PollRes { recv: false, send: false }, probe.poll(SocketId(1)));
    assert_eq!(PollRes { recv: true, send: false }, probe.poll(SocketId(2)));
    assert_eq!(PollRes { recv: false, send: false }, probe.poll(SocketId(2)));
    let req = PollReq { sid: SocketId(1), recv: true, send: false };
    assert_eq!(SocketId(1), req.sid);
}

#[test]
fn the_target_of_a_signal_is_the_socket_that_it_reaches() {
    let mut ctx = Context::new();
    let mut session = Session::new();
    create(&mut session, &mut ctx, SocketType::Push, 1);
    session.handle_socket_evt(&mut ctx, SocketId(1), SocketEvtSignal::PipeAdded(eid(7)), 0);

    assert_eq!(Some(SocketId(1)), session.target(&cmd(1, SocketCmdSignal::RecvMsg)));
    assert_eq!(None, session.target(&cmd(2, SocketCmdSignal::RecvMsg)));
    assert_eq!(None, session.target(&session_cmd(SessionCmdSignal::Shutdown)));
    assert_eq!(
        Some(SocketId(1)),
        session.target(&EventLoopSignal::Evt(EvtSignal::Pipe(eid(7), PipeEvt::CanSend)))
    );
    assert_eq!(
        None,
        session.target(&EventLoopSignal::Evt(EvtSignal::Pipe(eid(8), PipeEvt::CanSend)))
    );
    assert_eq!(
        Some(SocketId(1)),
        session.target(&EventLoopSignal::Evt(EvtSignal::Socket(
            SocketId(1),
            SocketEvtSignal::Readable
        )))
    );
    assert_eq!(
        Some(SocketId(1)),
        session.timer_target(&EventLoopTimeout::CancelSend(SocketId(1)))
    );
    assert_eq!(None, session.timer_target(&EventLoopTimeout::Resend(SocketId(2))));
    assert_eq!(
        Some(SocketId(1)),
        session.timer_target(&EventLoopTimeout::Rebind(eid(7), "tcp://*:1".to_string()))
    );
    assert_eq!(
        None,
        session.timer_target(&EventLoopTimeout::Reconnect(eid(8), "tcp://a:1".to_string()))
    );
    assert_ne!(session.fresh_endpoint_id(), session.fresh_endpoint_id());
}
