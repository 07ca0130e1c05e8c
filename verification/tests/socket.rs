use std::rc::Rc;

use scaproust::endpoint::{EndpointDesc, EndpointSpec, EndpointTmpl};
use scaproust::error::ErrorKind;
use scaproust::id_sequence::IdSequence;
use scaproust::ids::{EndpointId, Scheduled, SocketId};
use scaproust::message::Message;
use scaproust::options::SocketOption;
use scaproust::proto::context::{Context, ProtoCmd, Reply};
use scaproust::proto::protocol::{create_protocol, is_supported, Protocol};
use scaproust::signal::{EventLoopTimeout, SocketCmdSignal, SocketEvtSignal};
use scaproust::socket::Socket;
use scaproust::socket_type::SocketType;
use scaproust::transport::context::PipeEvt;

fn eid(n: usize) -> EndpointId {
    EndpointId::from(n)
}

fn msg(n: u8) -> Message {
    Message::from_body(vec![n])
}

fn socket(socket_type: SocketType) -> Socket {
    let id = SocketId(1);
    Socket::new(id, create_protocol(id, socket_type).unwrap(), IdSequence::new())
}

fn default_desc() -> EndpointDesc {
    EndpointDesc {
        send_priority: 8,
        recv_priority: 8,
        tcp_no_delay: false,
        recv_max_size: 1_048_576,
    }
}

fn tmpl(pids: (u16, u16), url: &str, desc: EndpointDesc) -> EndpointTmpl {
    EndpointTmpl {
        pids,
        spec: EndpointSpec {
            url: url.to_string(),
            desc,
        },
    }
}

fn error_kind(cmd: &ProtoCmd) -> ErrorKind {
    match cmd {
        ProtoCmd::ReplySend(Reply::Error(e)) => e.kind(),
        ProtoCmd::ReplyRecv(Reply::Error(e)) => e.kind(),
        ProtoCmd::NotConnected(e) => e.kind(),
        ProtoCmd::NotBound(e) => e.kind(),
        ProtoCmd::OptionNotSet(e) => e.kind(),
        other => panic!("unexpected {:?}", other),
    }
}

#[test]
fn protocols_exist_for_pair_pub_sub_push_and_pull() {
    for t in [
        SocketType::Pair,
        SocketType::Pub,
        SocketType::Sub,
        SocketType::Push,
        SocketType::Pull,
    ] {
        assert!(is_supported(t));
        let protocol = create_protocol(SocketId(1), t).unwrap();
        assert_eq!(t.id(), protocol.id());
        assert_eq!(t.peer().id(), protocol.peer_id());
        assert!(!protocol.is_send_pending());
        assert!(!protocol.is_recv_pending());
    }
    for t in [
        SocketType::Req,
        SocketType::Rep,
        SocketType::Surveyor,
        SocketType::Respondent,
        SocketType::Bus,
    ] {
        assert!(!is_supported(t));
        assert!(create_protocol(SocketId(1), t).is_none());
    }
}

#[test]
fn connect_records_the_endpoint_and_asks_for_the_connection() {
    let mut ctx = Context::new();
    let mut socket = socket(SocketType::Push);
    socket.handle_cmd_with(
        &mut ctx,
        SocketCmdSignal::Connect("tcp://127.0.0.1:5454".to_string()),
        7,
    );
    assert_eq!(
        vec![
            ProtoCmd::Connect(eid(7), tmpl((80, 81), "tcp://127.0.0.1:5454", default_desc())),
            ProtoCmd::Connected(eid(7)),
        ],
        ctx.take()
    );
    assert!(socket.has_endpoint(eid(7)));
    assert_eq!(1, socket.endpoint_count());
}

#[test]
fn connect_draws_a_fresh_endpoint_id_each_time() {
    let mut ctx = Context::new();
    let mut socket = socket(SocketType::Push);
    assert!(socket.id() == SocketId(1));
    socket.connect(&mut ctx, "tcp://127.0.0.1:5454".to_string());
    socket.connect(&mut ctx, "tcp://127.0.0.1:5455".to_string());
    socket.connect(&mut ctx, "tcp://some random crap".to_string());
    let cmds = ctx.take();
    assert_eq!(5, cmds.len());
    let first = match &cmds[1] {
        ProtoCmd::Connected(id) => *id,
        other => panic!("unexpected {:?}", other),
    };
    let second = match &cmds[3] {
        ProtoCmd::Connected(id) => *id,
        other => panic!("unexpected {:?}", other),
    };
    assert_ne!(first, second);
    assert_eq!(ErrorKind::InvalidInput, error_kind(&cmds[4]));
    assert_eq!(2, socket.endpoint_count());
}

#[test]
fn bind_records_the_endpoint_and_asks_for_the_listener() {
    let mut ctx = Context::new();
    let mut socket = socket(SocketType::Pull);
    socket.handle_cmd_with(
        &mut ctx,
        SocketCmdSignal::Bind("tcp://*:5454".to_string()),
        3,
    );
    assert_eq!(
        vec![
            ProtoCmd::Bind(eid(3), tmpl((81, 80), "tcp://*:5454", default_desc())),
            ProtoCmd::Bound(eid(3)),
        ],
        ctx.take()
    );
    socket.bind(&mut ctx, "ipc:///tmp/x".to_string());
    let cmds = ctx.take();
    assert_eq!(1, cmds.len());
    assert!(matches!(cmds[0], ProtoCmd::NotBound(_)));
    assert_eq!(ErrorKind::InvalidInput, error_kind(&cmds[0]));
}

#[test]
fn shutdown_forgets_the_endpoint_and_asks_for_it_to_be_closed() {
    let mut ctx = Context::new();
    let mut socket = socket(SocketType::Push);
    socket.open_endpoint(
        &mut ctx,
        scaproust::endpoint::EndpointKind::Connector,
        "tcp://a:1".to_string(),
        eid(4),
    );
    ctx.take();
    socket.shutdown(&mut ctx, eid(5));
    assert_eq!(0, ctx.len());
    socket.handle_cmd_with(&mut ctx, SocketCmdSignal::Shutdown(eid(4)), 9);
    assert_eq!(vec![ProtoCmd::CloseEndpoint(eid(4))], ctx.take());
    assert!(!socket.has_endpoint(eid(4)));
    socket.shutdown(&mut ctx, eid(4));
    assert_eq!(0, ctx.len());
}

#[test]
fn a_second_send_while_one_is_pending_would_block() {
    let mut ctx = Context::new();
    let mut socket = socket(SocketType::Push);
    socket.send(&mut ctx, msg(1));
    assert_eq!(0, ctx.len());
    assert!(socket.is_send_pending());
    socket.send(&mut ctx, msg(2));
    let cmds = ctx.take();
    assert_eq!(1, cmds.len());
    assert!(matches!(cmds[0], ProtoCmd::ReplySend(_)));
    assert_eq!(ErrorKind::WouldBlock, error_kind(&cmds[0]));
    assert!(socket.is_send_pending());
}

#[test]
fn a_second_recv_while_one_is_pending_would_block() {
    let mut ctx = Context::new();
    let mut socket = socket(SocketType::Pull);
    socket.recv(&mut ctx);
    assert_eq!(0, ctx.len());
    assert!(socket.is_recv_pending());
    socket.handle_cmd(&mut ctx, SocketCmdSignal::RecvMsg);
    let cmds = ctx.take();
    assert_eq!(1, cmds.len());
    assert!(matches!(cmds[0], ProtoCmd::ReplyRecv(_)));
    assert_eq!(ErrorKind::WouldBlock, error_kind(&cmds[0]));
}

#[test]
fn send_timeout() {
    let mut ctx = Context::new();
    let mut socket = socket(SocketType::Push);
    socket.set_option(&mut ctx, SocketOption::SendTimeout(Some(50)));
    assert_eq!(vec![ProtoCmd::OptionSet], ctx.take());

    // no peer: the send is put on hold, and its timer is started
    socket.send_with(&mut ctx, msg(1), Scheduled(11));
    assert_eq!(
        vec![ProtoCmd::Schedule(
            Scheduled(11),
            EventLoopTimeout::CancelSend(SocketId(1)),
            50
        )],
        ctx.take()
    );
    assert!(socket.is_send_pending());

    // the timer fires
    socket.on_send_timeout(&mut ctx);
    let cmds = ctx.take();
    assert_eq!(1, cmds.len());
    assert_eq!(ErrorKind::TimedOut, error_kind(&cmds[0]));
    assert!(!socket.is_send_pending());

    // a peer connects, and the next send succeeds
    socket.handle_evt(&mut ctx, SocketEvtSignal::PipeAdded(eid(2)));
    socket.on_pipe_evt(&mut ctx, eid(2), PipeEvt::Opened);
    assert_eq!(0, ctx.len());
    socket.send_with(&mut ctx, msg(2), Scheduled(12));
    assert_eq!(
        vec![
            ProtoCmd::Schedule(
                Scheduled(12),
                EventLoopTimeout::CancelSend(SocketId(1)),
                50
            ),
            ProtoCmd::Send(eid(2), Rc::new(msg(2))),
        ],
        ctx.take()
    );
    socket.on_pipe_evt(&mut ctx, eid(2), PipeEvt::SentMsg);
    assert_eq!(
        vec![
            ProtoCmd::ReplySend(Reply::Sent),
            ProtoCmd::Cancel(Scheduled(12)),
        ],
        ctx.take()
    );
    assert!(!socket.is_send_pending());
}

#[test]
fn recv_with_a_time_limit_starts_its_timer() {
    let mut ctx = Context::new();
    let mut socket = socket(SocketType::Pull);
    socket.set_option(&mut ctx, SocketOption::RecvTimeout(Some(20)));
    socket.handle_evt(&mut ctx, SocketEvtSignal::PipeAdded(eid(2)));
    socket.on_pipe_evt(&mut ctx, eid(2), PipeEvt::CanRecv);
    ctx.take();
    socket.recv_with(&mut ctx, Scheduled(5));
    assert_eq!(
        vec![
            ProtoCmd::Schedule(Scheduled(5), EventLoopTimeout::CancelRecv(SocketId(1)), 20),
            ProtoCmd::Recv(eid(2)),
        ],
        ctx.take()
    );
    socket.on_pipe_evt(&mut ctx, eid(2), PipeEvt::RecvMsg(msg(3)));
    assert_eq!(
        vec![
            ProtoCmd::ReplyRecv(Reply::Recv(msg(3))),
            ProtoCmd::Cancel(Scheduled(5)),
        ],
        ctx.take()
    );
    socket.recv_with(&mut ctx, Scheduled(6));
    ctx.take();
    socket.on_recv_timeout(&mut ctx);
    let cmds = ctx.take();
    assert_eq!(1, cmds.len());
    assert_eq!(ErrorKind::TimedOut, error_kind(&cmds[0]));
}

#[test]
fn an_operation_that_the_protocol_does_not_have_is_answered_at_once() {
    let mut ctx = Context::new();
    let mut pull = socket(SocketType::Pull);
    pull.send(&mut ctx, msg(1));
    pull.send(&mut ctx, msg(2));
    let cmds = ctx.take();
    assert_eq!(2, cmds.len());
    assert_eq!(ErrorKind::Other, error_kind(&cmds[0]));
    assert_eq!(ErrorKind::Other, error_kind(&cmds[1]));
    assert!(!pull.is_send_pending());

    let mut push = socket(SocketType::Push);
    push.recv(&mut ctx);
    let cmds = ctx.take();
    assert_eq!(1, cmds.len());
    assert_eq!(ErrorKind::Other, error_kind(&cmds[0]));
    assert!(!push.is_recv_pending());
}

#[test]
fn options_of_the_socket_are_set_and_priorities_are_checked() {
    let mut ctx = Context::new();
    let mut socket = socket(SocketType::Push);
    socket.set_option(&mut ctx, SocketOption::SendPriority(3));
    socket.set_option(&mut ctx, SocketOption::RecvPriority(16));
    socket.set_option(&mut ctx, SocketOption::TcpNoDelay(true));
    socket.set_option(&mut ctx, SocketOption::RecvMaxSize(4096));
    assert_eq!(
        vec![
            ProtoCmd::OptionSet,
            ProtoCmd::OptionSet,
            ProtoCmd::OptionSet,
            ProtoCmd::OptionSet
        ],
        ctx.take()
    );
    socket.set_option(&mut ctx, SocketOption::SendPriority(0));
    socket.set_option(&mut ctx, SocketOption::RecvPriority(17));
    socket.set_option(&mut ctx, SocketOption::Subscribe(vec![1]));
    let cmds = ctx.take();
    assert_eq!(3, cmds.len());
    for cmd in cmds.iter() {
        assert_eq!(ErrorKind::InvalidInput, error_kind(cmd));
    }
    socket.handle_cmd_with(
        &mut ctx,
        SocketCmdSignal::Connect("tcp://a:1".to_string()),
        7,
    );
    let desc = EndpointDesc {
        send_priority: 3,
        recv_priority: 16,
        tcp_no_delay: true,
        recv_max_size: 4096,
    };
    assert_eq!(
        ProtoCmd::Connect(eid(7), tmpl((80, 81), "tcp://a:1", desc)),
        ctx.take()[0]
    );
}

#[test]
fn sub_socket_takes_subscriptions() {
    let mut ctx = Context::new();
    let mut socket = socket(SocketType::Sub);
    socket.handle_cmd(
        &mut ctx,
        SocketCmdSignal::SetOption(SocketOption::Subscribe(b"news/".to_vec())),
    );
    assert_eq!(vec![ProtoCmd::OptionSet], ctx.take());
    socket.handle_evt(&mut ctx, SocketEvtSignal::PipeAdded(eid(2)));
    socket.recv(&mut ctx);
    socket.ready(&mut ctx, eid(2), mio::EventSet::readable());
    assert_eq!(vec![ProtoCmd::Recv(eid(2))], ctx.take());
    socket.on_pipe_evt(&mut ctx, eid(2), PipeEvt::RecvMsg(Message::from_body(b"weather".to_vec())));
    assert_eq!(0, ctx.len());
    socket.ready(&mut ctx, eid(2), mio::EventSet::readable());
    ctx.take();
    socket.on_pipe_evt(&mut ctx, eid(2), PipeEvt::RecvMsg(Message::from_body(b"news/a".to_vec())));
    assert_eq!(
        vec![ProtoCmd::ReplyRecv(Reply::Recv(Message::from_body(
            b"news/a".to_vec()
        )))],
        ctx.take()
    );
}

#[test]
fn readiness_of_a_pipe_reaches_the_protocol() {
    let mut ctx = Context::new();
    let mut push = socket(SocketType::Push);
    push.handle_evt(&mut ctx, SocketEvtSignal::PipeAdded(eid(2)));
    push.send(&mut ctx, msg(1));
    push.ready(&mut ctx, eid(2), mio::EventSet::readable());
    assert_eq!(0, ctx.len());
    push.ready(&mut ctx, eid(2), mio::EventSet::writable());
    assert_eq!(vec![ProtoCmd::Send(eid(2), Rc::new(msg(1)))], ctx.take());

    let mut pull = socket(SocketType::Pull);
    pull.handle_evt(&mut ctx, SocketEvtSignal::PipeAdded(eid(2)));
    pull.handle_evt(&mut ctx, SocketEvtSignal::AcceptorAdded(eid(3)));
    pull.handle_evt(&mut ctx, SocketEvtSignal::Readable);
    pull.recv(&mut ctx);
    pull.ready(&mut ctx, eid(2), mio::EventSet::writable());
    assert_eq!(0, ctx.len());
    pull.ready(&mut ctx, eid(2), mio::EventSet::readable() | mio::EventSet::writable());
    assert_eq!(vec![ProtoCmd::Recv(eid(2))], ctx.take());
}

#[test]
fn a_lost_connection_is_opened_again_after_a_growing_delay() {
    let mut ctx = Context::new();
    let mut socket = socket(SocketType::Push);
    socket.handle_cmd_with(
        &mut ctx,
        SocketCmdSignal::Connect("tcp://a:1".to_string()),
        7,
    );
    ctx.take();
    socket.on_pipe_evt_with(&mut ctx, eid(7), PipeEvt::Closed, Scheduled(20));
    socket.on_pipe_evt_with(&mut ctx, eid(7), PipeEvt::Closed, Scheduled(21));
    assert_eq!(
        vec![
            ProtoCmd::Schedule(
                Scheduled(20),
                EventLoopTimeout::Reconnect(eid(7), "tcp://a:1".to_string()),
                100
            ),
            ProtoCmd::Schedule(
                Scheduled(21),
                EventLoopTimeout::Reconnect(eid(7), "tcp://a:1".to_string()),
                200
            ),
        ],
        ctx.take()
    );
    socket.reconnect(&mut ctx, eid(7));
    assert_eq!(
        vec![ProtoCmd::Connect(
            eid(7),
            tmpl((80, 81), "tcp://a:1", default_desc())
        )],
        ctx.take()
    );
    socket.rebind(&mut ctx, eid(7));
    socket.reconnect(&mut ctx, eid(8));
    assert_eq!(0, ctx.len());

    // a success starts the delay over
    socket.handle_evt(&mut ctx, SocketEvtSignal::PipeAdded(eid(7)));
    socket.on_pipe_evt(&mut ctx, eid(7), PipeEvt::Opened);
    socket.on_pipe_evt_with(&mut ctx, eid(7), PipeEvt::Closed, Scheduled(22));
    assert_eq!(
        vec![ProtoCmd::Schedule(
            Scheduled(22),
            EventLoopTimeout::Reconnect(eid(7), "tcp://a:1".to_string()),
            100
        )],
        ctx.take()
    );
    // the pipe of an endpoint that the socket does not have is only removed
    socket.on_pipe_evt(&mut ctx, eid(9), PipeEvt::Closed);
    assert_eq!(0, ctx.len());
}

#[test]
fn a_listener_that_fails_is_opened_again() {
    let mut ctx = Context::new();
    let mut socket = socket(SocketType::Pull);
    socket.handle_cmd_with(&mut ctx, SocketCmdSignal::Bind("tcp://*:1".to_string()), 7);
    ctx.take();
    socket.on_pipe_evt_with(&mut ctx, eid(7), PipeEvt::Closed, Scheduled(20));
    assert_eq!(
        vec![ProtoCmd::Schedule(
            Scheduled(20),
            EventLoopTimeout::Rebind(eid(7), "tcp://*:1".to_string()),
            100
        )],
        ctx.take()
    );
    socket.rebind(&mut ctx, eid(7));
    assert_eq!(
        vec![ProtoCmd::Bind(
            eid(7),
            tmpl((81, 80), "tcp://*:1", default_desc())
        )],
        ctx.take()
    );
}

#[test]
fn destroy_closes_every_endpoint() {
    let mut ctx = Context::new();
    let mut socket = socket(SocketType::Push);
    socket.handle_cmd_with(&mut ctx, SocketCmdSignal::Connect("tcp://a:1".to_string()), 7);
    socket.handle_cmd_with(&mut ctx, SocketCmdSignal::Bind("tcp://*:2".to_string()), 8);
    ctx.take();
    socket.destroy(&mut ctx);
    assert_eq!(
        vec![
            ProtoCmd::CloseEndpoint(eid(7)),
            ProtoCmd::CloseEndpoint(eid(8))
        ],
        ctx.take()
    );
    assert_eq!(0, socket.endpoint_count());
}

#[test]
fn every_send_is_answered_exactly_once() {
    let mut ctx = Context::new();
    let mut socket = socket(SocketType::Push);
    socket.handle_evt(&mut ctx, SocketEvtSignal::PipeAdded(eid(2)));
    socket.on_pipe_evt(&mut ctx, eid(2), PipeEvt::Opened);
    let mut asked = 0;
    let mut answered = 0;
    let mut count = |ctx: &mut Context, answered: &mut usize| {
        for cmd in ctx.take() {
            if let ProtoCmd::ReplySend(_) = cmd {
                *answered += 1;
            }
        }
    };
    for round in 0..20u8 {
        socket.send(&mut ctx, msg(round));
        asked += 1;
        count(&mut ctx, &mut answered);
        assert!(asked - answered <= 1);
        assert_eq!(asked - answered == 1, socket.is_send_pending());
        match round % 4 {
            0 => socket.on_pipe_evt(&mut ctx, eid(2), PipeEvt::SentMsg),
            1 => socket.on_send_timeout(&mut ctx),
            2 => {
                socket.on_pipe_evt(&mut ctx, eid(3), PipeEvt::SentMsg);
                socket.on_pipe_evt(&mut ctx, eid(2), PipeEvt::CanSend);
            }
            _ => {
                socket.on_pipe_evt(&mut ctx, eid(2), PipeEvt::SentMsg);
                socket.on_pipe_evt(&mut ctx, eid(2), PipeEvt::SentMsg);
                socket.on_send_timeout(&mut ctx);
            }
        }
        count(&mut ctx, &mut answered);
        assert!(asked - answered <= 1);
        assert_eq!(asked - answered == 1, socket.is_send_pending());
    }
    socket.on_survey_timeout(&mut ctx);
    socket.resend(&mut ctx);
    assert_eq!(0, ctx.len());
}

#[test]
fn a_pair_socket_closes_a_second_pipe() {
    let mut ctx = Context::new();
    let mut socket = socket(SocketType::Pair);
    socket.handle_evt(&mut ctx, SocketEvtSignal::PipeAdded(eid(2)));
    assert_eq!(0, ctx.len());
    socket.handle_evt(&mut ctx, SocketEvtSignal::PipeAdded(eid(3)));
    assert_eq!(vec![ProtoCmd::Close(eid(3))], ctx.take());
    socket.on_pipe_evt(&mut ctx, eid(2), PipeEvt::Opened);
    socket.send(&mut ctx, msg(1));
    assert_eq!(vec![ProtoCmd::Send(eid(2), Rc::new(msg(1)))], ctx.take());
    socket.recv(&mut ctx);
    socket.on_pipe_evt(&mut ctx, eid(2), PipeEvt::CanRecv);
    assert_eq!(vec![ProtoCmd::Recv(eid(2))], ctx.take());
    assert!(socket.is_send_pending());
    assert!(socket.is_recv_pending());
}

#[test]
fn a_pub_socket_answers_a_send_at_once() {
    let mut ctx = Context::new();
    let mut socket = socket(SocketType::Pub);
    socket.send(&mut ctx, msg(1));
    assert_eq!(vec![ProtoCmd::ReplySend(Reply::Sent)], ctx.take());
    assert!(!socket.is_send_pending());
    socket.handle_evt(&mut ctx, SocketEvtSignal::PipeAdded(eid(2)));
    socket.handle_evt(&mut ctx, SocketEvtSignal::PipeAdded(eid(3)));
    socket.on_pipe_evt(&mut ctx, eid(2), PipeEvt::Opened);
    socket.on_pipe_evt(&mut ctx, eid(3), PipeEvt::Opened);
    socket.send(&mut ctx, msg(2));
    assert_eq!(
        vec![
            ProtoCmd::Send(eid(2), Rc::new(msg(2))),
            ProtoCmd::Send(eid(3), Rc::new(msg(2))),
            ProtoCmd::ReplySend(Reply::Sent),
        ],
        ctx.take()
    );
}
