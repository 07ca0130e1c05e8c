use scaproust::endpoint::EndpointDesc;
use scaproust::error::ErrorKind;
use scaproust::ids::{EndpointId, Scheduled};
use scaproust::message::Message;
use scaproust::proto::context::{Context, ProtoCmd, Reply};
use scaproust::proto::pipe::Pipe;
use scaproust::proto::protocol::Protocol;
use scaproust::proto::pull::{Pull, State};

fn eid(n: usize) -> EndpointId {
    EndpointId::from(n)
}

fn pipe(n: usize, priority: u8) -> Pipe {
    let desc = EndpointDesc {
        send_priority: priority,
        recv_priority: priority,
        tcp_no_delay: false,
        recv_max_size: 1024,
    };
    Pipe::new(eid(n), &desc)
}

fn pull_with_ready_pipes(ctx: &mut Context, ids: &[usize]) -> Pull {
    let mut pull = Pull::new();
    for n in ids {
        pull.add_pipe(ctx, eid(*n), pipe(*n, 8));
    }
    for n in ids {
        pull.on_recv_ready(ctx, eid(*n));
    }
    pull
}

#[test]
fn pull_has_the_ids_of_pull_and_push() {
    let pull = Pull::new();
    assert_eq!(81, pull.id());
    assert_eq!(80, pull.peer_id());
    assert_eq!(81, Protocol::id(&pull));
    assert_eq!(80, Protocol::peer_id(&pull));
    assert_eq!(State::Idle, pull.state());
    assert_eq!("Idle", pull.state().name());
    assert_eq!("Receiving", State::Receiving(eid(1), None).name());
    assert_eq!("RecvOnHold", State::RecvOnHold(None).name());
}

#[test]
fn pull_refuses_to_send() {
    let mut ctx = Context::new();
    let mut pull = Pull::new();
    pull.send(&mut ctx, Message::from_body(vec![1]), Some(Scheduled(7)));
    let cmds = ctx.take();
    assert_eq!(2, cmds.len());
    match &cmds[0] {
        ProtoCmd::ReplySend(Reply::Error(e)) => assert_eq!(ErrorKind::Other, e.kind()),
        other => panic!("unexpected {:?}", other),
    }
    assert_eq!(ProtoCmd::Cancel(Scheduled(7)), cmds[1]);
    assert_eq!(State::Idle, pull.state());
}

#[test]
fn pull_recv_without_a_ready_pipe_is_put_on_hold() {
    let mut ctx = Context::new();
    let mut pull = Pull::new();
    pull.add_pipe(&mut ctx, eid(1), pipe(1, 8));
    pull.recv(&mut ctx, Some(Scheduled(3)));
    assert_eq!(State::RecvOnHold(Some(Scheduled(3))), pull.state());
    assert_eq!(0, ctx.len());
}

#[test]
fn pull_recv_on_hold_starts_when_a_pipe_gets_ready() {
    let mut ctx = Context::new();
    let mut pull = Pull::new();
    pull.add_pipe(&mut ctx, eid(1), pipe(1, 8));
    pull.recv(&mut ctx, Some(Scheduled(3)));
    pull.on_recv_ready(&mut ctx, eid(1));
    assert_eq!(State::Receiving(eid(1), Some(Scheduled(3))), pull.state());
    assert_eq!(vec![ProtoCmd::Recv(eid(1))], ctx.take());
}

#[test]
fn pull_recv_is_answered_by_the_message_of_the_pipe_that_was_asked() {
    let mut ctx = Context::new();
    let mut pull = pull_with_ready_pipes(&mut ctx, &[1, 2]);
    pull.recv(&mut ctx, Some(Scheduled(3)));
    assert_eq!(vec![ProtoCmd::Recv(eid(1))], ctx.take());

    pull.on_recv_ack(&mut ctx, eid(2), Message::from_body(vec![2]));
    assert_eq!(0, ctx.len());
    assert_eq!(State::Receiving(eid(1), Some(Scheduled(3))), pull.state());

    pull.on_recv_ack(&mut ctx, eid(1), Message::from_body(vec![1]));
    assert_eq!(
        vec![
            ProtoCmd::ReplyRecv(Reply::Recv(Message::from_body(vec![1]))),
            ProtoCmd::Cancel(Scheduled(3)),
        ],
        ctx.take()
    );
    assert_eq!(State::Idle, pull.state());
}

#[test]
fn pull_recv_times_out_with_an_error_and_a_late_timer_is_ignored() {
    let mut ctx = Context::new();
    let mut pull = Pull::new();
    pull.recv(&mut ctx, Some(Scheduled(3)));
    pull.on_recv_timeout(&mut ctx);
    let cmds = ctx.take();
    assert_eq!(1, cmds.len());
    match &cmds[0] {
        ProtoCmd::ReplyRecv(Reply::Error(e)) => assert_eq!(ErrorKind::TimedOut, e.kind()),
        other => panic!("unexpected {:?}", other),
    }
    assert_eq!(State::Idle, pull.state());

    pull.on_recv_timeout(&mut ctx);
    assert_eq!(0, ctx.len());
}

#[test]
fn pull_ignores_a_second_recv_while_one_is_pending() {
    let mut ctx = Context::new();
    let mut pull = pull_with_ready_pipes(&mut ctx, &[1]);
    pull.recv(&mut ctx, Some(Scheduled(3)));
    ctx.take();
    pull.recv(&mut ctx, Some(Scheduled(4)));
    assert_eq!(0, ctx.len());
    assert_eq!(State::Receiving(eid(1), Some(Scheduled(3))), pull.state());
}

#[test]
fn pull_puts_the_recv_on_hold_when_the_pipe_in_flight_is_removed() {
    let mut ctx = Context::new();
    let mut pull = pull_with_ready_pipes(&mut ctx, &[1, 2]);
    pull.recv(&mut ctx, Some(Scheduled(3)));
    ctx.take();

    assert_eq!(None, pull.remove_pipe(&mut ctx, eid(9)));
    assert_eq!(State::Receiving(eid(1), Some(Scheduled(3))), pull.state());

    assert_eq!(Some(pipe(2, 8)), pull.remove_pipe(&mut ctx, eid(2)));
    assert_eq!(State::Receiving(eid(1), Some(Scheduled(3))), pull.state());

    assert_eq!(Some(pipe(1, 8)), pull.remove_pipe(&mut ctx, eid(1)));
    assert_eq!(State::RecvOnHold(Some(Scheduled(3))), pull.state());
    assert_eq!(0, ctx.len());
}

#[test]
fn pull_ignores_what_concerns_sending() {
    let mut ctx = Context::new();
    let mut pull = pull_with_ready_pipes(&mut ctx, &[1]);
    pull.on_send_ack(&mut ctx, eid(1));
    pull.on_send_ready(&mut ctx, eid(1));
    pull.on_send_timeout(&mut ctx);
    assert_eq!(0, ctx.len());
    assert_eq!(State::Idle, pull.state());
}

#[test]
fn pull_receives_from_three_peers_in_turn() {
    let mut ctx = Context::new();
    let mut pull = pull_with_ready_pipes(&mut ctx, &[1, 2, 3]);
    let mut served = Vec::new();
    for _ in 0..9 {
        pull.recv(&mut ctx, None);
        let cmds = ctx.take();
        assert_eq!(1, cmds.len());
        let from = match &cmds[0] {
            ProtoCmd::Recv(id) => *id,
            other => panic!("unexpected {:?}", other),
        };
        let n: usize = from.into();
        pull.on_recv_ack(&mut ctx, from, Message::from_body(vec![n as u8]));
        assert_eq!(
            vec![ProtoCmd::ReplyRecv(Reply::Recv(Message::from_body(vec![n as u8])))],
            ctx.take()
        );
        served.push(n);
    }
    assert_eq!(vec![1, 2, 3, 1, 2, 3, 1, 2, 3], served);
    for window in served.windows(3) {
        assert!(window[0] != window[1] && window[1] != window[2] && window[0] != window[2]);
    }
}

#[test]
fn pull_prefers_the_pipe_of_the_best_priority() {
    let mut ctx = Context::new();
    let mut pull = Pull::new();
    pull.add_pipe(&mut ctx, eid(1), pipe(1, 9));
    pull.add_pipe(&mut ctx, eid(2), pipe(2, 2));
    pull.on_recv_ready(&mut ctx, eid(1));
    pull.on_recv_ready(&mut ctx, eid(2));
    pull.recv(&mut ctx, None);
    assert_eq!(vec![ProtoCmd::Recv(eid(2))], ctx.take());
}
