use std::rc::Rc;

use scaproust::endpoint::EndpointDesc;
use scaproust::error::ErrorKind;
use scaproust::ids::{EndpointId, Scheduled};
use scaproust::message::Message;
use scaproust::proto::context::{Context, ProtoCmd, Reply};
use scaproust::proto::pipe::Pipe;
use scaproust::proto::protocol::Protocol;
use scaproust::proto::push::Push;

fn eid(n: usize) -> EndpointId {
    EndpointId::from(n)
}

fn pipe(n: usize, priority: u8) -> Pipe {
    let desc = EndpointDesc {
        send_priority: priority,
        recv_priority: priority,
        tcp_no_delay: false,
        recv_max_size: 1024,
    };
    Pipe::new(eid(n), &desc)
}

fn msg(n: u8) -> Message {
    Message::from_body(vec![n])
}

#[test]
fn push_has_the_ids_of_push_and_pull() {
    let push = Push::new();
    assert_eq!(80, push.id());
    assert_eq!(81, push.peer_id());
    assert_eq!(80, Protocol::id(&push));
    assert_eq!(81, Protocol::peer_id(&push));
    assert!(!push.is_sending());
}

#[test]
fn push_refuses_to_recv() {
    let mut ctx = Context::new();
    let mut push = Push::new();
    push.recv(&mut ctx, Some(Scheduled(7)));
    let cmds = ctx.take();
    assert_eq!(2, cmds.len());
    match &cmds[0] {
        ProtoCmd::ReplyRecv(Reply::Error(e)) => assert_eq!(ErrorKind::Other, e.kind()),
        other => panic!("unexpected {:?}", other),
    }
    assert_eq!(ProtoCmd::Cancel(Scheduled(7)), cmds[1]);
}

#[test]
fn push_load_balances_over_three_peers() {
    let mut ctx = Context::new();
    let mut push = Push::new();
    for n in 1..4 {
        push.add_pipe(&mut ctx, eid(n), pipe(n, 8));
    }
    for n in 1..4 {
        push.on_send_ready(&mut ctx, eid(n));
    }
    let mut received: Vec<Vec<u8>> = vec![Vec::new(), Vec::new(), Vec::new()];
    for m in 1..7u8 {
        push.send(&mut ctx, msg(m), None);
        let cmds = ctx.take();
        assert_eq!(1, cmds.len());
        let to = match &cmds[0] {
            ProtoCmd::Send(id, sent) => {
                assert_eq!(&msg(m), sent.as_ref());
                *id
            }
            other => panic!("unexpected {:?}", other),
        };
        assert!(push.is_sending());
        let n: usize = to.into();
        received[n - 1].push(m);
        push.on_send_ack(&mut ctx, to);
        assert_eq!(vec![ProtoCmd::ReplySend(Reply::Sent)], ctx.take());
        assert!(!push.is_sending());
    }
    assert_eq!(vec![vec![1, 4], vec![2, 5], vec![3, 6]], received);
}

#[test]
fn push_send_without_a_ready_pipe_is_put_on_hold_until_one_is_ready() {
    let mut ctx = Context::new();
    let mut push = Push::new();
    push.add_pipe(&mut ctx, eid(1), pipe(1, 8));
    push.send(&mut ctx, msg(1), Some(Scheduled(5)));
    assert_eq!(0, ctx.len());
    assert!(push.is_sending());

    push.on_send_ready(&mut ctx, eid(1));
    assert_eq!(vec![ProtoCmd::Send(eid(1), Rc::new(msg(1)))], ctx.take());

    push.on_send_ack(&mut ctx, eid(1));
    assert_eq!(
        vec![ProtoCmd::ReplySend(Reply::Sent), ProtoCmd::Cancel(Scheduled(5))],
        ctx.take()
    );
    assert!(!push.is_sending());
}

#[test]
fn push_send_times_out_and_the_next_send_goes_through() {
    let mut ctx = Context::new();
    let mut push = Push::new();
    push.send(&mut ctx, msg(1), Some(Scheduled(5)));
    assert_eq!(0, ctx.len());
    push.on_send_timeout(&mut ctx);
    let cmds = ctx.take();
    assert_eq!(1, cmds.len());
    match &cmds[0] {
        ProtoCmd::ReplySend(Reply::Error(e)) => assert_eq!(ErrorKind::TimedOut, e.kind()),
        other => panic!("unexpected {:?}", other),
    }
    assert!(!push.is_sending());
    push.on_send_timeout(&mut ctx);
    assert_eq!(0, ctx.len());

    push.add_pipe(&mut ctx, eid(1), pipe(1, 8));
    push.on_send_ready(&mut ctx, eid(1));
    push.send(&mut ctx, msg(2), Some(Scheduled(6)));
    assert_eq!(vec![ProtoCmd::Send(eid(1), Rc::new(msg(2)))], ctx.take());
    push.on_send_ack(&mut ctx, eid(1));
    assert_eq!(
        vec![ProtoCmd::ReplySend(Reply::Sent), ProtoCmd::Cancel(Scheduled(6))],
        ctx.take()
    );
}

#[test]
fn push_ignores_a_second_send_and_a_stale_ack() {
    let mut ctx = Context::new();
    let mut push = Push::new();
    push.add_pipe(&mut ctx, eid(1), pipe(1, 8));
    push.add_pipe(&mut ctx, eid(2), pipe(2, 8));
    push.on_send_ready(&mut ctx, eid(1));
    push.on_send_ready(&mut ctx, eid(2));
    push.send(&mut ctx, msg(1), None);
    ctx.take();
    push.send(&mut ctx, msg(2), None);
    assert_eq!(0, ctx.len());
    push.on_send_ack(&mut ctx, eid(2));
    assert_eq!(0, ctx.len());
    assert!(push.is_sending());
    push.on_send_ack(&mut ctx, eid(1));
    assert_eq!(vec![ProtoCmd::ReplySend(Reply::Sent)], ctx.take());
}

#[test]
fn push_sends_again_through_another_pipe_when_the_pipe_in_flight_is_removed() {
    let mut ctx = Context::new();
    let mut push = Push::new();
    push.add_pipe(&mut ctx, eid(1), pipe(1, 8));
    push.add_pipe(&mut ctx, eid(2), pipe(2, 8));
    push.on_send_ready(&mut ctx, eid(1));
    push.send(&mut ctx, msg(1), Some(Scheduled(5)));
    assert_eq!(vec![ProtoCmd::Send(eid(1), Rc::new(msg(1)))], ctx.take());

    assert_eq!(Some(pipe(1, 8)), push.remove_pipe(&mut ctx, eid(1)));
    assert!(push.is_sending());
    assert_eq!(0, ctx.len());

    push.on_send_ready(&mut ctx, eid(2));
    assert_eq!(vec![ProtoCmd::Send(eid(2), Rc::new(msg(1)))], ctx.take());
    push.on_send_ack(&mut ctx, eid(2));
    assert_eq!(
        vec![ProtoCmd::ReplySend(Reply::Sent), ProtoCmd::Cancel(Scheduled(5))],
        ctx.take()
    );
}

#[test]
fn push_ignores_what_concerns_receiving() {
    let mut ctx = Context::new();
    let mut push = Push::new();
    push.add_pipe(&mut ctx, eid(1), pipe(1, 8));
    push.on_recv_ack(&mut ctx, eid(1), msg(1));
    push.on_recv_ready(&mut ctx, eid(1));
    push.on_recv_timeout(&mut ctx);
    assert_eq!(0, ctx.len());
    assert!(!push.is_sending());
}
