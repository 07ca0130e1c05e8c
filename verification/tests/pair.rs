use std::rc::Rc;

use scaproust::endpoint::EndpointDesc;
use scaproust::error::ErrorKind;
use scaproust::ids::{EndpointId, Scheduled};
use scaproust::message::Message;
use scaproust::proto::context::{Context, ProtoCmd, Reply};
use scaproust::proto::pair::Pair;
use scaproust::proto::pipe::Pipe;
use scaproust::proto::protocol::Protocol;

fn eid(n: usize) -> EndpointId {
    EndpointId::from(n)
}

fn pipe(n: usize) -> Pipe {
    let desc = EndpointDesc {
        send_priority: 8,
        recv_priority: 8,
        tcp_no_delay: false,
        recv_max_size: 1024,
    };
    Pipe::new(eid(n), &desc)
}

fn msg(n: u8) -> Message {
    Message::from_body(vec![n])
}

fn error_kind(cmd: &ProtoCmd) -> ErrorKind {
    match cmd {
        ProtoCmd::ReplySend(Reply::Error(e)) => e.kind(),
        ProtoCmd::ReplyRecv(Reply::Error(e)) => e.kind(),
        other => panic!("unexpected {:?}", other),
    }
}

#[test]
fn pair_has_the_id_of_pair_at_both_ends() {
    let pair = Pair::new();
    assert_eq!(16, pair.id());
    assert_eq!(16, pair.peer_id());
    assert_eq!(16, Protocol::id(&pair));
    assert_eq!(16, Protocol::peer_id(&pair));
    assert!(!pair.is_sending());
    assert!(!pair.is_receiving());
}

#[test]
fn pair_takes_one_pipe_and_closes_any_other() {
    let mut ctx = Context::new();
    let mut pair = Pair::new();
    assert_eq!(Ok(()), pair.add_pipe(&mut ctx, eid(1), pipe(1)));
    assert_eq!(0, ctx.len());
    let res = pair.add_pipe(&mut ctx, eid(2), pipe(2));
    assert_eq!(ErrorKind::InvalidInput, res.unwrap_err().kind());
    assert_eq!(vec![ProtoCmd::Close(eid(2))], ctx.take());
    assert_eq!(None, pair.remove_pipe(&mut ctx, eid(2)));
    assert_eq!(Some(pipe(1)), pair.remove_pipe(&mut ctx, eid(1)));
    assert_eq!(Ok(()), pair.add_pipe(&mut ctx, eid(2), pipe(2)));
}

#[test]
fn pair_sends_through_its_pipe() {
    let mut ctx = Context::new();
    let mut pair = Pair::new();
    pair.add_pipe(&mut ctx, eid(1), pipe(1)).unwrap();
    pair.send(&mut ctx, msg(1), Some(Scheduled(4)));
    assert_eq!(0, ctx.len());
    assert!(pair.is_sending());
    pair.on_send_ready(&mut ctx, eid(2));
    assert_eq!(0, ctx.len());
    pair.on_send_ready(&mut ctx, eid(1));
    assert_eq!(vec![ProtoCmd::Send(eid(1), Rc::new(msg(1)))], ctx.take());
    pair.send(&mut ctx, msg(2), None);
    pair.on_send_ack(&mut ctx, eid(2));
    assert_eq!(0, ctx.len());
    pair.on_send_ack(&mut ctx, eid(1));
    assert_eq!(
        vec![ProtoCmd::ReplySend(Reply::Sent), ProtoCmd::Cancel(Scheduled(4))],
        ctx.take()
    );
    assert!(!pair.is_sending());
    // the pipe can send again at once
    pair.send(&mut ctx, msg(3), None);
    assert_eq!(vec![ProtoCmd::Send(eid(1), Rc::new(msg(3)))], ctx.take());
}

#[test]
fn pair_receives_through_its_pipe() {
    let mut ctx = Context::new();
    let mut pair = Pair::new();
    pair.add_pipe(&mut ctx, eid(1), pipe(1)).unwrap();
    pair.on_recv_ready(&mut ctx, eid(1));
    pair.recv(&mut ctx, Some(Scheduled(4)));
    assert_eq!(vec![ProtoCmd::Recv(eid(1))], ctx.take());
    assert!(pair.is_receiving());
    pair.recv(&mut ctx, None);
    pair.on_recv_ack(&mut ctx, eid(2), msg(9));
    assert_eq!(0, ctx.len());
    pair.on_recv_ack(&mut ctx, eid(1), msg(7));
    assert_eq!(
        vec![
            ProtoCmd::ReplyRecv(Reply::Recv(msg(7))),
            ProtoCmd::Cancel(Scheduled(4)),
        ],
        ctx.take()
    );
    // the next receive waits until the pipe is readable again
    pair.recv(&mut ctx, None);
    assert_eq!(0, ctx.len());
    pair.on_recv_ready(&mut ctx, eid(1));
    assert_eq!(vec![ProtoCmd::Recv(eid(1))], ctx.take());
}

#[test]
fn pair_sends_and_receives_at_the_same_time() {
    let mut ctx = Context::new();
    let mut pair = Pair::new();
    pair.add_pipe(&mut ctx, eid(1), pipe(1)).unwrap();
    pair.on_send_ready(&mut ctx, eid(1));
    pair.on_recv_ready(&mut ctx, eid(1));
    pair.send(&mut ctx, msg(1), None);
    pair.recv(&mut ctx, None);
    assert_eq!(
        vec![ProtoCmd::Send(eid(1), Rc::new(msg(1))), ProtoCmd::Recv(eid(1))],
        ctx.take()
    );
    pair.on_recv_ack(&mut ctx, eid(1), msg(2));
    assert!(pair.is_sending());
    assert!(!pair.is_receiving());
    pair.on_send_ack(&mut ctx, eid(1));
    assert_eq!(
        vec![
            ProtoCmd::ReplyRecv(Reply::Recv(msg(2))),
            ProtoCmd::ReplySend(Reply::Sent),
        ],
        ctx.take()
    );
}

#[test]
fn pair_operations_time_out() {
    let mut ctx = Context::new();
    let mut pair = Pair::new();
    pair.on_send_timeout(&mut ctx);
    pair.on_recv_timeout(&mut ctx);
    assert_eq!(0, ctx.len());
    pair.send(&mut ctx, msg(1), Some(Scheduled(1)));
    pair.recv(&mut ctx, Some(Scheduled(2)));
    pair.on_send_timeout(&mut ctx);
    pair.on_recv_timeout(&mut ctx);
    let cmds = ctx.take();
    assert_eq!(2, cmds.len());
    assert!(matches!(cmds[0], ProtoCmd::ReplySend(_)));
    assert_eq!(ErrorKind::TimedOut, error_kind(&cmds[0]));
    assert!(matches!(cmds[1], ProtoCmd::ReplyRecv(_)));
    assert_eq!(ErrorKind::TimedOut, error_kind(&cmds[1]));
    assert!(!pair.is_sending());
    assert!(!pair.is_receiving());
}

#[test]
fn pair_puts_its_operations_on_hold_when_the_pipe_is_removed() {
    let mut ctx = Context::new();
    let mut pair = Pair::new();
    pair.add_pipe(&mut ctx, eid(1), pipe(1)).unwrap();
    pair.on_send_ready(&mut ctx, eid(1));
    pair.on_recv_ready(&mut ctx, eid(1));
    pair.send(&mut ctx, msg(1), None);
    pair.recv(&mut ctx, None);
    ctx.take();
    pair.remove_pipe(&mut ctx, eid(1));
    assert!(pair.is_sending());
    assert!(pair.is_receiving());
    pair.on_send_ack(&mut ctx, eid(1));
    pair.on_recv_ack(&mut ctx, eid(1), msg(2));
    assert_eq!(0, ctx.len());

    pair.add_pipe(&mut ctx, eid(2), pipe(2)).unwrap();
    pair.on_send_ready(&mut ctx, eid(2));
    pair.on_recv_ready(&mut ctx, eid(2));
    assert_eq!(
        vec![ProtoCmd::Send(eid(2), Rc::new(msg(1))), ProtoCmd::Recv(eid(2))],
        ctx.take()
    );
}
