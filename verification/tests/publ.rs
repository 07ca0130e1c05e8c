use std::rc::Rc;

use scaproust::endpoint::EndpointDesc;
use scaproust::error::ErrorKind;
use scaproust::ids::{EndpointId, Scheduled, SocketId};
use scaproust::message::Message;
use scaproust::options::SocketOption;
use scaproust::proto::context::{Context, ProtoCmd, Reply};
use scaproust::proto::pipe::Pipe;
use scaproust::proto::protocol::Protocol;
use scaproust::proto::publ::Pub;
use scaproust::proto::sub::Sub;

fn eid(n: usize) -> EndpointId {
    EndpointId::from(n)
}

fn pipe(n: usize) -> Pipe {
    let desc = EndpointDesc {
        send_priority: 8,
        recv_priority: 8,
        tcp_no_delay: false,
        recv_max_size: 1024,
    };
    Pipe::new(eid(n), &desc)
}

fn text(s: &str) -> Message {
    Message::from_body(s.as_bytes().to_vec())
}

#[test]
fn pub_has_the_ids_of_pub_and_sub() {
    let publ = Pub::new();
    assert_eq!(32, publ.id());
    assert_eq!(33, publ.peer_id());
    assert_eq!(32, Protocol::id(&publ));
    assert_eq!(33, Protocol::peer_id(&publ));
}

#[test]
fn pub_refuses_to_recv() {
    let mut ctx = Context::new();
    let mut publ = Pub::new();
    publ.recv(&mut ctx, Some(Scheduled(3)));
    let cmds = ctx.take();
    assert_eq!(2, cmds.len());
    match &cmds[0] {
        ProtoCmd::ReplyRecv(Reply::Error(e)) => assert_eq!(ErrorKind::Other, e.kind()),
        other => panic!("unexpected {:?}", other),
    }
    assert_eq!(ProtoCmd::Cancel(Scheduled(3)), cmds[1]);
}

#[test]
fn pub_sends_to_every_pipe_that_can_send() {
    let mut ctx = Context::new();
    let mut publ = Pub::new();
    for n in 1..4 {
        publ.add_pipe(&mut ctx, eid(n), pipe(n));
    }
    publ.on_send_ready(&mut ctx, eid(3));
    publ.on_send_ready(&mut ctx, eid(1));
    publ.send(&mut ctx, text("a"), Some(Scheduled(9)));
    let cmds = ctx.take();
    assert_eq!(
        vec![
            ProtoCmd::Send(eid(1), Rc::new(text("a"))),
            ProtoCmd::Send(eid(3), Rc::new(text("a"))),
            ProtoCmd::ReplySend(Reply::Sent),
            ProtoCmd::Cancel(Scheduled(9)),
        ],
        cmds
    );
    // the pipes share one message
    match (&cmds[0], &cmds[1]) {
        (ProtoCmd::Send(_, a), ProtoCmd::Send(_, b)) => assert!(Rc::ptr_eq(a, b)),
        other => panic!("unexpected {:?}", other),
    }
}

#[test]
fn pub_skips_a_pipe_until_it_has_sent() {
    let mut ctx = Context::new();
    let mut publ = Pub::new();
    publ.add_pipe(&mut ctx, eid(1), pipe(1));
    publ.add_pipe(&mut ctx, eid(2), pipe(2));
    publ.on_send_ready(&mut ctx, eid(1));
    publ.on_send_ready(&mut ctx, eid(2));
    publ.send(&mut ctx, text("a"), None);
    ctx.take();
    publ.on_send_ack(&mut ctx, eid(2));
    publ.send(&mut ctx, text("b"), None);
    assert_eq!(
        vec![
            ProtoCmd::Send(eid(2), Rc::new(text("b"))),
            ProtoCmd::ReplySend(Reply::Sent),
        ],
        ctx.take()
    );
    publ.send(&mut ctx, text("c"), None);
    assert_eq!(vec![ProtoCmd::ReplySend(Reply::Sent)], ctx.take());
}

#[test]
fn pub_forgets_a_pipe_that_is_removed() {
    let mut ctx = Context::new();
    let mut publ = Pub::new();
    publ.add_pipe(&mut ctx, eid(1), pipe(1));
    publ.on_send_ready(&mut ctx, eid(1));
    assert_eq!(Some(pipe(1)), publ.remove_pipe(&mut ctx, eid(1)));
    assert_eq!(None, publ.remove_pipe(&mut ctx, eid(1)));
    publ.send(&mut ctx, text("a"), None);
    assert_eq!(vec![ProtoCmd::ReplySend(Reply::Sent)], ctx.take());
    publ.on_send_timeout(&mut ctx);
    publ.on_recv_timeout(&mut ctx);
    publ.on_recv_ready(&mut ctx, eid(1));
    publ.on_recv_ack(&mut ctx, eid(1), text("x"));
    assert_eq!(0, ctx.len());
}

#[test]
fn subscription_filter() {
    let mut pctx = Context::new();
    let mut sctx = Context::new();
    let mut publ = Pub::new();
    let mut sub = Sub::new(SocketId(2));
    sub.set_option(SocketOption::Subscribe(b"news/".to_vec())).unwrap();
    publ.add_pipe(&mut pctx, eid(1), pipe(1));
    sub.add_pipe(&mut sctx, eid(1), pipe(1)).unwrap();
    publ.on_send_ready(&mut pctx, eid(1));

    let mut received = Vec::new();
    sub.recv(&mut sctx, None);
    for body in ["news/a", "weather", "news/b"] {
        // the publisher sends, and its pipe delivers
        publ.send(&mut pctx, text(body), None);
        let mut delivered = Vec::new();
        for cmd in pctx.take() {
            if let ProtoCmd::Send(_, msg) = cmd {
                delivered.push(msg);
            }
        }
        assert_eq!(1, delivered.len());
        publ.on_send_ack(&mut pctx, eid(1));
        // the subscriber's pipe gets readable, and hands the message over
        sub.on_recv_ready(&mut sctx, eid(1));
        assert_eq!(vec![ProtoCmd::Recv(eid(1))], sctx.take());
        sub.on_recv_ack(&mut sctx, eid(1), delivered[0].as_ref().clone());
        for cmd in sctx.take() {
            if let ProtoCmd::ReplyRecv(Reply::Recv(msg)) = cmd {
                received.push(msg);
                sub.recv(&mut sctx, None);
            }
        }
    }
    assert_eq!(vec![text("news/a"), text("news/b")], received);
}
