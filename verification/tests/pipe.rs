use std::cell::RefCell;
use std::collections::VecDeque;
use std::rc::Rc;

use scaproust::error::{other_io_error, would_block_io_error, Error, ErrorKind};
use scaproust::message::Message;
use scaproust::transport::context::{Context, PipeCmd, PipeEvt};
use scaproust::transport::step_stream::StepStream;
use scaproust::transport::stream::active::{would_block, Active};
use scaproust::transport::stream::initial::Initial;
use scaproust::transport::stream::state::PipeState;
use scaproust::wire::{check_handshake, create_handshake, decode_frame, encode_frame};

/// One direction of an in-memory connection.
type Wire = Rc<RefCell<VecDeque<u8>>>;

/// A transport over two in-memory byte queues.
struct MemoryStream {
    input: Wire,
    output: Wire,
    recv_max_size: u64,
}

fn connection() -> (MemoryStream, MemoryStream) {
    let a_to_b: Wire = Rc::new(RefCell::new(VecDeque::new()));
    let b_to_a: Wire = Rc::new(RefCell::new(VecDeque::new()));
    (
        MemoryStream {
            input: b_to_a.clone(),
            output: a_to_b.clone(),
            recv_max_size: 4 * 1_048_576,
        },
        MemoryStream {
            input: a_to_b,
            output: b_to_a,
            recv_max_size: 4 * 1_048_576,
        },
    )
}

impl StepStream for MemoryStream {
    fn send_handshake(&mut self, pids: (u16, u16)) -> Result<(), Error> {
        self.output.borrow_mut().extend(create_handshake(pids.0));
        Ok(())
    }

    fn recv_handshake(&mut self, pids: (u16, u16)) -> Result<(), Error> {
        let mut input = self.input.borrow_mut();
        if input.len() < 8 {
            return Err(would_block_io_error("handshake is not there yet"));
        }
        let mut bytes = [0u8; 8];
        for b in bytes.iter_mut() {
            *b = input.pop_front().unwrap();
        }
        check_handshake(&bytes, pids.1)
    }

    fn send(&mut self, msg: Rc<Message>) -> Result<(), Error> {
        self.output.borrow_mut().extend(encode_frame(msg.get_body()));
        Ok(())
    }

    fn resume_send(&mut self) -> Result<(), Error> {
        Ok(())
    }

    fn recv(&mut self) -> Result<Message, Error> {
        let mut input = self.input.borrow_mut();
        let bytes: Vec<u8> = input.iter().cloned().collect();
        match decode_frame(&bytes, self.recv_max_size)? {
            Some(payload) => {
                input.drain(..payload.len() + 8);
                Ok(Message::from_body(payload))
            }
            None => Err(would_block_io_error("frame is not there yet")),
        }
    }
}

/// A transport that answers as it is told.
struct ScriptedStream {
    sends: VecDeque<Result<(), Error>>,
    recvs: VecDeque<Result<Message, Error>>,
}

impl ScriptedStream {
    fn new(sends: Vec<Result<(), Error>>, recvs: Vec<Result<Message, Error>>) -> ScriptedStream {
        ScriptedStream {
            sends: sends.into(),
            recvs: recvs.into(),
        }
    }
}

impl StepStream for ScriptedStream {
    fn send_handshake(&mut self, _: (u16, u16)) -> Result<(), Error> {
        Ok(())
    }

    fn recv_handshake(&mut self, _: (u16, u16)) -> Result<(), Error> {
        Ok(())
    }

    fn send(&mut self, _: Rc<Message>) -> Result<(), Error> {
        self.sends.pop_front().unwrap()
    }

    fn resume_send(&mut self) -> Result<(), Error> {
        self.sends.pop_front().unwrap()
    }

    fn recv(&mut self) -> Result<Message, Error> {
        self.recvs.pop_front().unwrap()
    }
}

fn events(ctx: &Context) -> Vec<PipeEvt> {
    let mut found = Vec::new();
    for cmd in ctx.commands() {
        if let PipeCmd::Raise(evt) = cmd {
            found.push(evt.clone());
        }
    }
    found
}

fn requests(ctx: &Context) -> Vec<&PipeCmd> {
    ctx.commands()
        .iter()
        .filter(|cmd| !matches!(cmd, PipeCmd::Raise(_)))
        .collect()
}

fn readable() -> mio::EventSet {
    mio::EventSet::readable()
}

fn writable() -> mio::EventSet {
    mio::EventSet::writable()
}

fn both() -> mio::EventSet {
    mio::EventSet::readable() | mio::EventSet::writable()
}

fn msg(n: u8) -> Message {
    Message::from_body(vec![n])
}

fn open<T: StepStream>(stream: T, pids: (u16, u16), ctx: &mut Context) -> PipeState<T> {
    PipeState::new(stream, pids).open(ctx)
}

#[test]
fn handshake_success() {
    let (connector, acceptor) = connection();
    let wire = connector.output.clone();
    let mut cctx = Context::new();
    let mut actx = Context::new();
    let push = open(connector, (80, 81), &mut cctx);
    let pull = open(acceptor, (81, 80), &mut actx);

    let push = push.ready(&mut cctx, writable());
    assert_eq!(
        vec![0x00, 0x53, 0x50, 0x00, 0x00, 0x50, 0x00, 0x00],
        wire.borrow().iter().cloned().collect::<Vec<u8>>()
    );
    let pull = pull.ready(&mut actx, writable());
    assert_eq!("HandshakeRx", push.name());
    assert_eq!("HandshakeRx", pull.name());

    let pull = pull.ready(&mut actx, readable());
    let push = push.ready(&mut cctx, readable());
    assert_eq!("Active", pull.name());
    assert_eq!("Active", push.name());
    assert_eq!(vec![PipeEvt::Opened], events(&actx));
    assert_eq!(vec![PipeEvt::Opened], events(&cctx));
}

#[test]
fn handshake_mismatch() {
    let (connector, acceptor) = connection();
    let mut cctx = Context::new();
    let mut actx = Context::new();
    let connector = open(connector, (80, 81), &mut cctx);
    let acceptor = open(acceptor, (80, 81), &mut actx);

    let connector = connector.ready(&mut cctx, writable());
    let acceptor = acceptor.ready(&mut actx, writable());
    let acceptor = acceptor.ready(&mut actx, readable());
    assert_eq!("Dead", acceptor.name());
    assert_eq!(vec![PipeEvt::Closed], events(&actx));
    assert_eq!(Some(&PipeCmd::Deregister), requests(&actx).last().cloned());

    let connector = connector.ready(&mut cctx, readable());
    assert_eq!("Dead", connector.name());
    assert_eq!(vec![PipeEvt::Closed], events(&cctx));
}

#[test]
fn messages_of_several_sizes_go_through_byte_identical() {
    let (connector, acceptor) = connection();
    let mut cctx = Context::new();
    let mut actx = Context::new();
    let mut push = open(connector, (80, 81), &mut cctx)
        .ready(&mut cctx, writable());
    let mut pull = open(acceptor, (81, 80), &mut actx)
        .ready(&mut actx, writable())
        .ready(&mut actx, readable());
    push = push.ready(&mut cctx, readable());
    cctx.take();
    actx.take();

    for n in [0usize, 1, 1024, 65536, 1_048_576] {
        let payload: Vec<u8> = (0..n).map(|i| (i % 253) as u8).collect();
        push = push.send(&mut cctx, Rc::new(Message::from_body(payload.clone())));
        assert_eq!(vec![PipeEvt::SentMsg], events(&cctx));
        pull = pull.recv(&mut actx);
        assert_eq!(
            vec![PipeEvt::RecvMsg(Message::from_body(payload))],
            events(&actx)
        );
        cctx.take();
        actx.take();
    }
    assert_eq!("Active", push.name());
    assert_eq!("Active", pull.name());
}

#[test]
fn a_message_that_arrives_later_is_received_on_the_next_readable_event() {
    let (connector, acceptor) = connection();
    let mut cctx = Context::new();
    let mut actx = Context::new();
    let push = open(connector, (80, 81), &mut cctx).ready(&mut cctx, writable());
    let pull = open(acceptor, (81, 80), &mut actx)
        .ready(&mut actx, writable())
        .ready(&mut actx, readable());
    let push = push.ready(&mut cctx, readable());
    actx.take();

    let pull = pull.recv(&mut actx);
    assert_eq!(0, actx.len());
    let _push = push.send(&mut cctx, Rc::new(msg(5)));
    let pull = pull.ready(&mut actx, readable());
    assert_eq!(vec![PipeEvt::RecvMsg(msg(5))], events(&actx));
    actx.take();
    let _pull = pull.ready(&mut actx, readable());
    assert_eq!(vec![PipeEvt::CanRecv], events(&actx));
}

#[test]
fn entering_active_polls_for_readable() {
    let mut ctx = Context::new();
    let state = Active::new(ScriptedStream::new(vec![], vec![]));
    state.enter(&mut ctx);
    assert_eq!(
        vec![PipeCmd::Reregister(
            mio::EventSet::readable(),
            mio::PollOpt::level()
        )],
        ctx.take()
    );
}

#[test]
fn a_send_that_completes_at_once_raises_sent() {
    let mut ctx = Context::new();
    let state = Active::new(ScriptedStream::new(vec![Ok(())], vec![]));
    let state = state.send(&mut ctx, Rc::new(msg(1)));
    assert_eq!("Active", state.name());
    assert_eq!(vec![PipeCmd::Raise(PipeEvt::SentMsg)], ctx.take());
}

#[test]
fn a_send_that_would_block_polls_for_writable_until_it_is_done() {
    let mut ctx = Context::new();
    let script = vec![
        Err(would_block_io_error("later")),
        Err(would_block_io_error("later")),
        Ok(()),
    ];
    let state = Active::new(ScriptedStream::new(script, vec![]));
    let state = state.send(&mut ctx, Rc::new(msg(1)));
    assert_eq!(
        vec![PipeCmd::Reregister(both(), mio::PollOpt::level())],
        ctx.take()
    );
    let state = state.ready(&mut ctx, writable());
    assert_eq!(0, ctx.len());
    let state = state.ready(&mut ctx, readable());
    assert_eq!(vec![PipeCmd::Raise(PipeEvt::CanRecv)], ctx.take());
    let state = state.ready(&mut ctx, writable());
    assert_eq!(
        vec![
            PipeCmd::Raise(PipeEvt::SentMsg),
            PipeCmd::Reregister(readable(), mio::PollOpt::level()),
        ],
        ctx.take()
    );
    let state = state.ready(&mut ctx, writable());
    assert_eq!(vec![PipeCmd::Raise(PipeEvt::CanSend)], ctx.take());
    assert_eq!("Active", state.name());
}

#[test]
fn a_second_send_while_one_is_under_way_shuts_the_pipe() {
    let mut ctx = Context::new();
    let script = vec![Err(would_block_io_error("later"))];
    let state = Active::new(ScriptedStream::new(script, vec![]));
    let state = state.send(&mut ctx, Rc::new(msg(1)));
    ctx.take();
    let state = state.send(&mut ctx, Rc::new(msg(2)));
    assert_eq!("Dead", state.name());
    assert_eq!(
        vec![PipeCmd::Deregister, PipeCmd::Raise(PipeEvt::Closed)],
        ctx.take()
    );
}

#[test]
fn a_failed_send_shuts_the_pipe() {
    let mut ctx = Context::new();
    let script = vec![Err(other_io_error("broken pipe"))];
    let state = Active::new(ScriptedStream::new(script, vec![]));
    let state = state.send(&mut ctx, Rc::new(msg(1)));
    assert_eq!("Dead", state.name());
    assert_eq!(
        vec![PipeCmd::Deregister, PipeCmd::Raise(PipeEvt::Closed)],
        ctx.take()
    );
}

#[test]
fn a_recv_that_completes_at_once_raises_the_message() {
    let mut ctx = Context::new();
    let state = Active::new(ScriptedStream::new(vec![], vec![Ok(msg(9))]));
    let state = state.recv(&mut ctx);
    assert_eq!("Active", state.name());
    assert_eq!(vec![PipeCmd::Raise(PipeEvt::RecvMsg(msg(9)))], ctx.take());
}

#[test]
fn a_recv_that_would_block_waits_for_readable() {
    let mut ctx = Context::new();
    let script = vec![
        Err(would_block_io_error("later")),
        Err(would_block_io_error("later")),
        Ok(msg(9)),
    ];
    let state = Active::new(ScriptedStream::new(vec![], script));
    let state = state.recv(&mut ctx);
    assert_eq!(0, ctx.len());
    let state = state.ready(&mut ctx, readable());
    assert_eq!(0, ctx.len());
    let state = state.ready(&mut ctx, both());
    assert_eq!(
        vec![
            PipeCmd::Raise(PipeEvt::CanSend),
            PipeCmd::Raise(PipeEvt::RecvMsg(msg(9))),
        ],
        ctx.take()
    );
    assert_eq!("Active", state.name());
}

#[test]
fn a_failed_recv_shuts_the_pipe_and_a_dead_pipe_stays_silent() {
    let mut ctx = Context::new();
    let script = vec![Err(other_io_error("connection reset"))];
    let state = Active::new(ScriptedStream::new(vec![], script));
    let state = state.recv(&mut ctx);
    assert_eq!("Dead", state.name());
    assert_eq!(
        vec![PipeCmd::Deregister, PipeCmd::Raise(PipeEvt::Closed)],
        ctx.take()
    );
    let state = state
        .ready(&mut ctx, both())
        .send(&mut ctx, Rc::new(msg(1)))
        .recv(&mut ctx)
        .open(&mut ctx)
        .close(&mut ctx);
    assert_eq!("Dead", state.name());
    assert_eq!(0, ctx.len());
}

#[test]
fn a_second_recv_while_one_is_under_way_shuts_the_pipe() {
    let mut ctx = Context::new();
    let script = vec![Err(would_block_io_error("later"))];
    let state = Active::new(ScriptedStream::new(vec![], script));
    let state = state.recv(&mut ctx).recv(&mut ctx);
    assert_eq!("Dead", state.name());
    assert_eq!(vec![PipeEvt::Closed], events(&ctx));
}

#[test]
fn an_open_on_an_active_pipe_kills_it_silently() {
    let mut ctx = Context::new();
    let state = Active::new(ScriptedStream::new(vec![], vec![]));
    let state = state.open(&mut ctx);
    assert_eq!("Dead", state.name());
    assert_eq!(0, ctx.len());
}

#[test]
fn a_new_pipe_registers_for_writable_when_it_is_opened() {
    let mut ctx = Context::new();
    let state = Initial::new(ScriptedStream::new(vec![], vec![]), (16, 16));
    assert_eq!("Initial", state.name());
    state.enter(&mut ctx);
    assert_eq!(0, ctx.len());
    let state = state.ready(&mut ctx, both());
    assert_eq!("Initial", state.name());
    let state = state.open(&mut ctx);
    assert_eq!("HandshakeTx", state.name());
    assert_eq!(
        vec![PipeCmd::Register(writable(), mio::PollOpt::level())],
        ctx.take()
    );
}

#[test]
fn a_new_pipe_that_is_closed_tells_its_owner() {
    let mut ctx = Context::new();
    let state = Initial::new(ScriptedStream::new(vec![], vec![]), (16, 16));
    let state = state.close(&mut ctx);
    assert_eq!("Dead", state.name());
    assert_eq!(vec![PipeCmd::Raise(PipeEvt::Closed)], ctx.take());
    let state = Initial::new(ScriptedStream::new(vec![], vec![]), (16, 16));
    assert_eq!("Dead", state.send(&mut ctx, Rc::new(msg(1))).name());
    let state = Initial::new(ScriptedStream::new(vec![], vec![]), (16, 16));
    assert_eq!("Dead", state.recv(&mut ctx).name());
    assert_eq!(0, ctx.len());
}

#[test]
fn the_events_of_a_pipe_come_in_order() {
    let mut ctx = Context::new();
    let script = vec![Ok(()), Err(would_block_io_error("later")), Ok(())];
    let recvs = vec![Ok(msg(1)), Err(other_io_error("connection reset"))];
    let state = open(ScriptedStream::new(script, recvs), (80, 81), &mut ctx)
        .ready(&mut ctx, writable())
        .ready(&mut ctx, readable())
        .send(&mut ctx, Rc::new(msg(1)))
        .recv(&mut ctx)
        .send(&mut ctx, Rc::new(msg(2)))
        .ready(&mut ctx, both())
        .recv(&mut ctx)
        .close(&mut ctx)
        .ready(&mut ctx, both());
    assert_eq!("Dead", state.name());
    assert_eq!(
        vec![
            PipeEvt::Opened,
            PipeEvt::SentMsg,
            PipeEvt::RecvMsg(msg(1)),
            PipeEvt::SentMsg,
            PipeEvt::CanRecv,
            PipeEvt::Closed,
        ],
        events(&ctx)
    );
}

#[test]
fn would_block_tells_the_kind() {
    assert!(would_block(&would_block_io_error("x")));
    assert!(!would_block(&other_io_error("x")));
    assert_eq!(ErrorKind::WouldBlock, would_block_io_error("x").kind());
}
