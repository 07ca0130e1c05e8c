use std::cell::RefCell;
use std::rc::Rc;

use scaproust::error::{other_io_error, would_block_io_error, Error};
use scaproust::message::Message;
use scaproust::transport::context::{Context, PipeCmd, PipeEvt};
use scaproust::transport::step_stream::StepStream;
use scaproust::transport::stream::handshake::{HandshakeRx, HandshakeTx};
use scaproust::transport::stream::state::PipeState;

struct TestStepStreamSensor {
    sent_handshakes: Vec<(u16, u16)>,
    received_handshakes: usize,
    send_handshake_result: Option<Error>,
    recv_handshake_result: Option<Error>,
}

impl TestStepStreamSensor {
    fn new() -> TestStepStreamSensor {
        TestStepStreamSensor {
            sent_handshakes: Vec::new(),
            received_handshakes: 0,
            send_handshake_result: None,
            recv_handshake_result: None,
        }
    }

    fn get_sent_handshakes(&self) -> &[(u16, u16)] {
        &self.sent_handshakes
    }

    fn get_received_handshakes(&self) -> usize {
        self.received_handshakes
    }
}

struct TestStepStream {
    sensor: Rc<RefCell<TestStepStreamSensor>>,
}

impl TestStepStream {
    fn new() -> TestStepStream {
        TestStepStream::with_sensor(Rc::new(RefCell::new(TestStepStreamSensor::new())))
    }

    fn with_sensor(sensor: Rc<RefCell<TestStepStreamSensor>>) -> TestStepStream {
        TestStepStream { sensor }
    }
}

impl StepStream for TestStepStream {
    fn send_handshake(&mut self, pids: (u16, u16)) -> Result<(), Error> {
        let mut sensor = self.sensor.borrow_mut();
        sensor.sent_handshakes.push(pids);
        match sensor.send_handshake_result {
            Some(e) => Err(e),
            None => Ok(()),
        }
    }

    fn recv_handshake(&mut self, _: (u16, u16)) -> Result<(), Error> {
        let mut sensor = self.sensor.borrow_mut();
        sensor.received_handshakes += 1;
        match sensor.recv_handshake_result {
            Some(e) => Err(e),
            None => Ok(()),
        }
    }

    fn send(&mut self, _: Rc<Message>) -> Result<(), Error> {
        Ok(())
    }

    fn resume_send(&mut self) -> Result<(), Error> {
        Ok(())
    }

    fn recv(&mut self) -> Result<Message, Error> {
        Err(would_block_io_error("nothing to read"))
    }
}

fn registrations(ctx: &Context) -> Vec<(mio::EventSet, mio::PollOpt)> {
    let mut found = Vec::new();
    for cmd in ctx.commands() {
        if let PipeCmd::Register(interest, opt) = cmd {
            found.push((*interest, *opt));
        }
    }
    found
}

fn reregistrations(ctx: &Context) -> Vec<(mio::EventSet, mio::PollOpt)> {
    let mut found = Vec::new();
    for cmd in ctx.commands() {
        if let PipeCmd::Reregister(interest, opt) = cmd {
            found.push((*interest, *opt));
        }
    }
    found
}

fn deregistrations(ctx: &Context) -> usize {
    let mut found = 0;
    for cmd in ctx.commands() {
        if let PipeCmd::Deregister = cmd {
            found += 1;
        }
    }
    found
}

fn raised_events(ctx: &Context) -> Vec<&PipeEvt> {
    let mut found = Vec::new();
    for cmd in ctx.commands() {
        if let PipeCmd::Raise(evt) = cmd {
            found.push(evt);
        }
    }
    found
}

#[test]
fn on_enter_tx_should_register() {
    let stream = TestStepStream::new();
    let state = HandshakeTx::new(stream, (4, 2));
    let mut ctx = Context::new();

    state.enter(&mut ctx);

    assert_eq!(1, registrations(&ctx).len());
    assert_eq!(0, reregistrations(&ctx).len());
    assert_eq!(0, deregistrations(&ctx));

    let (ref interest, ref poll_opt) = registrations(&ctx)[0];
    let all = mio::EventSet::writable();
    let edge = mio::PollOpt::level();

    assert_eq!(&all, interest);
    assert_eq!(&edge, poll_opt);
}

#[test]
fn tx_close_should_deregister_raise_an_event_and_cause_a_transition_to_dead() {
    let stream = TestStepStream::new();
    let state = HandshakeTx::new(stream, (1, 1));
    let mut ctx = Context::new();
    let new_state = state.close(&mut ctx);

    assert_eq!(0, registrations(&ctx).len());
    assert_eq!(0, reregistrations(&ctx).len());
    assert_eq!(1, deregistrations(&ctx));

    assert_eq!("Dead", new_state.name());

    assert_eq!(1, raised_events(&ctx).len());
    let evt = raised_events(&ctx)[0];
    let is_closed = match evt {
        &PipeEvt::Closed => true,
        _ => false,
    };

    assert!(is_closed);
}

#[test]
fn on_writable_the_handshake_should_be_sent() {
    let sensor_srv = TestStepStreamSensor::new();
    let sensor = Rc::new(RefCell::new(sensor_srv));
    let stream = TestStepStream::with_sensor(sensor.clone());
    let pids = (4, 2);
    let state = HandshakeTx::new(stream, pids);
    let mut ctx = Context::new();
    let events = mio::EventSet::writable();
    let new_state = state.ready(&mut ctx, events);

    assert_eq!(1, sensor.borrow().get_sent_handshakes().len());
    assert_eq!(pids, sensor.borrow().get_sent_handshakes()[0]);

    assert_eq!("HandshakeRx", new_state.name());
}

#[test]
fn on_enter_rx_should_reregister() {
    let stream = TestStepStream::new();
    let state = HandshakeRx::new(stream, (4, 2));
    let mut ctx = Context::new();

    state.enter(&mut ctx);

    assert_eq!(0, registrations(&ctx).len());
    assert_eq!(1, reregistrations(&ctx).len());
    assert_eq!(0, deregistrations(&ctx));

    let (ref interest, ref poll_opt) = reregistrations(&ctx)[0];
    let all = mio::EventSet::readable();
    let edge = mio::PollOpt::level();

    assert_eq!(&all, interest);
    assert_eq!(&edge, poll_opt);
}

#[test]
fn rx_close_should_deregister_raise_an_event_and_cause_a_transition_to_dead() {
    let stream = TestStepStream::new();
    let state = HandshakeRx::new(stream, (1, 1));
    let mut ctx = Context::new();
    let new_state = state.close(&mut ctx);

    assert_eq!(0, registrations(&ctx).len());
    assert_eq!(0, reregistrations(&ctx).len());
    assert_eq!(1, deregistrations(&ctx));

    assert_eq!("Dead", new_state.name());

    assert_eq!(1, raised_events(&ctx).len());
    let evt = raised_events(&ctx)[0];
    let is_closed = match evt {
        &PipeEvt::Closed => true,
        _ => false,
    };

    assert!(is_closed);
}

#[test]
fn readable_the_handshake_should_be_received() {
    let sensor_srv = TestStepStreamSensor::new();
    let sensor = Rc::new(RefCell::new(sensor_srv));
    let stream = TestStepStream::with_sensor(sensor.clone());
    let pids = (6, 6);
    let state = HandshakeRx::new(stream, pids);
    let mut ctx = Context::new();
    let events = mio::EventSet::readable();
    let new_state = state.ready(&mut ctx, events);

    assert_eq!(1, sensor.borrow().get_received_handshakes());
    assert_eq!("Active", new_state.name());
}

#[test]
fn tx_ignores_readiness_that_is_not_writable() {
    let sensor = Rc::new(RefCell::new(TestStepStreamSensor::new()));
    let stream = TestStepStream::with_sensor(sensor.clone());
    let state = HandshakeTx::new(stream, (4, 2));
    let mut ctx = Context::new();
    let new_state = state.ready(&mut ctx, mio::EventSet::readable());

    assert_eq!(0, sensor.borrow().get_sent_handshakes().len());
    assert_eq!("HandshakeTx", new_state.name());
    assert_eq!(0, ctx.len());
}

#[test]
fn rx_ignores_readiness_that_is_not_readable() {
    let sensor = Rc::new(RefCell::new(TestStepStreamSensor::new()));
    let stream = TestStepStream::with_sensor(sensor.clone());
    let state = HandshakeRx::new(stream, (4, 2));
    let mut ctx = Context::new();
    let new_state = state.ready(&mut ctx, mio::EventSet::writable());

    assert_eq!(0, sensor.borrow().get_received_handshakes());
    assert_eq!("HandshakeRx", new_state.name());
    assert_eq!(0, ctx.len());
}

#[test]
fn a_failed_handshake_write_shuts_the_pipe() {
    let sensor = Rc::new(RefCell::new(TestStepStreamSensor::new()));
    sensor.borrow_mut().send_handshake_result = Some(other_io_error("broken pipe"));
    let stream = TestStepStream::with_sensor(sensor.clone());
    let state = HandshakeTx::new(stream, (4, 2));
    let mut ctx = Context::new();
    let new_state = state.ready(&mut ctx, mio::EventSet::writable());

    assert_eq!("Dead", new_state.name());
    assert_eq!(1, deregistrations(&ctx));
    assert_eq!(1, raised_events(&ctx).len());
    assert!(matches!(raised_events(&ctx)[0], &PipeEvt::Closed));
}

#[test]
fn a_pipe_goes_from_initial_to_active_and_raises_opened_once() {
    let stream = TestStepStream::new();
    let mut ctx = Context::new();
    let state = PipeState::new(stream, (80, 81));
    assert_eq!("Initial", state.name());
    let state = state.open(&mut ctx);
    assert_eq!("HandshakeTx", state.name());
    let state = state.ready(&mut ctx, mio::EventSet::writable());
    assert_eq!("HandshakeRx", state.name());
    let state = state.ready(&mut ctx, mio::EventSet::readable());
    assert_eq!("Active", state.name());

    assert_eq!(1, registrations(&ctx).len());
    assert_eq!(2, reregistrations(&ctx).len());
    assert_eq!(1, raised_events(&ctx).len());
    assert!(matches!(raised_events(&ctx)[0], &PipeEvt::Opened));

    let state = state.close(&mut ctx);
    assert_eq!("Dead", state.name());
    let state = state.close(&mut ctx);
    assert_eq!("Dead", state.name());
    assert_eq!(2, raised_events(&ctx).len());
    assert!(matches!(raised_events(&ctx)[1], &PipeEvt::Closed));
}

#[test]
fn a_command_out_of_turn_during_the_handshake_kills_the_pipe_silently() {
    let mut ctx = Context::new();
    let state = HandshakeTx::new(TestStepStream::new(), (4, 2));
    assert_eq!("Dead", state.open(&mut ctx).name());
    let state = HandshakeTx::new(TestStepStream::new(), (4, 2));
    assert_eq!("Dead", state.recv(&mut ctx).name());
    let state = HandshakeRx::new(TestStepStream::new(), (4, 2));
    assert_eq!("Dead", state.send(&mut ctx, Rc::new(Message::new())).name());
    assert_eq!(0, ctx.len());
}
