//! The state in which a pipe exchanges messages.

use std::rc::Rc;
use vstd::prelude::*;
use crate::error::{Error, ErrorKind};
use crate::message::Message;
use crate::transport::context::{Context, PipeCmdView, PipeEvt};
use crate::transport::readiness::{
    event_set_bits,
    is_readable,
    is_writable,
    level,
    readable,
    readable_and_writable,
};
use crate::transport::step_stream::StepStream;
use crate::transport::stream::model::{
    die,
    ready_step,
    readable_step,
    recv_progress,
    recv_step,
    send_progress,
    send_step,
    shut,
    stay,
    want_readable,
    writable_step,
    PipeView,
};
use crate::transport::stream::state::{took, PipeState};

verus! {

/// The state of a pipe after the handshake. At most one frame is under way
/// in each direction.
pub struct Active<T: StepStream> {
    stream: T,
    sending: bool,
    receiving: bool,
}

impl<T: StepStream> Active<T> {
    /// A frame is partly written.
    pub closed spec fn sending(&self) -> bool {
        self.sending
    }

    /// A receive was asked for, and no frame is complete yet.
    pub closed spec fn receiving(&self) -> bool {
        self.receiving
    }

    /// The state without its transport.
    pub open spec fn spec_view(&self) -> PipeView {
        PipeView::Active { sending: self.sending(), receiving: self.receiving() }
    }

    /// The state over `stream`, with nothing under way.
    pub fn new(stream: T) -> (state: Active<T>)
        ensures
            !state.sending(),
            !state.receiving(),
    {
        Active { stream, sending: false, receiving: false }
    }

    /// The name of the state.
    pub fn name(&self) -> (name: &'static str)
        ensures
            name == "Active",
    {
        "Active"
    }

    /// Entering the state changes the registration of the transport to
    /// readable readiness, level-triggered.
    pub fn enter(&self, ctx: &mut Context)
        ensures
            final(ctx)@ == old(ctx)@.push(want_readable()),
    {
        ctx.reregister(readable(), level());
    }

    /// An `open` on an open pipe kills it.
    pub fn open(self, ctx: &mut Context) -> (next: PipeState<T>)
        ensures
            took(old(ctx)@, final(ctx)@, next@, die()),
    {
        PipeState::Dead
    }

    /// Takes the transport off the reactor and tells the owner that the pipe
    /// is closed.
    pub fn close(self, ctx: &mut Context) -> (next: PipeState<T>)
        ensures
            took(old(ctx)@, final(ctx)@, next@, shut()),
    {
        ctx.deregister();
        ctx.raise(PipeEvt::Closed);
        assert(ctx@ =~= old(ctx)@ + shut().cmds);
        PipeState::Dead
    }

    /// Hands `msg` to the transport, and goes on as `on_send_progress` says
    /// of the outcome. While a frame is under way a second send shuts the
    /// pipe.
    pub fn send(self, ctx: &mut Context, msg: Rc<Message>) -> (next: PipeState<T>)
        ensures
            exists|res: Result<(), Error>|
                took(
                    old(ctx)@,
                    final(ctx)@,
                    next@,
                    #[trigger] send_step(self.sending(), self.receiving(), res),
                ),
            self.sending() ==> took(old(ctx)@, final(ctx)@, next@, shut()),
    {
        let ghost was_sending = self.sending();
        let ghost was_receiving = self.receiving();
        let mut this = self;
        if this.sending {
            let next = this.close(ctx);
            assert(took(old(ctx)@, ctx@, next@, send_step(true, was_receiving, Ok(()))));
            next
        } else {
            let res = this.stream.send(msg);
            let next = this.on_send_progress(ctx, res);
            assert(took(
                old(ctx)@,
                ctx@,
                next@,
                send_step(was_sending, was_receiving, res),
            ));
            next
        }
    }

    /// After the transport has worked on a frame to send. Written: the
    /// owner gets `SentMsg`, and the pipe stops polling for writable if it
    /// did. Not yet written (`WouldBlock`): the pipe polls for writable too.
    /// Failed: the pipe is shut.
    pub fn on_send_progress(self, ctx: &mut Context, res: Result<(), Error>) -> (next:
        PipeState<T>)
        ensures
            took(
                old(ctx)@,
                final(ctx)@,
                next@,
                send_progress(self.sending(), self.receiving(), res),
            ),
    {
        let ghost was_sending = self.sending();
        let ghost was_receiving = self.receiving();
        let mut this = self;
        match res {
            Ok(_) => {
                ctx.raise(PipeEvt::SentMsg);
                if this.sending {
                    ctx.reregister(readable(), level());
                    this.sending = false;
                }
                assert(ctx@ =~= old(ctx)@ + send_progress(
                    was_sending,
                    was_receiving,
                    res,
                ).cmds);
                PipeState::Active(this)
            },
            Err(e) => {
                if would_block(&e) {
                    if !this.sending {
                        ctx.reregister(readable_and_writable(), level());
                        this.sending = true;
                    }
                    assert(ctx@ =~= old(ctx)@ + send_progress(
                        was_sending,
                        was_receiving,
                        res,
                    ).cmds);
                    PipeState::Active(this)
                } else {
                    this.close(ctx)
                }
            },
        }
    }

    /// Asks the transport for a message, and goes on as `on_recv_progress`
    /// says of the outcome. While a receive is under way a second one shuts
    /// the pipe.
    pub fn recv(self, ctx: &mut Context) -> (next: PipeState<T>)
        ensures
            exists|res: Result<Message, Error>|
                took(
                    old(ctx)@,
                    final(ctx)@,
                    next@,
                    #[trigger] recv_step(self.sending(), self.receiving(), res),
                ),
            self.receiving() ==> took(old(ctx)@, final(ctx)@, next@, shut()),
    {
        let ghost was_sending = self.sending();
        let ghost was_receiving = self.receiving();
        let mut this = self;
        if this.receiving {
            let next = this.close(ctx);
            assert(took(
                old(ctx)@,
                ctx@,
                next@,
                recv_step(
                    was_sending,
                    true,
                    Err(Error { kind: ErrorKind::Other, message: "" }),
                ),
            ));
            next
        } else {
            let res = this.stream.recv();
            let next = this.on_recv_progress(ctx, res);
            assert(took(
                old(ctx)@,
                ctx@,
                next@,
                recv_step(was_sending, was_receiving, res),
            ));
            next
        }
    }

    /// After the transport has worked on a frame to receive. Complete: the
    /// owner gets the message in `RecvMsg`. Not yet complete (`WouldBlock`):
    /// the pipe waits for the next readable event. Failed: the pipe is shut.
    pub fn on_recv_progress(self, ctx: &mut Context, res: Result<Message, Error>) -> (next:
        PipeState<T>)
        ensures
            took(old(ctx)@, final(ctx)@, next@, recv_progress(self.sending(), res)),
    {
        let ghost was_sending = self.sending();
        let mut this = self;
        match res {
            Ok(msg) => {
                ctx.raise(PipeEvt::RecvMsg(msg));
                this.receiving = false;
                assert(ctx@ =~= old(ctx)@ + recv_progress(was_sending, res).cmds);
                PipeState::Active(this)
            },
            Err(e) => {
                if would_block(&e) {
                    this.receiving = true;
                    assert(ctx@ =~= old(ctx)@ + recv_progress(was_sending, res).cmds);
                    PipeState::Active(this)
                } else {
                    this.close(ctx)
                }
            },
        }
    }

    /// The writable half of a readiness event.
    fn on_writable(self, ctx: &mut Context) -> (next: PipeState<T>)
        ensures
            exists|res: Result<(), Error>|
                took(
                    old(ctx)@,
                    final(ctx)@,
                    next@,
                    #[trigger] writable_step(self.sending(), self.receiving(), res),
                ),
    {
        let ghost was_sending = self.sending();
        let ghost was_receiving = self.receiving();
        let mut this = self;
        if this.sending {
            let res = this.stream.resume_send();
            let next = this.on_send_progress(ctx, res);
            assert(took(
                old(ctx)@,
                ctx@,
                next@,
                writable_step(was_sending, was_receiving, res),
            ));
            next
        } else {
            ctx.raise(PipeEvt::CanSend);
            assert(ctx@ =~= old(ctx)@ + seq![PipeCmdView::Raise(PipeEvt::CanSend)]);
            assert(took(
                old(ctx)@,
                ctx@,
                this.spec_view(),
                writable_step(this.sending(), this.receiving(), Ok(())),
            ));
            PipeState::Active(this)
        }
    }

    /// The readable half of a readiness event.
    fn on_readable(self, ctx: &mut Context) -> (next: PipeState<T>)
        ensures
            exists|res: Result<Message, Error>|
                took(
                    old(ctx)@,
                    final(ctx)@,
                    next@,
                    #[trigger] readable_step(self.sending(), self.receiving(), res),
                ),
    {
        let ghost was_sending = self.sending();
        let ghost was_receiving = self.receiving();
        let mut this = self;
        if this.receiving {
            let res = this.stream.recv();
            let next = this.on_recv_progress(ctx, res);
            assert(took(
                old(ctx)@,
                ctx@,
                next@,
                readable_step(was_sending, was_receiving, res),
            ));
            next
        } else {
            ctx.raise(PipeEvt::CanRecv);
            assert(ctx@ =~= old(ctx)@ + seq![PipeCmdView::Raise(PipeEvt::CanRecv)]);
            assert(took(
                old(ctx)@,
                ctx@,
                this.spec_view(),
                readable_step(
                    this.sending(),
                    this.receiving(),
                    Err(Error { kind: ErrorKind::Other, message: "" }),
                ),
            ));
            PipeState::Active(this)
        }
    }

    /// A readiness event. Writable: a send under way goes on; without one
    /// the owner gets `CanSend`. Then, readable and still alive: a receive
    /// under way goes on; without one the owner gets `CanRecv`.
    pub fn ready(self, ctx: &mut Context, events: mio::EventSet) -> (next: PipeState<T>)
        ensures
            exists|sent: Result<(), Error>, received: Result<Message, Error>|
                took(
                    old(ctx)@,
                    final(ctx)@,
                    next@,
                    #[trigger] ready_step(
                        self.sending(),
                        self.receiving(),
                        event_set_bits(events),
                        sent,
                        received,
                    ),
                ),
    {
        let ghost bits = event_set_bits(events);
        let ghost sending = self.sending();
        let ghost receiving = self.receiving();
        let ghost here = self.spec_view();
        let can_write = is_writable(&events);
        let can_read = is_readable(&events);
        let first = if can_write {
            self.on_writable(ctx)
        } else {
            PipeState::Active(self)
        };
        let ghost sent: Result<(), Error> = if can_write {
            choose|res: Result<(), Error>|
                took(old(ctx)@, ctx@, first@, #[trigger] writable_step(sending, receiving, res))
        } else {
            Ok(())
        };
        let ghost first_step = if can_write {
            writable_step(sending, receiving, sent)
        } else {
            stay(here)
        };
        assert(took(old(ctx)@, ctx@, first@, first_step)) by {
            if !can_write {
                assert(ctx@ =~= old(ctx)@ + stay(here).cmds);
            }
        }
        let ghost mid = ctx@;
        match first {
            PipeState::Active(state) => {
                if can_read {
                    let ghost s = state.sending();
                    let ghost r = state.receiving();
                    let next = state.on_readable(ctx);
                    proof {
                        let received = choose|res: Result<Message, Error>|
                            took(mid, ctx@, next@, #[trigger] readable_step(s, r, res));
                        let second = readable_step(s, r, received);
                        assert(ctx@ =~= old(ctx)@ + (first_step.cmds + second.cmds));
                        assert(took(
                            old(ctx)@,
                            ctx@,
                            next@,
                            ready_step(sending, receiving, bits, sent, received),
                        ));
                    }
                    next
                } else {
                    assert(took(
                        old(ctx)@,
                        ctx@,
                        state.spec_view(),
                        ready_step(
                            sending,
                            receiving,
                            bits,
                            sent,
                            Err(Error { kind: ErrorKind::Other, message: "" }),
                        ),
                    ));
                    PipeState::Active(state)
                }
            },
            other => {
                assert(took(
                    old(ctx)@,
                    ctx@,
                    other@,
                    ready_step(
                        sending,
                        receiving,
                        bits,
                        sent,
                        Err(Error { kind: ErrorKind::Other, message: "" }),
                    ),
                ));
                other
            },
        }
    }
}

/// Whether an operation failed only because it could not finish at once.
pub fn would_block(e: &Error) -> (yes: bool)
    ensures
        yes == (e.kind == ErrorKind::WouldBlock),
{
    match e.kind {
        ErrorKind::WouldBlock => true,
        _ => false,
    }
}

} // verus!
