//! A pipe in whichever state it is.

use std::rc::Rc;
use vstd::prelude::*;
use crate::error::Error;
use crate::message::Message;
use crate::transport::context::{Context, PipeCmdView};
use crate::transport::readiness::event_set_bits;
use crate::transport::step_stream::StepStream;
use crate::transport::stream::active::Active;
use crate::transport::stream::handshake::{rx_ready, tx_ready, HandshakeRx, HandshakeTx};
use crate::transport::stream::initial::Initial;
use crate::transport::stream::model::{
    react,
    ready_step,
    recv_step,
    send_step,
    Input,
    PipeView,
    Step,
};

verus! {

/// A step went as `step` says: it led to `next` and wrote `step.cmds` into
/// the context, behind what was there.
pub open spec fn took(
    before: Seq<PipeCmdView>,
    after: Seq<PipeCmdView>,
    next: PipeView,
    step: Step,
) -> bool {
    next == step.next && after == before + step.cmds
}

/// The state of a pipe, with the transport that it owns.
pub enum PipeState<T: StepStream> {
    Initial(Initial<T>),
    HandshakeTx(HandshakeTx<T>),
    HandshakeRx(HandshakeRx<T>),
    Active(Active<T>),
    Dead,
}

impl<T: StepStream> View for PipeState<T> {
    type V = PipeView;

    open spec fn view(&self) -> PipeView {
        match *self {
            PipeState::Initial(s) => PipeView::Initial { pids: s.pids() },
            PipeState::HandshakeTx(s) => PipeView::HandshakeTx { pids: s.pids() },
            PipeState::HandshakeRx(s) => PipeView::HandshakeRx { pids: s.pids() },
            PipeState::Active(s) => PipeView::Active {
                sending: s.sending(),
                receiving: s.receiving(),
            },
            PipeState::Dead => PipeView::Dead,
        }
    }
}

impl<T: StepStream> PipeState<T> {
    /// A new pipe over `stream`, for a socket that announces the first
    /// identifier of `pids` and expects the second.
    pub fn new(stream: T, pids: (u16, u16)) -> (state: PipeState<T>)
        ensures
            state@ == (PipeView::Initial { pids }),
    {
        PipeState::Initial(Initial::new(stream, pids))
    }

    /// The name of the state.
    pub fn name(&self) -> (name: &'static str)
        ensures
            name == match self@ {
                PipeView::Initial { .. } => "Initial",
                PipeView::HandshakeTx { .. } => "HandshakeTx",
                PipeView::HandshakeRx { .. } => "HandshakeRx",
                PipeView::Active { .. } => "Active",
                PipeView::Dead => "Dead",
            },
    {
        match self {
            PipeState::Initial(s) => s.name(),
            PipeState::HandshakeTx(s) => s.name(),
            PipeState::HandshakeRx(s) => s.name(),
            PipeState::Active(s) => s.name(),
            PipeState::Dead => "Dead",
        }
    }

    /// The endpoint opens the pipe.
    pub fn open(self, ctx: &mut Context) -> (next: PipeState<T>)
        ensures
            forall|sent: Result<(), Error>, received: Result<Message, Error>|
                took(
                    old(ctx)@,
                    final(ctx)@,
                    next@,
                    #[trigger] react(self@, Input::Open, sent, received),
                ),
    {
        match self {
            PipeState::Initial(s) => s.open(ctx),
            PipeState::HandshakeTx(s) => s.open(ctx),
            PipeState::HandshakeRx(s) => s.open(ctx),
            PipeState::Active(s) => s.open(ctx),
            PipeState::Dead => {
                assert(ctx@ =~= old(ctx)@ + Seq::<PipeCmdView>::empty());
                PipeState::Dead
            },
        }
    }

    /// The owner closes the pipe.
    pub fn close(self, ctx: &mut Context) -> (next: PipeState<T>)
        ensures
            forall|sent: Result<(), Error>, received: Result<Message, Error>|
                took(
                    old(ctx)@,
                    final(ctx)@,
                    next@,
                    #[trigger] react(self@, Input::Close, sent, received),
                ),
    {
        match self {
            PipeState::Initial(s) => s.close(ctx),
            PipeState::HandshakeTx(s) => s.close(ctx),
            PipeState::HandshakeRx(s) => s.close(ctx),
            PipeState::Active(s) => s.close(ctx),
            PipeState::Dead => {
                assert(ctx@ =~= old(ctx)@ + Seq::<PipeCmdView>::empty());
                PipeState::Dead
            },
        }
    }

    /// The owner hands over a message to send.
    pub fn send(self, ctx: &mut Context, msg: Rc<Message>) -> (next: PipeState<T>)
        ensures
            exists|sent: Result<(), Error>, received: Result<Message, Error>|
                took(
                    old(ctx)@,
                    final(ctx)@,
                    next@,
                    #[trigger] react(self@, Input::Send, sent, received),
                ),
    {
        let ghost unread: Result<Message, Error> = Err(arbitrary());
        match self {
            PipeState::Initial(s) => {
                let next = s.send(ctx, msg);
                assert(took(old(ctx)@, ctx@, next@, react(self@, Input::Send, Ok(()), unread)));
                next
            },
            PipeState::HandshakeTx(s) => {
                let next = s.send(ctx, msg);
                assert(took(old(ctx)@, ctx@, next@, react(self@, Input::Send, Ok(()), unread)));
                next
            },
            PipeState::HandshakeRx(s) => {
                let next = s.send(ctx, msg);
                assert(took(old(ctx)@, ctx@, next@, react(self@, Input::Send, Ok(()), unread)));
                next
            },
            PipeState::Active(s) => {
                let next = s.send(ctx, msg);
                proof {
                    let sent = choose|res: Result<(), Error>|
                        took(
                            old(ctx)@,
                            ctx@,
                            next@,
                            #[trigger] send_step(
                                s.sending(),
                                s.receiving(),
                                res,
                            ),
                        );
                    assert(took(old(ctx)@, ctx@, next@, react(self@, Input::Send, sent, unread)));
                }
                next
            },
            PipeState::Dead => {
                assert(ctx@ =~= old(ctx)@ + Seq::<PipeCmdView>::empty());
                assert(took(
                    old(ctx)@,
                    ctx@,
                    PipeView::Dead,
                    react(self@, Input::Send, Ok(()), unread),
                ));
                PipeState::Dead
            },
        }
    }

    /// The owner asks for a message.
    pub fn recv(self, ctx: &mut Context) -> (next: PipeState<T>)
        ensures
            exists|sent: Result<(), Error>, received: Result<Message, Error>|
                took(
                    old(ctx)@,
                    final(ctx)@,
                    next@,
                    #[trigger] react(self@, Input::Recv, sent, received),
                ),
    {
        let ghost unread: Result<Message, Error> = Err(arbitrary());
        match self {
            PipeState::Initial(s) => {
                let next = s.recv(ctx);
                assert(took(old(ctx)@, ctx@, next@, react(self@, Input::Recv, Ok(()), unread)));
                next
            },
            PipeState::HandshakeTx(s) => {
                let next = s.recv(ctx);
                assert(took(old(ctx)@, ctx@, next@, react(self@, Input::Recv, Ok(()), unread)));
                next
            },
            PipeState::HandshakeRx(s) => {
                let next = s.recv(ctx);
                assert(took(old(ctx)@, ctx@, next@, react(self@, Input::Recv, Ok(()), unread)));
                next
            },
            PipeState::Active(s) => {
                let next = s.recv(ctx);
                proof {
                    let received = choose|res: Result<Message, Error>|
                        took(
                            old(ctx)@,
                            ctx@,
                            next@,
                            #[trigger] recv_step(
                                s.sending(),
                                s.receiving(),
                                res,
                            ),
                        );
                    assert(took(
                        old(ctx)@,
                        ctx@,
                        next@,
                        react(self@, Input::Recv, Ok(()), received),
                    ));
                }
                next
            },
            PipeState::Dead => {
                assert(ctx@ =~= old(ctx)@ + Seq::<PipeCmdView>::empty());
                assert(took(
                    old(ctx)@,
                    ctx@,
                    PipeView::Dead,
                    react(self@, Input::Recv, Ok(()), unread),
                ));
                PipeState::Dead
            },
        }
    }

    /// The reactor reports the transport ready.
    pub fn ready(self, ctx: &mut Context, events: mio::EventSet) -> (next: PipeState<T>)
        ensures
            exists|sent: Result<(), Error>, received: Result<Message, Error>|
                took(
                    old(ctx)@,
                    final(ctx)@,
                    next@,
                    #[trigger] react(self@, Input::Ready(event_set_bits(events)), sent, received),
                ),
    {
        let ghost unread: Result<Message, Error> = Err(arbitrary());
        let ghost input = Input::Ready(event_set_bits(events));
        match self {
            PipeState::Initial(s) => {
                let next = s.ready(ctx, events);
                assert(took(old(ctx)@, ctx@, next@, react(self@, input, Ok(()), unread)));
                next
            },
            PipeState::HandshakeTx(s) => {
                let next = s.ready(ctx, events);
                proof {
                    let sent = choose|res: Result<(), Error>|
                        took(
                            old(ctx)@,
                            ctx@,
                            next@,
                            #[trigger] tx_ready(
                                s.pids(),
                                event_set_bits(events),
                                res,
                            ),
                        );
                    assert(took(old(ctx)@, ctx@, next@, react(self@, input, sent, unread)));
                }
                next
            },
            PipeState::HandshakeRx(s) => {
                let next = s.ready(ctx, events);
                proof {
                    let res = choose|res: Result<(), Error>|
                        took(
                            old(ctx)@,
                            ctx@,
                            next@,
                            #[trigger] rx_ready(
                                s.pids(),
                                event_set_bits(events),
                                res,
                            ),
                        );
                    let received: Result<Message, Error> = match res {
                        Ok(_) => Ok(arbitrary()),
                        Err(e) => Err(e),
                    };
                    assert(took(old(ctx)@, ctx@, next@, react(self@, input, Ok(()), received)));
                }
                next
            },
            PipeState::Active(s) => {
                let next = s.ready(ctx, events);
                proof {
                    let (sent, received) = choose|
                        sent: Result<(), Error>,
                        received: Result<Message, Error>,
                    |
                        took(
                            old(ctx)@,
                            ctx@,
                            next@,
                            #[trigger] ready_step(
                                s.sending(),
                                s.receiving(),
                                event_set_bits(events),
                                sent,
                                received,
                            ),
                        );
                    assert(took(old(ctx)@, ctx@, next@, react(self@, input, sent, received)));
                }
                next
            },
            PipeState::Dead => {
                assert(ctx@ =~= old(ctx)@ + Seq::<PipeCmdView>::empty());
                assert(took(old(ctx)@, ctx@, PipeView::Dead, react(self@, input, Ok(()), unread)));
                PipeState::Dead
            },
        }
    }
}

} // verus!
