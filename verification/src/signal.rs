//! What travels to the reactor and back: the commands of the user, the
//! events of endpoints and pipes, the timers, and the notifications of the
//! session.

use vstd::prelude::*;
use crate::error::Error;
use crate::ids::{EndpointId, ProbeId, SocketId};
use crate::message::Message;
use crate::options::SocketOption;
use crate::socket_type::SocketType;
use crate::transport::context::PipeEvt;

verus! {

/// A command to the session itself.
#[derive(Debug, PartialEq, Eq, Clone)]
pub enum SessionCmdSignal {
    CreateSocket(SocketType),
    DestroySocket(SocketId),
    CreateProbe(SocketId, SocketId),
    DestroyProbe(ProbeId),
    Shutdown,
}

/// A command to one socket.
#[derive(Debug, PartialEq, Eq, Clone)]
pub enum SocketCmdSignal {
    Connect(String),
    Bind(String),
    Shutdown(EndpointId),
    SendMsg(Message),
    RecvMsg,
    SetOption(SocketOption),
}

/// A command to one probe.
#[derive(Debug, PartialEq, Eq, Clone)]
pub enum ProbeCmdSignal {
    PollReadable,
}

/// A command of the user.
#[derive(Debug, PartialEq, Eq, Clone)]
pub enum CmdSignal {
    Session(SessionCmdSignal),
    Socket(SocketId, SocketCmdSignal),
    Probe(ProbeId, ProbeCmdSignal),
}

/// What an endpoint tells its socket.
#[derive(Debug, PartialEq, Eq, Clone)]
pub enum SocketEvtSignal {
    /// A connection was made: the socket has a new pipe.
    PipeAdded(EndpointId),
    /// A listener was opened.
    AcceptorAdded(EndpointId),
    /// The socket has a message for the user.
    Readable,
}

/// An event from inside the reactor.
#[derive(Debug, PartialEq, Eq, Clone)]
pub enum EvtSignal {
    Socket(SocketId, SocketEvtSignal),
    Pipe(EndpointId, PipeEvt),
}

/// A message on the command channel.
#[derive(Debug, PartialEq, Eq, Clone)]
pub enum EventLoopSignal {
    Cmd(CmdSignal),
    Evt(EvtSignal),
}

/// What a timer stands for.
#[derive(Debug, PartialEq, Eq, Clone)]
pub enum EventLoopTimeout {
    Reconnect(EndpointId, String),
    Rebind(EndpointId, String),
    CancelSend(SocketId),
    CancelRecv(SocketId),
    CancelSurvey(SocketId),
    Resend(SocketId),
}

/// What the session tells the user.
#[derive(Debug, PartialEq, Eq, Clone)]
pub enum SessionNotify {
    SocketCreated(SocketId),
    SocketNotCreated(Error),
    ProbeCreated(ProbeId),
    ProbeNotCreated(Error),
}

} // verus!
