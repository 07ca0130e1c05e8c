//! Core of a scalability-protocols messaging library: identifiers, messages,
//! the pipe selector, the pipe and protocol state machines and the session
//! router, each with a machine-checked contract.

pub mod endpoint;
pub mod error;
pub mod id_sequence;
pub mod ids;
pub mod message;
pub mod options;
pub mod poll;
pub mod prio_state;
pub mod probe;
pub mod priolist;
pub mod proto;
pub mod session;
pub mod session_model;
pub mod signal;
pub mod socket;
pub mod socket_model;
pub mod socket_type;
pub mod time;
pub mod transport;
pub mod url;
pub mod wire;
