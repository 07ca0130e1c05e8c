//! The pipe: one connection to one peer, driven through handshake, message
//! exchange and termination by the readiness events of its transport.

pub mod context;
pub mod grammar;
pub mod readiness;
pub mod step_stream;
pub mod stream;
