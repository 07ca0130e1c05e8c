//! The states of a pipe, and the steps between them.

pub mod active;
pub mod handshake;
pub mod initial;
pub mod model;
pub mod state;
