//! The protocols: what each messaging pattern does with the pipes of its
//! socket when the user sends and receives.

pub mod context;
pub mod pair;
pub mod pipe;
pub mod policy;
pub mod protocol;
pub mod publ;
pub mod pull;
pub mod push;
pub mod sub;
