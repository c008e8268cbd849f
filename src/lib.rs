//! Client side of the dynamic launcher desktop portal: handle tokens, the
//! encoding of call arguments and replies, and the tracking of interactive
//! requests until their completion signal arrives.
pub mod token;
pub mod wire;
pub mod launcher;
pub mod options;
pub mod request;
pub mod proxy;
