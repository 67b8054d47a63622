//! The shared core: messages, their binary protocol, the framed codec and frame utilities.

pub mod codec;
pub mod message;
pub mod protocol;
pub mod utils;
