//! Wire formats, codecs and frame-delta logic of the Flipper remote desktop.
//!
//! `message`, `protocol` and `codec` hold the desk's own message layer; `flipper_core` the
//! messages, binary protocol, framed codec and frame utilities that both ends share;
//! `flipper_server` and `flipper_client` the decisions of the capturing and the viewing end.
//! `buf` states what the codecs rely on from the `bytes` buffer, `wire` the big-endian forms.

pub mod buf;
pub mod codec;
pub mod error;
pub mod flipper_client;
pub mod flipper_core;
pub mod flipper_server;
pub mod message;
pub mod protocol;
pub mod wire;
