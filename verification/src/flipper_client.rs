//! The viewing side: its message layer, its binary reader and the decisions of the viewer.

pub mod message;
pub mod protocol;
pub mod services;
