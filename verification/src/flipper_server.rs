//! The capturing side: what to send for each captured screen.

pub mod service;
