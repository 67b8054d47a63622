//! Errors of the library.
use vstd::prelude::*;

verus! {

/// Why reading or decoding a message failed.
#[derive(Debug, Clone, Copy, PartialEq, Eq, Structural)]
pub enum ProtocolError {
    /// Fewer bytes remain than the next field needs.
    UnexpectedLength,
    /// The message type byte names no message that can be decoded.
    WrongMessageType,
    /// A byte names no message kind at all.
    UnknownMessageType,
    /// The inner codec produced nothing although a whole frame was there.
    IncompleteFrame,
}

/// Why compressing or decompressing failed.
#[derive(Debug, Clone, Copy, PartialEq, Eq, Structural)]
pub enum CompressionError {
    /// The zlib encoder reported an error.
    Compress,
    /// The input is no complete zlib stream.
    Decompress,
}

/// Why the viewer could not show a received frame.
#[derive(Debug, Clone, Copy, PartialEq, Eq, Structural)]
pub enum ReceiveError {
    /// The frame is no complete zlib stream.
    Decompress,
    /// The screen does not hold every pixel of the configured image.
    ImageLayout,
}

} // verus!
