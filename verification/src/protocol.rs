//! The binary writer: bytes, single bytes and big-endian `u64`s appended to a buffer.
use crate::buf::{buf_put_slice, buf_put_u64, buf_put_u8, contents};
use crate::error::ProtocolError;
use crate::wire::be_u64_bytes;
use bytes::BytesMut;
use vstd::prelude::*;

verus! {

/// A writer that appends encoded values to the buffer it owns.
pub struct BinaryProtocol {
    buf: BytesMut,
}

impl View for BinaryProtocol {
    type V = Seq<u8>;

    /// The bytes written so far, after what the buffer held at the start.
    closed spec fn view(&self) -> Seq<u8> {
        contents(self.buf)
    }
}

/// The wire form of a byte string: its length in eight big-endian bytes, then the bytes.
pub open spec fn bytes_wire(b: Seq<u8>) -> Seq<u8> {
    be_u64_bytes(b.len() as u64) + b
}

impl BinaryProtocol {
    /// A writer that appends to `buf`.
    pub fn new(buf: BytesMut) -> (p: Self)
        ensures
            p@ == contents(buf),
    {
        Self { buf }
    }

    /// The buffer, with everything written to it.
    pub fn into_inner(self) -> (buf: BytesMut)
        ensures
            contents(buf) == self@,
    {
        self.buf
    }

    /// Writes the length of `b` as a big-endian `u64`, then `b` itself.
    pub fn write_bytes(&mut self, b: &[u8]) -> (r: Result<(), ProtocolError>)
        requires
            old(self)@.len() + 8 + b@.len() <= isize::MAX,
        ensures
            r is Ok,
            final(self)@ == old(self)@ + bytes_wire(b@),
    {
        let _ = self.write_u64(b.len() as u64);
        buf_put_slice(&mut self.buf, b);
        assert(self@ =~= old(self)@ + bytes_wire(b@));
        Ok(())
    }

    /// Writes one byte.
    pub fn write_byte(&mut self, b: u8) -> (r: Result<(), ProtocolError>)
        requires
            old(self)@.len() + 1 <= isize::MAX,
        ensures
            r is Ok,
            final(self)@ == old(self)@.push(b),
    {
        buf_put_u8(&mut self.buf, b);
        Ok(())
    }

    /// Writes `i` as eight big-endian bytes.
    pub fn write_u64(&mut self, i: u64) -> (r: Result<(), ProtocolError>)
        requires
            old(self)@.len() + 8 <= isize::MAX,
        ensures
            r is Ok,
            final(self)@ == old(self)@ + be_u64_bytes(i),
    {
        buf_put_u64(&mut self.buf, i);
        Ok(())
    }
}

} // verus!
