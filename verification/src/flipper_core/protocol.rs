//! The binary protocol of the core messages: a writer and a reader over a byte buffer.
use crate::buf::{buf_copy_to_slice, buf_get_u64, buf_get_u8, buf_len, contents};
use crate::error::ProtocolError;
use crate::protocol::bytes_wire;
use crate::wire::{be_u64_bytes, be_u64_value, lemma_be_u64_roundtrip};
use bytes::BytesMut;
use vstd::prelude::*;

verus! {

/// The writer of the core messages: single bytes, big-endian `u64`s and length-prefixed bytes.
pub type BinaryOutputProtocol = crate::protocol::BinaryProtocol;

/// What reading a big-endian `u64` from `s` gives, and how many bytes it takes.
pub open spec fn parse_u64(s: Seq<u8>) -> (Result<u64, ProtocolError>, int) {
    if s.len() < 8 {
        (Err(ProtocolError::UnexpectedLength), 0)
    } else {
        (Ok(be_u64_value(s)), 8)
    }
}

/// What reading a length-prefixed byte string from `s` gives, and how many bytes it takes.
/// A length that runs past the end fails after the length itself was taken.
pub open spec fn parse_bytes(s: Seq<u8>) -> (Result<Seq<u8>, ProtocolError>, int) {
    if s.len() < 8 {
        (Err(ProtocolError::UnexpectedLength), 0)
    } else if s.len() - 8 < be_u64_value(s) {
        (Err(ProtocolError::UnexpectedLength), 8)
    } else {
        (Ok(s.subrange(8, 8 + be_u64_value(s))), 8 + be_u64_value(s))
    }
}

/// A reader that takes encoded values off the front of the buffer it owns.
pub struct BinaryInputProtocol {
    buf: BytesMut,
}

impl View for BinaryInputProtocol {
    type V = Seq<u8>;

    /// The bytes not read yet.
    closed spec fn view(&self) -> Seq<u8> {
        contents(self.buf)
    }
}

impl BinaryInputProtocol {
    /// A reader of the bytes in `buf`.
    pub fn new(buf: BytesMut) -> (p: Self)
        ensures
            p@ == contents(buf),
    {
        Self { buf }
    }

    /// The buffer, holding the bytes not read yet.
    pub fn into_inner(self) -> (buf: BytesMut)
        ensures
            contents(buf) == self@,
    {
        self.buf
    }

    /// Takes one byte, or fails and takes nothing when the buffer is empty.
    pub fn read_byte(&mut self) -> (r: Result<u8, ProtocolError>)
        ensures
            old(self)@.len() >= 1 ==> r == Ok::<u8, ProtocolError>(old(self)@[0]) && final(self)@
                == old(self)@.skip(1),
            old(self)@.len() < 1 ==> r == Err::<u8, ProtocolError>(ProtocolError::UnexpectedLength)
                && final(self)@ == old(self)@,
    {
        if buf_len(&self.buf) < 1 {
            return Err(ProtocolError::UnexpectedLength);
        }
        Ok(buf_get_u8(&mut self.buf))
    }

    /// Takes a big-endian `u64`, or fails and takes nothing when fewer than eight bytes remain.
    pub fn read_u64(&mut self) -> (r: Result<u64, ProtocolError>)
        ensures
            r == parse_u64(old(self)@).0,
            final(self)@ == old(self)@.skip(parse_u64(old(self)@).1),
    {
        if buf_len(&self.buf) < 8 {
            assert(self@.skip(0) =~= self@);
            return Err(ProtocolError::UnexpectedLength);
        }
        Ok(buf_get_u64(&mut self.buf))
    }

    /// Takes a big-endian `u64` length and then that many bytes.
    pub fn read_bytes(&mut self) -> (r: Result<Vec<u8>, ProtocolError>)
        ensures
            parse_bytes(old(self)@).0 matches Ok(b) ==> r matches Ok(v) && v@ == b,
            parse_bytes(old(self)@).0 matches Err(e) ==> r == Err::<Vec<u8>, ProtocolError>(e),
            final(self)@ == old(self)@.skip(parse_bytes(old(self)@).1),
    {
        let n = match self.read_u64() {
            Ok(n) => n,
            Err(e) => return Err(e),
        };
        let remaining = buf_len(&self.buf);
        if (remaining as u64) < n {
            return Err(ProtocolError::UnexpectedLength);
        }
        let mut output: Vec<u8> = vec![0u8; n as usize];
        buf_copy_to_slice(&mut self.buf, &mut output);
        proof {
            let s = old(self)@;
            assert(s.skip(8).take(n as int) =~= s.subrange(8, 8 + n));
            assert(s.skip(8).skip(n as int) =~= s.skip(8 + n));
        }
        Ok(output)
    }
}

/// Reading a `u64` from its big-endian bytes gives it back and takes those eight bytes.
pub proof fn lemma_u64_roundtrip(x: u64, rest: Seq<u8>)
    ensures
        parse_u64(be_u64_bytes(x) + rest) == (Ok::<u64, ProtocolError>(x), 8int),
{
    lemma_be_u64_roundtrip(x, rest);
}

/// Reading a byte string from what the writer's `write_bytes` appends for it gives it back and
/// takes exactly those bytes.
pub proof fn lemma_bytes_roundtrip(b: Seq<u8>, rest: Seq<u8>)
    requires
        b.len() <= u64::MAX,
    ensures
        parse_bytes(bytes_wire(b) + rest) == (Ok::<Seq<u8>, ProtocolError>(b), bytes_wire(
            b,
        ).len() as int),
{
    let s = bytes_wire(b) + rest;
    assert(s =~= be_u64_bytes(b.len() as u64) + (b + rest));
    lemma_be_u64_roundtrip(b.len() as u64, b + rest);
    assert(s.subrange(8, 8 + b.len() as int) =~= b);
}

} // verus!
