//! The binary reader of the viewer: single bytes, big-endian `i32`s and byte strings with an
//! `i32` length in front.
use crate::buf::{buf_as_slice, buf_copy_to_slice, buf_get_i32, buf_get_u8, buf_len, contents};
use crate::error::ProtocolError;
use crate::wire::{be_i32_value, be_u32_value};
use bytes::BytesMut;
use vstd::prelude::*;

verus! {

/// A reader that takes encoded values off the front of the buffer it owns.
pub struct BinaryProtocol {
    buf: BytesMut,
}

impl View for BinaryProtocol {
    type V = Seq<u8>;

    /// The bytes not read yet.
    closed spec fn view(&self) -> Seq<u8> {
        contents(self.buf)
    }
}

/// What reading a byte string with a big-endian `i32` length from `s` gives, and how many
/// bytes it takes. A length that runs past the end fails after the length itself was taken.
pub open spec fn parse_i32_bytes(s: Seq<u8>) -> (Result<Seq<u8>, ProtocolError>, int) {
    if s.len() < 4 {
        (Err(ProtocolError::UnexpectedLength), 0)
    } else if s.len() - 4 < be_i32_value(s) {
        (Err(ProtocolError::UnexpectedLength), 4)
    } else {
        (Ok(s.subrange(4, 4 + be_i32_value(s))), 4 + be_i32_value(s))
    }
}

/// Whether the length in front of `s`, if there is one, is not negative.
pub open spec fn length_not_negative(s: Seq<u8>) -> bool {
    s.len() >= 4 ==> be_i32_value(s) >= 0
}

/// Fails unless `buf` holds at least `required_len` bytes.
fn protocol_len_check(buf: &BytesMut, required_len: usize) -> (r: Result<(), ProtocolError>)
    ensures
        r is Ok <==> contents(*buf).len() >= required_len,
        r matches Err(e) ==> e == ProtocolError::UnexpectedLength,
{
    if buf_len(buf) >= required_len {
        return Ok(());
    }
    Err(ProtocolError::UnexpectedLength)
}

impl BinaryProtocol {
    /// A reader of the bytes in `buf`.
    pub fn new(buf: BytesMut) -> (p: Self)
        ensures
            p@ == contents(buf),
    {
        Self { buf }
    }

    /// Whether the length in front of the unread bytes, if there is one, is not negative.
    pub fn length_ahead_valid(&self) -> (b: bool)
        ensures
            b == length_not_negative(self@),
    {
        if buf_len(&self.buf) < 4 {
            return true;
        }
        let s = buf_as_slice(&self.buf);
        let x: u32 = ((s[0] as u32) << 24u32) | ((s[1] as u32) << 16u32) | ((s[2] as u32) << 8u32)
            | (s[3] as u32);
        assert(x == be_u32_value(self@));
        (x as i32) >= 0
    }

    /// Takes a big-endian `i32` length and then that many bytes. A negative length is left
    /// out: the buffer for it cannot be allocated.
    pub fn read_bytes(&mut self) -> (r: Result<Vec<u8>, ProtocolError>)
        requires
            length_not_negative(old(self)@),
        ensures
            parse_i32_bytes(old(self)@).0 matches Ok(b) ==> r matches Ok(v) && v@ == b,
            parse_i32_bytes(old(self)@).0 matches Err(e) ==> r == Err::<Vec<u8>, ProtocolError>(e),
            final(self)@ == old(self)@.skip(parse_i32_bytes(old(self)@).1),
    {
        let ghost s = self@;
        match protocol_len_check(&self.buf, 4) {
            Ok(()) => {},
            Err(e) => {
                assert(s.skip(0) =~= s);
                return Err(e);
            },
        }
        let num_bytes = buf_get_i32(&mut self.buf) as usize;
        match protocol_len_check(&self.buf, num_bytes) {
            Ok(()) => {},
            Err(e) => return Err(e),
        }
        let mut output: Vec<u8> = vec![0u8; num_bytes];
        buf_copy_to_slice(&mut self.buf, &mut output);
        proof {
            let n = be_i32_value(s) as int;
            assert(s.skip(4).take(n) =~= s.subrange(4, 4 + n));
            assert(s.skip(4).skip(n) =~= s.skip(4 + n));
        }
        Ok(output)
    }

    /// Takes one byte, or fails and takes nothing when the buffer is empty.
    pub fn read_byte(&mut self) -> (r: Result<u8, ProtocolError>)
        ensures
            old(self)@.len() >= 1 ==> r == Ok::<u8, ProtocolError>(old(self)@[0]),
            old(self)@.len() >= 1 ==> final(self)@ == old(self)@.skip(1),
            old(self)@.len() < 1 ==> r == Err::<u8, ProtocolError>(ProtocolError::UnexpectedLength),
            old(self)@.len() < 1 ==> final(self)@ == old(self)@,
    {
        match protocol_len_check(&self.buf, 1) {
            Ok(()) => {},
            Err(e) => return Err(e),
        }
        Ok(buf_get_u8(&mut self.buf))
    }

    /// Takes a big-endian `i32`, or fails and takes nothing when fewer than four bytes remain.
    pub fn read_i32(&mut self) -> (r: Result<i32, ProtocolError>)
        ensures
            old(self)@.len() >= 4 ==> r == Ok::<i32, ProtocolError>(be_i32_value(old(self)@)),
            old(self)@.len() >= 4 ==> final(self)@ == old(self)@.skip(4),
            old(self)@.len() < 4 ==> r == Err::<i32, ProtocolError>(ProtocolError::UnexpectedLength),
            old(self)@.len() < 4 ==> final(self)@ == old(self)@,
    {
        match protocol_len_check(&self.buf, 4) {
            Ok(()) => {},
            Err(e) => return Err(e),
        }
        Ok(buf_get_i32(&mut self.buf))
    }
}

/// Reading a byte string back from its length `n` in four big-endian bytes (`n` equal to
/// `h0 * 2^24 + h1 * 2^16 + h2 * 2^8 + h3`) followed by the bytes, whatever comes after them, gives
/// the bytes and takes exactly `4 + n` bytes; such a length is never negative.
pub proof fn lemma_i32_bytes_roundtrip(h0: u8, h1: u8, h2: u8, h3: u8, b: Seq<u8>, rest: Seq<u8>)
    requires
        b.len() <= i32::MAX,
        b.len() == h0 * 0x1000000 + h1 * 0x10000 + h2 * 0x100 + h3,
    ensures
        length_not_negative(seq![h0, h1, h2, h3] + b + rest),
        parse_i32_bytes(seq![h0, h1, h2, h3] + b + rest) == (Ok::<Seq<u8>, ProtocolError>(b), 4
            + b.len() as int),
{
    let s = seq![h0, h1, h2, h3] + b + rest;
    assert(s[0] == h0 && s[1] == h1 && s[2] == h2 && s[3] == h3);
    let n: u32 = ((h0 as u32) << 24u32) | ((h1 as u32) << 16u32) | ((h2 as u32) << 8u32) | (
    h3 as u32);
    assert(((h0 as u32) << 24u32) | ((h1 as u32) << 16u32) | ((h2 as u32) << 8u32) | (h3 as u32)
        == h0 as u32 * 0x1000000 + h1 as u32 * 0x10000 + h2 as u32 * 0x100 + h3 as u32)
        by (bit_vector);
    assert(n <= 0x7fff_ffff ==> n as i32 == n) by (bit_vector);
    assert(be_u32_value(s) == n);
    assert(s.subrange(4, 4 + b.len() as int) =~= b);
}

} // verus!
