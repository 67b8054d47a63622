//! The byte buffer of the `bytes` crate, as the codecs use it.
use bytes::{Buf, BufMut, BytesMut};
use vstd::prelude::*;

verus! {

#[verifier::external_type_specification]
#[verifier::external_body]
pub struct ExBytesMut(BytesMut);

/// The bytes that a `BytesMut` holds, from its read position to its end.
pub uninterp spec fn contents(b: BytesMut) -> Seq<u8>;

/// `BytesMut::new`: an empty buffer.
#[verifier::external_body]
pub(crate) fn buf_new() -> (b: BytesMut)
    ensures
        contents(b) == Seq::<u8>::empty(),
{
    BytesMut::new()
}

/// `BytesMut::from(&[u8])`: a buffer holding a copy of `s`.
#[verifier::external_body]
pub(crate) fn buf_from_slice(s: &[u8]) -> (b: BytesMut)
    ensures
        contents(b) == s@,
{
    BytesMut::from(s)
}

/// `BytesMut::len`: the number of bytes held.
#[verifier::external_body]
pub(crate) fn buf_len(b: &BytesMut) -> (n: usize)
    ensures
        n == contents(*b).len(),
{
    b.len()
}

/// `<BytesMut as AsRef<[u8]>>::as_ref`: the bytes held, as a slice.
#[verifier::external_body]
pub(crate) fn buf_as_slice(b: &BytesMut) -> (s: &[u8])
    ensures
        s@ == contents(*b),
{
    b.as_ref()
}

/// `<Vec<u8> as From<BytesMut>>::from`: the bytes held, as a vector.
#[verifier::external_body]
pub(crate) fn buf_into_vec(b: BytesMut) -> (v: Vec<u8>)
    ensures
        v@ == contents(b),
{
    Vec::from(b)
}

/// `BytesMut::put_slice`: appends `s`. The buffer panics past `isize::MAX` bytes.
#[verifier::external_body]
pub(crate) fn buf_put_slice(b: &mut BytesMut, s: &[u8])
    requires
        contents(*old(b)).len() + s@.len() <= isize::MAX,
    ensures
        contents(*final(b)) == contents(*old(b)) + s@,
{
    b.put_slice(s)
}

/// `BytesMut::put_u8`: appends one byte.
#[verifier::external_body]
pub(crate) fn buf_put_u8(b: &mut BytesMut, x: u8)
    requires
        contents(*old(b)).len() + 1 <= isize::MAX,
    ensures
        contents(*final(b)) == contents(*old(b)).push(x),
{
    b.put_u8(x)
}

/// `BytesMut::put_u64`: appends the eight bytes of `x`, most significant first.
#[verifier::external_body]
pub(crate) fn buf_put_u64(b: &mut BytesMut, x: u64)
    requires
        contents(*old(b)).len() + 8 <= isize::MAX,
    ensures
        contents(*final(b)) == contents(*old(b)) + crate::wire::be_u64_bytes(x),
{
    b.put_u64(x)
}

/// `BytesMut::reserve`: makes room for `n` more bytes; the bytes held do not change.
#[verifier::external_body]
pub(crate) fn buf_reserve(b: &mut BytesMut, n: usize)
    requires
        contents(*old(b)).len() + n <= isize::MAX,
    ensures
        contents(*final(b)) == contents(*old(b)),
{
    b.reserve(n)
}

/// `<BytesMut as Buf>::advance`: drops the first `n` bytes.
#[verifier::external_body]
pub(crate) fn buf_advance(b: &mut BytesMut, n: usize)
    requires
        n <= contents(*old(b)).len(),
    ensures
        contents(*final(b)) == contents(*old(b)).skip(n as int),
{
    b.advance(n)
}

/// `<BytesMut as Buf>::get_u8`: takes the first byte off.
#[verifier::external_body]
pub(crate) fn buf_get_u8(b: &mut BytesMut) -> (x: u8)
    requires
        contents(*old(b)).len() >= 1,
    ensures
        x == contents(*old(b))[0],
        contents(*final(b)) == contents(*old(b)).skip(1),
{
    b.get_u8()
}

/// `<BytesMut as Buf>::get_u64`: takes the first eight bytes off, read most significant first.
#[verifier::external_body]
pub(crate) fn buf_get_u64(b: &mut BytesMut) -> (x: u64)
    requires
        contents(*old(b)).len() >= 8,
    ensures
        x == crate::wire::be_u64_value(contents(*old(b))),
        contents(*final(b)) == contents(*old(b)).skip(8),
{
    b.get_u64()
}

/// `<BytesMut as Buf>::get_i32`: takes the first four bytes off, read as a big-endian `i32`.
#[verifier::external_body]
pub(crate) fn buf_get_i32(b: &mut BytesMut) -> (x: i32)
    requires
        contents(*old(b)).len() >= 4,
    ensures
        x == crate::wire::be_i32_value(contents(*old(b))),
        contents(*final(b)) == contents(*old(b)).skip(4),
{
    b.get_i32()
}

/// `<BytesMut as Buf>::copy_to_slice`: moves the first `dst.len()` bytes into `dst`.
#[verifier::external_body]
pub(crate) fn buf_copy_to_slice(b: &mut BytesMut, dst: &mut Vec<u8>)
    requires
        old(dst)@.len() <= contents(*old(b)).len(),
    ensures
        final(dst)@ == contents(*old(b)).take(old(dst)@.len() as int),
        contents(*final(b)) == contents(*old(b)).skip(old(dst)@.len() as int),
{
    b.copy_to_slice(dst.as_mut_slice())
}

} // verus!
