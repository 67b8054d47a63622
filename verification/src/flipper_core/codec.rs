//! The message codec and the length-framed codec around it.
use crate::buf::{
    buf_advance, buf_as_slice, buf_len, buf_new, buf_put_slice, buf_put_u64, buf_reserve, contents,
};
use crate::error::ProtocolError;
use crate::flipper_core::message::{
    entry_wire, lemma_entry_roundtrip, parse_entry, EntryModel, Message, MessageEntry,
};
use crate::flipper_core::protocol::{BinaryInputProtocol, BinaryOutputProtocol};
use crate::wire::{be_u64_bytes, be_u64_value, lemma_be_u64_prefix, lemma_be_u64_roundtrip, read_be_u64};
use bytes::BytesMut;
use vstd::prelude::*;

verus! {

/// Encodes a message into, and decodes one from, a byte buffer.
#[derive(Default)]
pub struct MessageCodec;

/// What decoding a message from a buffer holding `s` gives, and how many bytes it takes.
pub open spec fn parse_message(s: Seq<u8>) -> (Result<Option<EntryModel>, ProtocolError>, int) {
    let (r, k) = parse_entry(s);
    (
        match r {
            Ok(m) => Ok(Some(m)),
            Err(e) => Err(e),
        },
        k,
    )
}

impl MessageCodec {
    /// Appends the wire form of `item` to `dst`.
    pub fn encode(&mut self, item: MessageEntry, dst: &mut BytesMut) -> (r: Result<(), ProtocolError>)
        requires
            contents(*old(dst)).len() + entry_wire(item@).len() <= isize::MAX,
        ensures
            r is Ok,
            contents(*final(dst)) == contents(*old(dst)) + entry_wire(item@),
    {
        let mut taken = buf_new();
        std::mem::swap(&mut taken, dst);
        let mut protocol = BinaryOutputProtocol::new(taken);
        let r = item.encode(&mut protocol);
        *dst = protocol.into_inner();
        r
    }

    /// Decodes one message off the front of `src`; on success the result is never `None`.
    pub fn decode(&mut self, src: &mut BytesMut) -> (r: Result<Option<MessageEntry>, ProtocolError>)
        ensures
            contents(*final(src)) == contents(*old(src)).skip(parse_message(contents(*old(src))).1),
            parse_message(contents(*old(src))).0 is Ok <==> r is Ok,
            r matches Ok(Some(m)) ==> parse_message(contents(*old(src))).0 == Ok::<
                Option<EntryModel>,
                ProtocolError,
            >(Some(m@)),
            r matches Err(e) ==> parse_message(contents(*old(src))).0 == Err::<
                Option<EntryModel>,
                ProtocolError,
            >(e),
            !(r matches Ok(None)),
    {
        let mut taken = buf_new();
        std::mem::swap(&mut taken, src);
        let mut protocol = BinaryInputProtocol::new(taken);
        let entry = MessageEntry::decode(&mut protocol);
        *src = protocol.into_inner();
        match entry {
            Ok(entry) => Ok(Some(entry)),
            Err(e) => Err(e),
        }
    }
}

/// A codec that puts the length of each encoded message in eight big-endian bytes before it.
pub struct FramedCodec<C>(C);

impl<C> FramedCodec<C> {
    /// The codec that encodes and decodes what is inside each frame.
    pub closed spec fn inner(&self) -> C {
        self.0
    }

    pub fn new(c: C) -> (f: Self)
        ensures
            f.inner() == c,
    {
        FramedCodec(c)
    }
}

/// The framed wire form of a message: the length of its wire form, then the wire form.
pub open spec fn framed_wire(m: EntryModel) -> Seq<u8> {
    be_u64_bytes(entry_wire(m).len() as u64) + entry_wire(m)
}

/// What framed decoding gives on a buffer holding `s`, and how many bytes it takes: nothing and
/// no bytes while the length or the frame it announces is incomplete, else the message decoded
/// from the bytes after the length.
pub open spec fn parse_framed(s: Seq<u8>) -> (Result<Option<EntryModel>, ProtocolError>, int) {
    if s.len() < 8 {
        (Ok(None), 0)
    } else if s.len() - 8 < be_u64_value(s) {
        (Ok(None), 0)
    } else {
        let (r, k) = parse_message(s.skip(8));
        (r, 8 + k)
    }
}

/// Whether the length announced at the front of `s`, if any, leaves room for its frame in a
/// buffer of at most `isize::MAX` bytes.
pub open spec fn frame_length_fits(s: Seq<u8>) -> bool {
    s.len() >= 8 ==> be_u64_value(s) <= isize::MAX - 8
}

impl FramedCodec<MessageCodec> {
    /// Whether `dst` has room for the framed wire form of `item`.
    pub fn has_room(item: &MessageEntry, dst: &BytesMut) -> (b: bool)
        ensures
            b == (contents(*dst).len() + 8 + entry_wire(item@).len() <= isize::MAX),
    {
        let body: usize = match item {
            MessageEntry::Config(_) => 25,
            MessageEntry::Frame(f) => {
                if f.0.len() > usize::MAX - 9 {
                    return false;
                }
                9 + f.0.len()
            },
        };
        let len = buf_len(dst);
        assert(body == entry_wire(item@).len());
        len <= isize::MAX as usize && body <= isize::MAX as usize - len && 8 <= isize::MAX as usize
            - len - body
    }

    /// Whether the length at the front of `src`, if any, can be decoded.
    pub fn length_fits(src: &BytesMut) -> (b: bool)
        ensures
            b == frame_length_fits(contents(*src)),
    {
        if buf_len(src) < 8 {
            return true;
        }
        let length = read_be_u64(buf_as_slice(src), 0);
        assert(contents(*src).skip(0) =~= contents(*src));
        length <= (isize::MAX as u64) - 8
    }

    /// Appends the framed wire form of `item` to `dst`.
    pub fn encode(&mut self, item: MessageEntry, dst: &mut BytesMut) -> (r: Result<(), ProtocolError>)
        requires
            contents(*old(dst)).len() + 8 + entry_wire(item@).len() <= isize::MAX,
        ensures
            r is Ok,
            contents(*final(dst)) == contents(*old(dst)) + framed_wire(item@),
    {
        let ghost m = item@;
        let mut inner = buf_new();
        let r = self.0.encode(item, &mut inner);
        let written = buf_len(&inner);
        buf_put_u64(dst, written as u64);
        buf_put_slice(dst, buf_as_slice(&inner));
        assert(contents(*dst) =~= contents(*old(dst)) + framed_wire(m));
        r
    }

    /// Decodes one framed message off the front of `src`, or gives `None` and leaves `src` as
    /// it was while the frame is incomplete.
    pub fn decode(&mut self, src: &mut BytesMut) -> (r: Result<Option<MessageEntry>, ProtocolError>)
        requires
            frame_length_fits(contents(*old(src))),
        ensures
            contents(*final(src)) == contents(*old(src)).skip(parse_framed(contents(*old(src))).1),
            parse_framed(contents(*old(src))).0 is Ok <==> r is Ok,
            r matches Ok(Some(m)) ==> parse_framed(contents(*old(src))).0 == Ok::<
                Option<EntryModel>,
                ProtocolError,
            >(Some(m@)),
            r matches Ok(None) ==> parse_framed(contents(*old(src))).0 == Ok::<
                Option<EntryModel>,
                ProtocolError,
            >(None),
            r matches Err(e) ==> parse_framed(contents(*old(src))).0 == Err::<
                Option<EntryModel>,
                ProtocolError,
            >(e),
    {
        let ghost s = contents(*src);
        let len = buf_len(src);
        if len < 8 {
            assert(s.skip(0) =~= s);
            return Ok(None);
        }
        let length = read_be_u64(buf_as_slice(src), 0);
        assert(s.skip(0) =~= s);
        let length = length as usize;
        if len - 8 < length {
            buf_reserve(src, 8 + length - len);
            return Ok(None);
        }
        buf_advance(src, 8);
        let decoded = self.0.decode(src);
        assert(s.skip(8).skip(parse_message(s.skip(8)).1) =~= s.skip(8 + parse_message(s.skip(8)).1));
        match decoded {
            Ok(None) => Err(ProtocolError::IncompleteFrame),
            Ok(Some(inner)) => Ok(Some(inner)),
            Err(e) => Err(e),
        }
    }
}

/// Framed decoding of the framed wire form of a message gives back that message and takes
/// exactly its framed wire form, whatever bytes follow it.
pub proof fn lemma_framed_roundtrip(m: EntryModel, rest: Seq<u8>)
    requires
        m matches EntryModel::Frame(d) ==> d.len() <= u64::MAX,
        entry_wire(m).len() <= u64::MAX,
    ensures
        parse_framed(framed_wire(m) + rest) == (Ok::<Option<EntryModel>, ProtocolError>(
            Some(m),
        ), framed_wire(m).len() as int),
{
    let s = framed_wire(m) + rest;
    assert(s =~= be_u64_bytes(entry_wire(m).len() as u64) + (entry_wire(m) + rest));
    lemma_be_u64_roundtrip(entry_wire(m).len() as u64, entry_wire(m) + rest);
    assert(s.skip(8) =~= entry_wire(m) + rest);
    lemma_entry_roundtrip(m, rest);
}

/// Every proper prefix of a framed wire form decodes to nothing and takes no bytes: a partial
/// frame waits for the rest.
pub proof fn lemma_framed_partial(m: EntryModel, n: int)
    requires
        entry_wire(m).len() <= u64::MAX,
        0 <= n < framed_wire(m).len(),
    ensures
        parse_framed(framed_wire(m).take(n)) == (Ok::<Option<EntryModel>, ProtocolError>(None), 0int),
{
    let w = framed_wire(m);
    let p = w.take(n);
    if n >= 8 {
        lemma_be_u64_roundtrip(entry_wire(m).len() as u64, entry_wire(m));
        assert(p.take(8) =~= w.take(8));
        lemma_be_u64_prefix(p, w);
    }
}

/// The bytes of the messages `ms` framed one after another, in order.
pub open spec fn framed_stream(ms: Seq<EntryModel>) -> Seq<u8>
    decreases ms.len(),
{
    if ms.len() == 0 {
        Seq::empty()
    } else {
        framed_wire(ms[0]) + framed_stream(ms.drop_first())
    }
}

/// The messages that `n` successive framed decodings of a buffer holding `s` give, up to the
/// first that gives no message.
pub open spec fn decode_frames(s: Seq<u8>, n: nat) -> Seq<EntryModel>
    decreases n,
{
    if n == 0 {
        Seq::empty()
    } else {
        match parse_framed(s).0 {
            Ok(Some(m)) => seq![m] + decode_frames(s.skip(parse_framed(s).1), (n - 1) as nat),
            _ => Seq::empty(),
        }
    }
}

/// Messages framed one after another decode back in the order they were framed, whatever bytes
/// follow them.
pub proof fn lemma_framed_in_order(ms: Seq<EntryModel>, rest: Seq<u8>)
    requires
        forall|i: int| 0 <= i < ms.len() ==> entry_wire(#[trigger] ms[i]).len() <= u64::MAX,
    ensures
        decode_frames(framed_stream(ms) + rest, ms.len()) == ms,
    decreases ms.len(),
{
    if ms.len() > 0 {
        let m = ms[0];
        let tail = ms.drop_first();
        assert forall|i: int| 0 <= i < tail.len() implies entry_wire(#[trigger] tail[i]).len()
            <= u64::MAX by {
            assert(tail[i] == ms[i + 1]);
        }
        lemma_framed_in_order(tail, rest);
        let after = framed_stream(tail) + rest;
        let s = framed_stream(ms) + rest;
        assert(s =~= framed_wire(m) + after);
        assert(entry_wire(m).len() <= u64::MAX);
        assert(m matches EntryModel::Frame(d) ==> d.len() <= u64::MAX);
        lemma_framed_roundtrip(m, after);
        assert(s.skip(framed_wire(m).len() as int) =~= after);
        assert(decode_frames(s, ms.len()) =~= seq![m] + tail);
        assert(seq![m] + tail =~= ms);
    }
}

} // verus!
