//! The message layer of the viewer: message kinds and the screen configuration.
use crate::error::ProtocolError;
use crate::wire::{
    be_digits, be_u64_bytes, be_u64_value, lemma_be_u64_roundtrip, lemma_three_be_u64_digits,
    push_be_u64, read_be_u64,
};
use vstd::prelude::*;
use vstd::std_specs::convert::{FromSpecImpl, TryFromSpecImpl};

verus! {

/// The kinds of message that travel between the two ends.
#[derive(Debug, Clone, Copy, PartialEq, Eq, Structural)]
pub enum Message {
    Config,
    Frame,
    Audio,
}

/// The byte that stands for a message kind on the wire.
pub open spec fn message_byte(m: Message) -> u8 {
    match m {
        Message::Config => 0x00u8,
        Message::Frame => 0x01u8,
        Message::Audio => 0x02u8,
    }
}

/// The message kind that a byte stands for, if any.
pub open spec fn message_from_byte(b: u8) -> Result<Message, ()> {
    if b == 0x00 {
        Ok(Message::Config)
    } else if b == 0x01 {
        Ok(Message::Frame)
    } else if b == 0x02 {
        Ok(Message::Audio)
    } else {
        Err(())
    }
}

impl From<Message> for u8 {
    fn from(message_type: Message) -> (b: u8) {
        match message_type {
            Message::Config => 0x00,
            Message::Frame => 0x01,
            Message::Audio => 0x02,
        }
    }
}

impl FromSpecImpl<Message> for u8 {
    open spec fn obeys_from_spec() -> bool {
        true
    }

    open spec fn from_spec(message_type: Message) -> u8 {
        message_byte(message_type)
    }
}

impl TryFrom<u8> for Message {
    type Error = ();

    fn try_from(value: u8) -> (r: Result<Self, Self::Error>) {
        match value {
            0x00 => Ok(Message::Config),
            0x01 => Ok(Message::Frame),
            0x02 => Ok(Message::Audio),
            _ => Err(()),
        }
    }
}

impl TryFromSpecImpl<u8> for Message {
    open spec fn obeys_try_from_spec() -> bool {
        true
    }

    open spec fn try_from_spec(value: u8) -> Result<Self, Self::Error> {
        message_from_byte(value)
    }
}

/// Each kind's byte reads back as that kind, and exactly the bytes 0, 1 and 2 stand for a kind.
pub proof fn lemma_message_byte_roundtrip(m: Message, b: u8)
    ensures
        message_from_byte(message_byte(m)) == Ok::<Message, ()>(m),
        message_from_byte(b) is Ok <==> b <= 2,
        message_from_byte(b) matches Ok(k) ==> message_byte(k) == b,
{
}

/// The screen configuration that opens a session: the geometry and the size of one frame.
pub struct Config {
    pub width: u64,
    pub height: u64,
    pub frame_size: u64,
}

/// The wire form of a screen configuration: its three fields, each in eight big-endian bytes.
pub open spec fn config_be_bytes(width: u64, height: u64, frame_size: u64) -> Seq<u8> {
    be_u64_bytes(width) + be_u64_bytes(height) + be_u64_bytes(frame_size)
}

/// The fields that three successive eight-byte reads from `s` give, when `s` holds at least
/// 24 bytes.
pub open spec fn config_fields_read(s: Seq<u8>) -> (u64, u64, u64) {
    (be_u64_value(s), be_u64_value(s.skip(8)), be_u64_value(s.skip(16)))
}

impl Config {
    pub fn new(width: u64, height: u64, frame_size: u64) -> (c: Self)
        ensures
            c.width == width,
            c.height == height,
            c.frame_size == frame_size,
    {
        Self { width, height, frame_size }
    }

    /// The three fields, each in eight big-endian bytes.
    pub fn to_be_bytes(&self) -> (bytes: Vec<u8>)
        ensures
            bytes@ == config_be_bytes(self.width, self.height, self.frame_size),
            bytes@.len() == 24,
            be_digits(bytes@, 0) == self.width,
            be_digits(bytes@, 8) == self.height,
            be_digits(bytes@, 16) == self.frame_size,
    {
        proof {
            lemma_three_be_u64_digits(self.width, self.height, self.frame_size);
        }
        let mut bytes: Vec<u8> = Vec::new();
        push_be_u64(&mut bytes, self.width);
        push_be_u64(&mut bytes, self.height);
        push_be_u64(&mut bytes, self.frame_size);
        assert(bytes@ =~= config_be_bytes(self.width, self.height, self.frame_size));
        bytes
    }

    /// Reads the three fields from `buf`, eight big-endian bytes each. It never fails; from a
    /// buffer shorter than 24 bytes, the fields that could not be read are unspecified.
    pub fn from_be_bytes(buf: &[u8]) -> (r: Result<Self, ProtocolError>)
        ensures
            r is Ok,
            buf@.len() >= 24 ==> (r matches Ok(c) && (c.width, c.height, c.frame_size)
                == config_fields_read(buf@)),
    {
        let n = buf.len();
        let mut width: u64 = 0;
        let mut height: u64 = 0;
        let mut frame_size: u64 = 0;
        if n >= 8 {
            width = read_be_u64(buf, 0);
            assert(buf@.skip(0) =~= buf@);
            height = width;
            frame_size = width;
            if n >= 16 {
                height = read_be_u64(buf, 8);
                frame_size = height;
                if n >= 24 {
                    frame_size = read_be_u64(buf, 16);
                }
            }
        }
        Ok(Self { width, height, frame_size })
    }
}

/// Reading back the bytes of a configuration gives that configuration.
pub proof fn lemma_config_bytes_roundtrip(width: u64, height: u64, frame_size: u64)
    ensures
        config_fields_read(config_be_bytes(width, height, frame_size)) == (width, height, frame_size),
{
    let s = config_be_bytes(width, height, frame_size);
    assert(s =~= be_u64_bytes(width) + (be_u64_bytes(height) + be_u64_bytes(frame_size)));
    lemma_be_u64_roundtrip(width, be_u64_bytes(height) + be_u64_bytes(frame_size));
    assert(s.skip(8) =~= be_u64_bytes(height) + be_u64_bytes(frame_size));
    lemma_be_u64_roundtrip(height, be_u64_bytes(frame_size));
    assert(s.skip(16) =~= be_u64_bytes(frame_size) + Seq::<u8>::empty());
    lemma_be_u64_roundtrip(frame_size, Seq::<u8>::empty());
}

} // verus!
