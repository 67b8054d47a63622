//! The message layer of the desk: message kinds and the screen configuration.
use crate::wire::{be_digits, be_u64_bytes, lemma_three_be_u64_digits, push_be_u64};
use vstd::prelude::*;
use vstd::std_specs::convert::{FromSpecImpl, TryFromSpecImpl};

verus! {

/// The kinds of message that travel between the two ends.
#[derive(Debug, Clone, Copy, PartialEq, Eq, Structural)]
pub enum Message {
    Config,
    Frame,
    Audio,
}

/// The byte that stands for a message kind on the wire.
pub open spec fn message_byte(m: Message) -> u8 {
    match m {
        Message::Config => 0x00u8,
        Message::Frame => 0x01u8,
        Message::Audio => 0x02u8,
    }
}

/// The message kind that a byte stands for, if any.
pub open spec fn message_from_byte(b: u8) -> Result<Message, ()> {
    if b == 0x00 {
        Ok(Message::Config)
    } else if b == 0x01 {
        Ok(Message::Frame)
    } else if b == 0x02 {
        Ok(Message::Audio)
    } else {
        Err(())
    }
}

impl From<Message> for u8 {
    fn from(message_type: Message) -> (b: u8) {
        match message_type {
            Message::Config => 0x00,
            Message::Frame => 0x01,
            Message::Audio => 0x02,
        }
    }
}

impl FromSpecImpl<Message> for u8 {
    open spec fn obeys_from_spec() -> bool {
        true
    }

    open spec fn from_spec(message_type: Message) -> u8 {
        message_byte(message_type)
    }
}

impl TryFrom<u8> for Message {
    type Error = ();

    fn try_from(value: u8) -> (r: Result<Self, Self::Error>) {
        match value {
            0x00 => Ok(Message::Config),
            0x01 => Ok(Message::Frame),
            0x02 => Ok(Message::Audio),
            _ => Err(()),
        }
    }
}

impl TryFromSpecImpl<u8> for Message {
    open spec fn obeys_try_from_spec() -> bool {
        true
    }

    open spec fn try_from_spec(value: u8) -> Result<Self, Self::Error> {
        message_from_byte(value)
    }
}

/// Each kind's byte reads back as that kind, and exactly the bytes 0, 1 and 2 stand for a kind.
pub proof fn lemma_message_byte_roundtrip(m: Message, b: u8)
    ensures
        message_from_byte(message_byte(m)) == Ok::<Message, ()>(m),
        message_from_byte(b) is Ok <==> b <= 2,
        message_from_byte(b) matches Ok(k) ==> message_byte(k) == b,
{
}

/// The screen geometry that opens a session.
pub struct Config {
    pub width: u64,
    pub height: u64,
    pub screen_size: u64,
}

/// The wire form of a screen configuration: its three fields, each in eight big-endian bytes.
pub open spec fn config_be_bytes(width: u64, height: u64, size: u64) -> Seq<u8> {
    be_u64_bytes(width) + be_u64_bytes(height) + be_u64_bytes(size)
}

impl Config {
    /// A configuration for a `width` by `height` screen of four bytes per pixel.
    pub fn new(width: u64, height: u64) -> (c: Self)
        requires
            width * height * 4 <= u64::MAX,
        ensures
            c.width == width,
            c.height == height,
            c.screen_size == width * height * 4,
    {
        assert(width * height <= width * height * 4) by (nonlinear_arith);
        Self { width, height, screen_size: width * height * 4 }
    }

    /// The three fields, each in eight big-endian bytes.
    pub fn to_be_bytes(&self) -> (bytes: Vec<u8>)
        ensures
            bytes@ == config_be_bytes(self.width, self.height, self.screen_size),
            bytes@.len() == 24,
            be_digits(bytes@, 0) == self.width,
            be_digits(bytes@, 8) == self.height,
            be_digits(bytes@, 16) == self.screen_size,
    {
        proof {
            lemma_three_be_u64_digits(self.width, self.height, self.screen_size);
        }
        let mut bytes: Vec<u8> = Vec::new();
        push_be_u64(&mut bytes, self.width);
        push_be_u64(&mut bytes, self.height);
        push_be_u64(&mut bytes, self.screen_size);
        assert(bytes@ =~= config_be_bytes(self.width, self.height, self.screen_size));
        bytes
    }
}

} // verus!
