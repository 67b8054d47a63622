//! The core messages and their wire forms.
use crate::error::ProtocolError;
use crate::flipper_core::protocol::{
    lemma_bytes_roundtrip, parse_bytes, BinaryInputProtocol, BinaryOutputProtocol,
};
use crate::protocol::bytes_wire;
use crate::wire::{be_u64_bytes, be_u64_value, lemma_be_u64_roundtrip};
use vstd::prelude::*;
use vstd::std_specs::convert::{FromSpecImpl, TryFromSpecImpl};

verus! {

/// A value that writes itself to the binary protocol and reads itself back.
pub trait Message: Sized + View {
    /// The bytes that `encode` writes for a value whose view is `v`.
    spec fn wire_form(v: Self::V) -> Seq<u8>;

    /// What `decode` gives on the bytes `s`, and how many of them it takes.
    spec fn parsed(s: Seq<u8>) -> (Result<Self::V, ProtocolError>, int);

    /// Appends the wire form of `self`.
    fn encode(&self, protocol: &mut BinaryOutputProtocol) -> (r: Result<(), ProtocolError>)
        requires
            old(protocol)@.len() + Self::wire_form(self@).len() <= isize::MAX,
        ensures
            r is Ok,
            final(protocol)@ == old(protocol)@ + Self::wire_form(self@),
    ;

    /// Reads a value off the front of the protocol's bytes.
    fn decode(protocol: &mut BinaryInputProtocol) -> (r: Result<Self, ProtocolError>)
        ensures
            0 <= Self::parsed(old(protocol)@).1 <= old(protocol)@.len(),
            final(protocol)@ == old(protocol)@.skip(Self::parsed(old(protocol)@).1),
            Self::parsed(old(protocol)@).0 is Ok <==> r is Ok,
            r matches Ok(v) ==> Self::parsed(old(protocol)@).0 == Ok::<Self::V, ProtocolError>(
                v@,
            ),
            r matches Err(e) ==> Self::parsed(old(protocol)@).0 == Err::<Self::V, ProtocolError>(
                e,
            ),
    ;
}

/// The kinds of message, by the byte that leads each on the wire.
#[derive(Debug, Clone, Copy, PartialEq, Eq, Structural)]
pub enum MessageType {
    Config,
    Frame,
    Audio,
}

/// The byte that stands for a message type.
pub open spec fn type_byte(t: MessageType) -> u8 {
    match t {
        MessageType::Config => 0x00u8,
        MessageType::Frame => 0x01u8,
        MessageType::Audio => 0x02u8,
    }
}

/// The message type that a byte stands for, if any.
pub open spec fn type_from_byte(b: u8) -> Result<MessageType, ProtocolError> {
    if b == 0x00 {
        Ok(MessageType::Config)
    } else if b == 0x01 {
        Ok(MessageType::Frame)
    } else if b == 0x02 {
        Ok(MessageType::Audio)
    } else {
        Err(ProtocolError::UnknownMessageType)
    }
}

impl From<MessageType> for u8 {
    fn from(message_type: MessageType) -> (b: u8) {
        match message_type {
            MessageType::Config => 0x00,
            MessageType::Frame => 0x01,
            MessageType::Audio => 0x02,
        }
    }
}

impl FromSpecImpl<MessageType> for u8 {
    open spec fn obeys_from_spec() -> bool {
        true
    }

    open spec fn from_spec(message_type: MessageType) -> u8 {
        type_byte(message_type)
    }
}

impl TryFrom<u8> for MessageType {
    type Error = ProtocolError;

    fn try_from(value: u8) -> (r: Result<Self, Self::Error>) {
        match value {
            0x00 => Ok(MessageType::Config),
            0x01 => Ok(MessageType::Frame),
            0x02 => Ok(MessageType::Audio),
            _ => Err(ProtocolError::UnknownMessageType),
        }
    }
}

impl TryFromSpecImpl<u8> for MessageType {
    open spec fn obeys_try_from_spec() -> bool {
        true
    }

    open spec fn try_from_spec(value: u8) -> Result<Self, Self::Error> {
        type_from_byte(value)
    }
}

/// Each type's byte reads back as that type, and exactly the bytes 0, 1 and 2 stand for a type.
pub proof fn lemma_type_byte_roundtrip(t: MessageType, b: u8)
    ensures
        type_from_byte(type_byte(t)) == Ok::<MessageType, ProtocolError>(t),
        type_from_byte(b) is Ok <==> b <= 2,
        type_from_byte(b) matches Ok(k) ==> type_byte(k) == b,
{
}

/// The screen configuration that opens a session: the geometry and the size of one frame.
pub struct Config {
    pub width: u64,
    pub height: u64,
    pub frame_size: u64,
}

impl View for Config {
    type V = ConfigModel;

    open spec fn view(&self) -> ConfigModel {
        ConfigModel { width: self.width, height: self.height, frame_size: self.frame_size }
    }
}

/// The value of a `Config`.
pub struct ConfigModel {
    pub width: u64,
    pub height: u64,
    pub frame_size: u64,
}

impl Config {
    pub fn new(width: u64, height: u64, frame_size: u64) -> (c: Self)
        ensures
            c.width == width,
            c.height == height,
            c.frame_size == frame_size,
    {
        Self { width, height, frame_size }
    }
}

/// The wire form of a configuration: the type byte 0, then the three fields in big-endian.
pub open spec fn config_wire(c: ConfigModel) -> Seq<u8> {
    seq![0x00u8] + be_u64_bytes(c.width) + be_u64_bytes(c.height) + be_u64_bytes(c.frame_size)
}

/// What reading the three fields of a configuration from `s` gives, and how many bytes it takes.
pub open spec fn parse_config_fields(s: Seq<u8>) -> (Result<ConfigModel, ProtocolError>, int) {
    if s.len() < 8 {
        (Err(ProtocolError::UnexpectedLength), 0)
    } else if s.len() < 16 {
        (Err(ProtocolError::UnexpectedLength), 8)
    } else if s.len() < 24 {
        (Err(ProtocolError::UnexpectedLength), 16)
    } else {
        (
            Ok(
                ConfigModel {
                    width: be_u64_value(s),
                    height: be_u64_value(s.skip(8)),
                    frame_size: be_u64_value(s.skip(16)),
                },
            ),
            24,
        )
    }
}

impl Message for Config {
    open spec fn wire_form(v: ConfigModel) -> Seq<u8> {
        config_wire(v)
    }

    open spec fn parsed(s: Seq<u8>) -> (Result<ConfigModel, ProtocolError>, int) {
        parse_config_fields(s)
    }

    fn encode(&self, protocol: &mut BinaryOutputProtocol) -> (r: Result<(), ProtocolError>) {
        let _ = protocol.write_byte(u8::from(MessageType::Config));
        let _ = protocol.write_u64(self.width);
        let _ = protocol.write_u64(self.height);
        let _ = protocol.write_u64(self.frame_size);
        assert(protocol@ =~= old(protocol)@ + config_wire(self@));
        Ok(())
    }

    fn decode(protocol: &mut BinaryInputProtocol) -> (r: Result<Self, ProtocolError>) {
        let ghost s = protocol@;
        let width = match protocol.read_u64() {
            Ok(v) => v,
            Err(e) => {
                assert(s.skip(0) =~= s);
                return Err(e);
            },
        };
        let height = match protocol.read_u64() {
            Ok(v) => v,
            Err(e) => return Err(e),
        };
        assert(s.skip(8).skip(8) =~= s.skip(16));
        let frame_size = match protocol.read_u64() {
            Ok(v) => v,
            Err(e) => return Err(e),
        };
        assert(s.skip(16).skip(8) =~= s.skip(24));
        Ok(Self { width, height, frame_size })
    }
}

/// One compressed screen delta.
pub struct Frame(pub Vec<u8>);

impl View for Frame {
    type V = Seq<u8>;

    open spec fn view(&self) -> Seq<u8> {
        self.0@
    }
}

/// The wire form of a frame: the type byte 1, then its bytes with their length in front.
pub open spec fn frame_wire(d: Seq<u8>) -> Seq<u8> {
    seq![0x01u8] + bytes_wire(d)
}

impl Message for Frame {
    open spec fn wire_form(v: Seq<u8>) -> Seq<u8> {
        frame_wire(v)
    }

    open spec fn parsed(s: Seq<u8>) -> (Result<Seq<u8>, ProtocolError>, int) {
        parse_bytes(s)
    }

    fn encode(&self, protocol: &mut BinaryOutputProtocol) -> (r: Result<(), ProtocolError>) {
        let _ = protocol.write_byte(u8::from(MessageType::Frame));
        let _ = protocol.write_bytes(self.0.as_slice());
        assert(protocol@ =~= old(protocol)@ + frame_wire(self@));
        Ok(())
    }

    fn decode(protocol: &mut BinaryInputProtocol) -> (r: Result<Self, ProtocolError>) {
        match protocol.read_bytes() {
            Ok(v) => Ok(Self(v)),
            Err(e) => Err(e),
        }
    }
}

/// A message of either kind.
pub enum MessageEntry {
    Config(Config),
    Frame(Frame),
}

/// The value of a `MessageEntry`.
pub enum EntryModel {
    Config(ConfigModel),
    Frame(Seq<u8>),
}

impl View for MessageEntry {
    type V = EntryModel;

    open spec fn view(&self) -> EntryModel {
        match self {
            MessageEntry::Config(c) => EntryModel::Config(c@),
            MessageEntry::Frame(f) => EntryModel::Frame(f@),
        }
    }
}

/// The wire form of a message.
pub open spec fn entry_wire(m: EntryModel) -> Seq<u8> {
    match m {
        EntryModel::Config(c) => config_wire(c),
        EntryModel::Frame(d) => frame_wire(d),
    }
}

/// What decoding a message from `s` gives, and how many bytes it takes: the type byte picks
/// the message, and every byte other than 0 and 1 is refused after being taken.
pub open spec fn parse_entry(s: Seq<u8>) -> (Result<EntryModel, ProtocolError>, int) {
    if s.len() < 1 {
        (Err(ProtocolError::UnexpectedLength), 0)
    } else if s[0] == 0x00u8 {
        let (r, k) = parse_config_fields(s.skip(1));
        (
            match r {
                Ok(c) => Ok(EntryModel::Config(c)),
                Err(e) => Err(e),
            },
            1 + k,
        )
    } else if s[0] == 0x01u8 {
        let (r, k) = parse_bytes(s.skip(1));
        (
            match r {
                Ok(d) => Ok(EntryModel::Frame(d)),
                Err(e) => Err(e),
            },
            1 + k,
        )
    } else {
        (Err(ProtocolError::WrongMessageType), 1)
    }
}

impl Message for MessageEntry {
    open spec fn wire_form(v: EntryModel) -> Seq<u8> {
        entry_wire(v)
    }

    open spec fn parsed(s: Seq<u8>) -> (Result<EntryModel, ProtocolError>, int) {
        parse_entry(s)
    }

    fn decode(protocol: &mut BinaryInputProtocol) -> (r: Result<Self, ProtocolError>) {
        let ghost s = protocol@;
        let message_type = match protocol.read_byte() {
            Ok(b) => b,
            Err(e) => {
                assert(s.skip(0) =~= s);
                return Err(e);
            },
        };
        match MessageType::try_from(message_type) {
            Ok(MessageType::Config) => match Config::decode(protocol) {
                Ok(c) => {
                    assert(s.skip(1).skip(24) =~= s.skip(25));
                    Ok(MessageEntry::Config(c))
                },
                Err(e) => {
                    assert(s.skip(1).skip(parse_config_fields(s.skip(1)).1) =~= s.skip(
                        1 + parse_config_fields(s.skip(1)).1,
                    ));
                    Err(e)
                },
            },
            Ok(MessageType::Frame) => {
                let r = Frame::decode(protocol);
                assert(s.skip(1).skip(parse_bytes(s.skip(1)).1) =~= s.skip(
                    1 + parse_bytes(s.skip(1)).1,
                ));
                match r {
                    Ok(f) => Ok(MessageEntry::Frame(f)),
                    Err(e) => Err(e),
                }
            },
            _ => Err(ProtocolError::WrongMessageType),
        }
    }

    fn encode(&self, protocol: &mut BinaryOutputProtocol) -> (r: Result<(), ProtocolError>) {
        match self {
            MessageEntry::Config(config) => config.encode(protocol),
            MessageEntry::Frame(frame) => frame.encode(protocol),
        }
    }
}

/// Decoding the wire form of a message gives back that message and takes exactly its wire
/// form, whatever bytes follow it.
pub proof fn lemma_entry_roundtrip(m: EntryModel, rest: Seq<u8>)
    requires
        m matches EntryModel::Frame(d) ==> d.len() <= u64::MAX,
    ensures
        parse_entry(entry_wire(m) + rest) == (Ok::<EntryModel, ProtocolError>(m), entry_wire(
            m,
        ).len() as int),
{
    let s = entry_wire(m) + rest;
    match m {
        EntryModel::Config(c) => {
            let t = s.skip(1);
            assert(t =~= be_u64_bytes(c.width) + (be_u64_bytes(c.height) + be_u64_bytes(
                c.frame_size,
            ) + rest));
            lemma_be_u64_roundtrip(c.width, be_u64_bytes(c.height) + be_u64_bytes(c.frame_size) + rest);
            assert(t.skip(8) =~= be_u64_bytes(c.height) + (be_u64_bytes(c.frame_size) + rest));
            lemma_be_u64_roundtrip(c.height, be_u64_bytes(c.frame_size) + rest);
            assert(t.skip(16) =~= be_u64_bytes(c.frame_size) + rest);
            lemma_be_u64_roundtrip(c.frame_size, rest);
        },
        EntryModel::Frame(d) => {
            assert(s.skip(1) =~= bytes_wire(d) + rest);
            lemma_bytes_roundtrip(d, rest);
        },
    }
}

} // verus!
