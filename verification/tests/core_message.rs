use bytes::BytesMut;
use flipper::error::ProtocolError;
use flipper::flipper_core::codec::{FramedCodec, MessageCodec};
use flipper::flipper_core::message::{Config, Frame, Message, MessageEntry, MessageType};
use flipper::flipper_core::protocol::{BinaryInputProtocol, BinaryOutputProtocol};

fn config_wire() -> Vec<u8> {
    let mut v = vec![0u8];
    v.extend_from_slice(&640u64.to_be_bytes());
    v.extend_from_slice(&480u64.to_be_bytes());
    v.extend_from_slice(&1228800u64.to_be_bytes());
    v
}

#[test]
fn message_type_bytes() {
    assert_eq!(u8::from(MessageType::Config), 0);
    assert_eq!(u8::from(MessageType::Frame), 1);
    assert_eq!(u8::from(MessageType::Audio), 2);
    assert_eq!(MessageType::try_from(0u8), Ok(MessageType::Config));
    assert_eq!(MessageType::try_from(1u8), Ok(MessageType::Frame));
    assert_eq!(MessageType::try_from(2u8), Ok(MessageType::Audio));
    assert_eq!(MessageType::try_from(3u8), Err(ProtocolError::UnknownMessageType));
}

#[test]
fn config_encodes_type_byte_and_fields() {
    let mut p = BinaryOutputProtocol::new(BytesMut::new());
    Config::new(640, 480, 1228800).encode(&mut p).unwrap();
    assert_eq!(&p.into_inner()[..], &config_wire()[..]);
}

#[test]
fn frame_encodes_type_byte_length_and_bytes() {
    let mut p = BinaryOutputProtocol::new(BytesMut::new());
    Frame(vec![9, 8, 7]).encode(&mut p).unwrap();
    assert_eq!(&p.into_inner()[..], &[1, 0, 0, 0, 0, 0, 0, 0, 3, 9, 8, 7][..]);
}

#[test]
fn entry_roundtrip_leaves_the_rest() {
    let mut p = BinaryOutputProtocol::new(BytesMut::new());
    MessageEntry::Frame(Frame(vec![1, 2, 3, 4])).encode(&mut p).unwrap();
    MessageEntry::Config(Config::new(1, 2, 3)).encode(&mut p).unwrap();
    let mut r = BinaryInputProtocol::new(p.into_inner());
    match MessageEntry::decode(&mut r).unwrap() {
        MessageEntry::Frame(f) => assert_eq!(f.0, vec![1, 2, 3, 4]),
        _ => panic!("expected a frame"),
    }
    match MessageEntry::decode(&mut r).unwrap() {
        MessageEntry::Config(c) => {
            assert_eq!((c.width, c.height, c.frame_size), (1, 2, 3));
        }
        _ => panic!("expected a config"),
    }
    assert!(r.into_inner().is_empty());
}

#[test]
fn entry_decode_errors() {
    let mut r = BinaryInputProtocol::new(BytesMut::new());
    assert_eq!(MessageEntry::decode(&mut r).err(), Some(ProtocolError::UnexpectedLength));

    let mut r = BinaryInputProtocol::new(BytesMut::from(&[2u8, 5, 6][..]));
    assert_eq!(MessageEntry::decode(&mut r).err(), Some(ProtocolError::WrongMessageType));
    assert_eq!(&r.into_inner()[..], &[5, 6][..]);

    let mut r = BinaryInputProtocol::new(BytesMut::from(&[7u8][..]));
    assert_eq!(MessageEntry::decode(&mut r).err(), Some(ProtocolError::WrongMessageType));

    // a configuration cut after its first field
    let wire = config_wire();
    let mut r = BinaryInputProtocol::new(BytesMut::from(&wire[..12]));
    assert_eq!(MessageEntry::decode(&mut r).err(), Some(ProtocolError::UnexpectedLength));
    assert_eq!(&r.into_inner()[..], &wire[9..12]);

    // a frame whose length runs past the end
    let mut r = BinaryInputProtocol::new(BytesMut::from(&[1u8, 0, 0, 0, 0, 0, 0, 0, 5, 1, 2][..]));
    assert_eq!(MessageEntry::decode(&mut r).err(), Some(ProtocolError::UnexpectedLength));
    assert_eq!(&r.into_inner()[..], &[1, 2][..]);
}

#[test]
fn message_codec_roundtrip() {
    let mut codec = MessageCodec;
    let mut buf = BytesMut::new();
    codec.encode(MessageEntry::Config(Config::new(640, 480, 1228800)), &mut buf).unwrap();
    assert_eq!(&buf[..], &config_wire()[..]);
    match codec.decode(&mut buf) {
        Ok(Some(MessageEntry::Config(c))) => assert_eq!(c.frame_size, 1228800),
        _ => panic!("expected a config"),
    }
    assert!(buf.is_empty());
    assert_eq!(codec.decode(&mut buf).err(), Some(ProtocolError::UnexpectedLength));
}

#[test]
fn framed_codec_roundtrip() {
    let mut codec = FramedCodec::new(MessageCodec);
    let mut buf = BytesMut::new();
    codec.encode(MessageEntry::Frame(Frame(vec![0xaa, 0xbb])), &mut buf).unwrap();
    codec.encode(MessageEntry::Config(Config::new(3, 4, 48)), &mut buf).unwrap();
    assert_eq!(
        &buf[..19],
        &[0, 0, 0, 0, 0, 0, 0, 11, 1, 0, 0, 0, 0, 0, 0, 0, 2, 0xaa, 0xbb][..]
    );
    match codec.decode(&mut buf) {
        Ok(Some(MessageEntry::Frame(f))) => assert_eq!(f.0, vec![0xaa, 0xbb]),
        _ => panic!("expected a frame"),
    }
    match codec.decode(&mut buf) {
        Ok(Some(MessageEntry::Config(c))) => assert_eq!((c.width, c.height, c.frame_size), (3, 4, 48)),
        _ => panic!("expected a config"),
    }
    assert!(buf.is_empty());
    assert!(matches!(codec.decode(&mut buf), Ok(None)));
}

#[test]
fn framed_codec_waits_for_a_whole_frame() {
    let mut codec = FramedCodec::new(MessageCodec);
    let mut full = BytesMut::new();
    codec.encode(MessageEntry::Frame(Frame(vec![1, 2, 3])), &mut full).unwrap();
    for n in 0..full.len() {
        let mut part = BytesMut::from(&full[..n]);
        assert!(matches!(codec.decode(&mut part), Ok(None)));
        assert_eq!(&part[..], &full[..n]);
    }
}

#[test]
fn framed_codec_reports_a_bad_type() {
    let mut codec = FramedCodec::new(MessageCodec);
    let mut buf = BytesMut::from(&[0u8, 0, 0, 0, 0, 0, 0, 1, 9][..]);
    assert_eq!(codec.decode(&mut buf).err(), Some(ProtocolError::WrongMessageType));
    assert!(buf.is_empty());
}

#[test]
fn framed_codec_checks() {
    let small = BytesMut::from(&[0u8; 4][..]);
    assert!(FramedCodec::length_fits(&small));
    let ok = BytesMut::from(&[0u8, 0, 0, 0, 0, 0, 1, 0][..]);
    assert!(FramedCodec::length_fits(&ok));
    let huge = BytesMut::from(&[0xffu8; 8][..]);
    assert!(!FramedCodec::length_fits(&huge));
    let buf = BytesMut::new();
    assert!(FramedCodec::has_room(&MessageEntry::Frame(Frame(vec![1, 2])), &buf));
    assert!(FramedCodec::has_room(&MessageEntry::Config(Config::new(1, 1, 1)), &buf));
}

#[test]
fn framed_messages_arrive_in_order() {
    let mut codec = FramedCodec::new(MessageCodec);
    let mut buf = BytesMut::new();
    for i in 0..5u8 {
        codec.encode(MessageEntry::Frame(Frame(vec![i; i as usize])), &mut buf).unwrap();
    }
    buf.extend_from_slice(&[0, 0, 0]);
    for i in 0..5u8 {
        match codec.decode(&mut buf) {
            Ok(Some(MessageEntry::Frame(f))) => assert_eq!(f.0, vec![i; i as usize]),
            _ => panic!("expected frame {}", i),
        }
    }
    assert!(matches!(codec.decode(&mut buf), Ok(None)));
    assert_eq!(&buf[..], &[0, 0, 0][..]);
}
