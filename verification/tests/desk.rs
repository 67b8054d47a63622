use bytes::BytesMut;
use flipper::codec::MessageCodec;
use flipper::error::ProtocolError;
use flipper::flipper_core::message::{Config as CoreConfig, Frame, MessageEntry};
use flipper::message::{Config, Message};
use flipper::protocol::BinaryProtocol;

#[test]
fn screen_size_is_four_bytes_per_pixel() {
    let c = Config::new(1920, 1080);
    assert_eq!((c.width, c.height, c.screen_size), (1920, 1080, 1920 * 1080 * 4));
    assert_eq!(Config::new(0, 7).screen_size, 0);
}

#[test]
fn desk_config_to_be_bytes() {
    let c = Config::new(2, 3);
    assert_eq!(
        c.to_be_bytes(),
        vec![0, 0, 0, 0, 0, 0, 0, 2, 0, 0, 0, 0, 0, 0, 0, 3, 0, 0, 0, 0, 0, 0, 0, 24]
    );
}

#[test]
fn desk_message_bytes() {
    assert_eq!(u8::from(Message::Config), 0);
    assert_eq!(u8::from(Message::Frame), 1);
    assert_eq!(u8::from(Message::Audio), 2);
    assert_eq!(Message::try_from(1u8), Ok(Message::Frame));
    assert_eq!(Message::try_from(255u8), Err(()));
}

#[test]
fn writer_appends() {
    let mut p = BinaryProtocol::new(BytesMut::from(&[42u8][..]));
    p.write_byte(7).unwrap();
    p.write_u64(0x0102030405060708).unwrap();
    p.write_bytes(&[5, 6]).unwrap();
    assert_eq!(
        &p.into_inner()[..],
        &[42, 7, 1, 2, 3, 4, 5, 6, 7, 8, 0, 0, 0, 0, 0, 0, 0, 2, 5, 6][..]
    );
}

#[test]
fn desk_codec_roundtrip() {
    let bytes = MessageCodec::encode(MessageEntry::Frame(Frame(vec![4, 5])));
    assert_eq!(bytes, vec![1, 0, 0, 0, 0, 0, 0, 0, 2, 4, 5]);
    match MessageCodec::decode(bytes) {
        Ok(MessageEntry::Frame(f)) => assert_eq!(f.0, vec![4, 5]),
        _ => panic!("expected a frame"),
    }
    let bytes = MessageCodec::encode(CoreConfig::new(1, 1, 4));
    assert_eq!(bytes.len(), 25);
    assert!(matches!(MessageCodec::decode(bytes), Ok(MessageEntry::Config(_))));
    assert_eq!(MessageCodec::decode(vec![2]).err(), Some(ProtocolError::WrongMessageType));
    assert_eq!(MessageCodec::decode(vec![]).err(), Some(ProtocolError::UnexpectedLength));
}
