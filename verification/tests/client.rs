use bytes::BytesMut;
use flipper::error::{ProtocolError, ReceiveError};
use flipper::flipper_client::message::{Config, Message};
use flipper::flipper_client::protocol::BinaryProtocol;
use flipper::flipper_client::services::FrameReceiver;
use flipper::flipper_core::message::{Config as CoreConfig, Frame, MessageEntry};
use flipper::flipper_core::utils::compress;
use flipper::flipper_server::service::FrameSender;

#[test]
fn client_config_roundtrip() {
    let c = Config::new(800, 600, 1920000);
    let bytes = c.to_be_bytes();
    assert_eq!(bytes.len(), 24);
    assert_eq!(&bytes[..8], &800u64.to_be_bytes());
    let d = Config::from_be_bytes(&bytes).unwrap();
    assert_eq!((d.width, d.height, d.frame_size), (800, 600, 1920000));
}

#[test]
fn client_config_short_input() {
    assert!(Config::from_be_bytes(&[1, 2, 3]).is_ok());
    assert!(Config::from_be_bytes(&[]).is_ok());
    let mut b = 5u64.to_be_bytes().to_vec();
    b.extend_from_slice(&9u64.to_be_bytes());
    assert!(Config::from_be_bytes(&b).is_ok());
    b.extend_from_slice(&7u64.to_be_bytes());
    b.push(1);
    let c = Config::from_be_bytes(&b).unwrap();
    assert_eq!((c.width, c.height, c.frame_size), (5, 9, 7));
}

#[test]
fn client_message_bytes() {
    assert_eq!(u8::from(Message::Audio), 2);
    assert_eq!(Message::try_from(0u8), Ok(Message::Config));
    assert_eq!(Message::try_from(3u8), Err(()));
}

#[test]
fn reader_reads_and_reports_short_input() {
    let mut p = BinaryProtocol::new(BytesMut::from(&[7u8, 0, 0, 0, 2, 0xa, 0xb, 0xff, 0xff, 0xff, 0xfe][..]));
    assert_eq!(p.read_byte(), Ok(7));
    assert_eq!(p.read_bytes(), Ok(vec![0xa, 0xb]));
    assert_eq!(p.read_i32(), Ok(-2));
    assert_eq!(p.read_i32(), Err(ProtocolError::UnexpectedLength));
    assert_eq!(p.read_byte(), Err(ProtocolError::UnexpectedLength));
    assert_eq!(p.read_bytes(), Err(ProtocolError::UnexpectedLength));
    let mut q = BinaryProtocol::new(BytesMut::from(&[0u8, 0, 0, 3, 1][..]));
    assert_eq!(q.read_bytes(), Err(ProtocolError::UnexpectedLength));
    assert_eq!(q.read_byte(), Ok(1));
}

#[test]
fn sender_and_receiver_stay_in_sync() {
    let first: Vec<u8> = (0u8..16).collect();
    let (mut sender, config) = FrameSender::start(2, 2, first.clone());
    assert_eq!((config.width, config.height, config.frame_size), (2, 2, 16));
    let mut receiver = FrameReceiver::new(&config);
    assert!(receiver.can_render());

    let f = sender.first_frame().unwrap();
    let img = receiver.on_message(MessageEntry::Frame(f)).unwrap().unwrap();
    assert_eq!(img, vec![2, 1, 0, 255, 6, 5, 4, 255, 10, 9, 8, 255, 14, 13, 12, 255]);

    // an unchanged screen sends nothing
    assert!(matches!(sender.on_capture(first.clone()), Ok(None)));

    let second: Vec<u8> = (100u8..116).collect();
    let f = sender.on_capture(second.clone()).unwrap().unwrap();
    let img = receiver.on_message(MessageEntry::Frame(f)).unwrap().unwrap();
    assert_eq!(&img[..4], &[102, 101, 100, 255]);
    assert_eq!(&img[12..], &[114, 113, 112, 255]);

    // other messages pass over
    assert!(matches!(
        receiver.on_message(MessageEntry::Config(CoreConfig::new(1, 1, 1))),
        Ok(None)
    ));
    assert_eq!(
        receiver.on_message(MessageEntry::Frame(Frame(vec![1, 2, 3]))).err(),
        Some(ReceiveError::Decompress)
    );
}

#[test]
fn blank_sender_sends_the_whole_screen_first() {
    let mut sender = FrameSender::blank(4);
    let f = sender.on_capture(vec![1, 2, 3, 4]).unwrap().unwrap();
    assert_eq!(f.0, compress(&[1, 2, 3, 4]).unwrap());
    assert!(matches!(sender.on_capture(vec![1, 2, 3, 4]), Ok(None)));
}

#[test]
fn reader_checks_the_length_ahead() {
    let p = BinaryProtocol::new(BytesMut::from(&[0xffu8, 0xff, 0xff, 0xff][..]));
    assert!(!p.length_ahead_valid());
    let q = BinaryProtocol::new(BytesMut::from(&[0u8, 0, 0, 1, 5][..]));
    assert!(q.length_ahead_valid());
    let r = BinaryProtocol::new(BytesMut::from(&[0xffu8][..]));
    assert!(r.length_ahead_valid());
}

#[test]
fn receiver_of_a_bad_geometry_cannot_render() {
    let receiver = FrameReceiver::new(&CoreConfig::new(4, 0, 16));
    assert!(!receiver.can_render());
    let receiver = FrameReceiver::new(&CoreConfig::new(4, 4, 16));
    assert!(!receiver.can_render());
}

#[test]
fn receiver_starts_only_from_a_config() {
    assert!(FrameReceiver::start(MessageEntry::Frame(Frame(vec![1]))).is_none());
    let r = FrameReceiver::start(MessageEntry::Config(CoreConfig::new(1, 1, 4))).unwrap();
    assert!(r.can_render());
}

#[test]
fn handle_refuses_an_unshowable_frame() {
    let mut receiver = FrameReceiver::new(&CoreConfig::new(4, 4, 16));
    let f = compress(&[1u8; 16]).unwrap();
    assert_eq!(
        receiver.handle(MessageEntry::Frame(Frame(f))).err(),
        Some(ReceiveError::ImageLayout)
    );
    assert_eq!(
        receiver.handle(MessageEntry::Frame(Frame(vec![9, 9]))).err(),
        Some(ReceiveError::Decompress)
    );
    assert!(matches!(
        receiver.handle(MessageEntry::Config(CoreConfig::new(1, 1, 1))),
        Ok(None)
    ));
    // on a showable screen it behaves as on_message
    let mut good = FrameReceiver::new(&CoreConfig::new(1, 1, 4));
    let f = compress(&[1, 2, 3, 4]).unwrap();
    let img = good.handle(MessageEntry::Frame(Frame(f))).unwrap().unwrap();
    assert_eq!(img, vec![3, 2, 1, 255]);
}
