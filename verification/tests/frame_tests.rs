use bytes::{Bytes, BytesMut};
use rustproxy::proto::frame::{Frame, FrameCodec, FrameError, MessageType, HEADER_SIZE, MAX_FRAME_SIZE};
use rustproxy::proto::message::{u64_from_be_bytes, u64_to_be_bytes, DataMessage};

fn encode(frame: Frame) -> BytesMut {
    let mut codec = FrameCodec;
    let mut buf = BytesMut::new();
    codec.encode(frame, &mut buf);
    buf
}

#[test]
fn control_frame_layout() {
    let buf = encode(Frame::Control(MessageType::Auth, b"{}".to_vec()));
    assert_eq!(&buf[..], &[0, 0, 0, 2, 0x01, 0, 0, b'{', b'}']);
    assert_eq!(HEADER_SIZE, 7);
}

#[test]
fn control_frame_round_trip() {
    let mut buf = encode(Frame::Control(MessageType::NewWorkConn, b"{\"a\":1}".to_vec()));
    buf.extend_from_slice(&[9, 9]);
    let mut codec = FrameCodec;
    match codec.decode(&mut buf) {
        Ok(Some(Frame::Control(t, p))) => {
            assert_eq!(t, MessageType::NewWorkConn);
            assert_eq!(p, b"{\"a\":1}".to_vec());
        }
        _ => panic!("expected a control frame"),
    }
    assert_eq!(&buf[..], &[9, 9]);
}

#[test]
fn data_frame_round_trip() {
    let msg = DataMessage { conn_id: 0x0102_0304_0506_0708, data: Bytes::from_static(b"hello") };
    let mut buf = encode(Frame::Data(msg));
    assert_eq!(buf.len(), HEADER_SIZE + 8 + 5);
    assert_eq!(buf[4], 0x07);
    let mut codec = FrameCodec;
    match codec.decode(&mut buf) {
        Ok(Some(Frame::Data(m))) => {
            assert_eq!(m.conn_id, 0x0102_0304_0506_0708);
            assert_eq!(&m.data[..], b"hello");
        }
        _ => panic!("expected a data frame"),
    }
    assert!(buf.is_empty());
}

#[test]
fn ping_payload_is_dropped() {
    let mut buf = BytesMut::from(&[0u8, 0, 0, 3, 0x08, 0, 0, 1, 2, 3][..]);
    let mut codec = FrameCodec;
    match codec.decode(&mut buf) {
        Ok(Some(Frame::Control(MessageType::Ping, p))) => assert!(p.is_empty()),
        _ => panic!("expected a ping"),
    }
    assert!(buf.is_empty());
}

#[test]
fn partial_frame_waits() {
    let full = encode(Frame::Control(MessageType::AuthResp, b"xyz".to_vec()));
    for k in 0..full.len() {
        let mut buf = BytesMut::from(&full[..k]);
        let mut codec = FrameCodec;
        assert!(matches!(codec.decode(&mut buf), Ok(None)));
        assert_eq!(buf.len(), k);
    }
}

#[test]
fn unknown_type_is_refused() {
    let mut buf = BytesMut::from(&[0u8, 0, 0, 0, 0x42, 0, 0][..]);
    let mut codec = FrameCodec;
    assert_eq!(codec.decode(&mut buf).err(), Some(FrameError::UnknownType(0x42)));
}

#[test]
fn oversized_frame_is_refused() {
    let len = (MAX_FRAME_SIZE + 1) as u32;
    let mut bytes = len.to_be_bytes().to_vec();
    bytes.extend_from_slice(&[0x01, 0, 0]);
    let mut buf = BytesMut::from(&bytes[..]);
    let mut codec = FrameCodec;
    assert_eq!(codec.decode(&mut buf).err(), Some(FrameError::FrameTooLarge(MAX_FRAME_SIZE + 1)));
}

#[test]
fn short_data_frame_is_dropped() {
    let mut buf = BytesMut::from(&[0u8, 0, 0, 3, 0x07, 0, 0, 1, 2, 3, 0xaa][..]);
    let mut codec = FrameCodec;
    assert!(matches!(codec.decode(&mut buf), Ok(None)));
    assert_eq!(&buf[..], &[0xaa]);
}

#[test]
fn message_type_codes() {
    let all = [
        (MessageType::Auth, 0x01u8),
        (MessageType::AuthResp, 0x02),
        (MessageType::ServerAssignProxy, 0x03),
        (MessageType::ServerCloseProxy, 0x04),
        (MessageType::NewWorkConn, 0x05),
        (MessageType::NewWorkConnResp, 0x06),
        (MessageType::Data, 0x07),
        (MessageType::Ping, 0x08),
        (MessageType::Pong, 0x09),
    ];
    for (t, c) in all {
        assert_eq!(t.code(), c);
        assert_eq!(MessageType::try_from(c), Ok(t));
    }
    assert_eq!(MessageType::try_from(0), Err(FrameError::UnknownType(0)));
    assert_eq!(MessageType::try_from(0x0a), Err(FrameError::UnknownType(0x0a)));
}

#[test]
fn data_message_encode_decode() {
    let msg = DataMessage { conn_id: 42, data: Bytes::from_static(&[1, 2, 3]) };
    let enc = msg.encode();
    assert_eq!(&enc[..], &[0, 0, 0, 0, 0, 0, 0, 42, 1, 2, 3]);
    let dec = DataMessage::decode(&enc).unwrap();
    assert_eq!(dec.conn_id, 42);
    assert_eq!(&dec.data[..], &[1, 2, 3]);
    assert!(DataMessage::decode(&[1, 2, 3]).is_none());
}

#[test]
fn u64_big_endian() {
    assert_eq!(u64_to_be_bytes(0x1122_3344_5566_7788), vec![0x11, 0x22, 0x33, 0x44, 0x55, 0x66, 0x77, 0x88]);
    assert_eq!(u64_from_be_bytes(&[0, 0, 0, 0, 0, 0, 1, 0]), 256);
}
