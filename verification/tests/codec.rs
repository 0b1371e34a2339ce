//! The envelope codec: round trips, exact layouts, decode errors, and
//! frame extraction from a byte stream.

use msgbus::codec::{decode, encode, encode_framed, extract_frames, DecodeError};
use msgbus::motor::{MotorMsg, MoveDirection};
use msgbus::msg::{Message, MessageType, Msg, MsgId, MsgInfo};
use msgbus::quit::QuitMsg;

fn envelope(msg_type: MessageType, hi: u64, lo: u64, payload: Vec<u8>) -> Msg {
    Msg {
        info: MsgInfo {
            msg_type,
            uid: MsgId { hi, lo },
        },
        payload,
    }
}

fn frame_raw(body: &[u8]) -> Vec<u8> {
    let mut out = (body.len() as u64).to_le_bytes().to_vec();
    out.extend_from_slice(body);
    out
}

#[test]
fn round_trip_move_envelope() {
    let m = envelope(MessageType::Move, 0x1122334455667788, 0x99aabbccddeeff00, vec![7, 8, 9]);
    let bytes = encode(&m);
    let back = decode(&bytes).expect("canonical encoding must decode");
    assert_eq!(back.info, m.info);
    assert_eq!(back.payload, m.payload);
}

#[test]
fn round_trip_empty_payload() {
    let m = envelope(MessageType::Quit, 0, u64::MAX, Vec::new());
    let back = decode(&encode(&m)).expect("canonical encoding must decode");
    assert_eq!(back.info, m.info);
    assert!(back.payload.is_empty());
}

#[test]
fn encode_layout_is_tag_uid_payload() {
    let m = envelope(MessageType::Move, 1, 2, vec![0xab, 0xcd]);
    let bytes = encode(&m);
    let mut expected = Vec::new();
    expected.extend_from_slice(&2u64.to_le_bytes()); // Move carries tag 2
    expected.extend_from_slice(&1u64.to_le_bytes());
    expected.extend_from_slice(&2u64.to_le_bytes());
    expected.extend_from_slice(&[0xab, 0xcd]);
    assert_eq!(bytes, expected);
}

#[test]
fn decode_short_input_is_malformed() {
    assert_eq!(decode(&[0u8; 23]).unwrap_err(), DecodeError::Malformed);
    assert_eq!(decode(&[]).unwrap_err(), DecodeError::Malformed);
}

#[test]
fn decode_unknown_tag() {
    let m = envelope(MessageType::Join, 5, 6, vec![1]);
    let mut bytes = encode(&m);
    bytes[0] = 9; // tag 9 lies outside the closed set
    assert_eq!(decode(&bytes).unwrap_err(), DecodeError::UnknownType);
}

#[test]
fn framed_encoding_prefixes_the_length() {
    let m = envelope(MessageType::NoneType, 0, 0, vec![1, 2, 3]);
    let body = encode(&m);
    assert_eq!(encode_framed(&m), frame_raw(&body));
}

#[test]
fn extract_two_frames_in_order() {
    let a = envelope(MessageType::Move, 1, 1, vec![1]);
    let b = envelope(MessageType::Quit, 2, 2, vec![2, 2]);
    let mut stream = encode_framed(&a);
    stream.extend_from_slice(&encode_framed(&b));
    let (msgs, dropped, rest) = extract_frames(stream);
    assert_eq!(msgs.len(), 2);
    assert_eq!(msgs[0].info, a.info);
    assert_eq!(msgs[1].info, b.info);
    assert_eq!(dropped, 0);
    assert!(rest.is_empty());
}

#[test]
fn extract_keeps_partial_frame() {
    let a = envelope(MessageType::Move, 1, 1, vec![1]);
    let mut stream = encode_framed(&a);
    let whole = encode_framed(&envelope(MessageType::Join, 3, 3, vec![9, 9]));
    let cut = whole.len() - 2;
    stream.extend_from_slice(&whole[..cut]);
    let (msgs, dropped, rest) = extract_frames(stream);
    assert_eq!(msgs.len(), 1);
    assert_eq!(dropped, 0);
    assert_eq!(rest, whole[..cut].to_vec());
}

#[test]
fn corrupted_frame_between_two_valid_frames() {
    // One corrupted frame between two valid ones: exactly two deliveries,
    // exactly one dropped frame, nothing left over.
    let a = envelope(MessageType::Move, 10, 11, vec![1]);
    let b = envelope(MessageType::Move, 12, 13, vec![2]);
    let mut stream = encode_framed(&a);
    stream.extend_from_slice(&frame_raw(&[0xff; 5])); // too short for an envelope
    stream.extend_from_slice(&encode_framed(&b));
    let (msgs, dropped, rest) = extract_frames(stream);
    assert_eq!(msgs.len(), 2);
    assert_eq!(msgs[0].info, a.info);
    assert_eq!(msgs[1].info, b.info);
    assert_eq!(dropped, 1);
    assert!(rest.is_empty());
}

#[test]
fn motor_payload_round_trip() {
    let m = MotorMsg::new(-42, MoveDirection::Up);
    let bytes = m.encode();
    assert_eq!(MotorMsg::decode(&bytes), Some(m));
}

#[test]
fn motor_payload_exact_bytes() {
    let m = MotorMsg::new(1, MoveDirection::Up);
    let mut expected = 1u64.to_le_bytes().to_vec();
    expected.push(0); // direction byte for Up
    assert_eq!(m.encode(), expected);
}

#[test]
fn motor_decode_rejects_wrong_length_and_direction() {
    assert_eq!(MotorMsg::decode(&[0u8; 8]), None);
    let mut bytes = MotorMsg::new(3, MoveDirection::Up).encode();
    bytes[8] = 1; // no direction carries tag 1
    assert_eq!(MotorMsg::decode(&bytes), None);
}

#[test]
fn motor_decode_rejects_non_canonical_id() {
    // An id field that is not the 64-bit form of an i32 is rejected.
    let mut bytes = (1u64 << 40).to_le_bytes().to_vec();
    bytes.push(0);
    assert_eq!(MotorMsg::decode(&bytes), None);
}

#[test]
fn quit_payload_round_trip() {
    let q = QuitMsg::new(i32::MIN);
    assert_eq!(QuitMsg::decode(&q.encode()), Some(q));
    assert_eq!(QuitMsg::decode(&[1, 2, 3]), None);
}

#[test]
fn typed_payload_through_envelope() {
    let motor = MotorMsg::new(7, MoveDirection::Up);
    let mut m = Msg::new();
    m.set_msg_type(MessageType::Move);
    m.set_data(&motor);
    assert_eq!(m.get_msg_type(), MessageType::Move);
    assert_eq!(m.get_data::<MotorMsg>(), Some(motor));
}
