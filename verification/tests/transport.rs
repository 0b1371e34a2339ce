//! The transport state machine: queueing while disconnected, flushing in
//! order on reconnect, retry behaviour, heartbeats, and receive-side frame
//! handling.

use msgbus::codec::{decode, encode_framed, extract_frames};
use msgbus::motor::{MotorMsg, MoveDirection};
use msgbus::msg::{Message, MessageType, Msg, MsgId, MsgInfo};
use msgbus::subsystem::{CenterSubsystem, MotorSystem, SystemType};
use msgbus::transport::{ConnState, Transport, TransportConfig};

fn config() -> TransportConfig {
    TransportConfig {
        endpoint: "127.0.0.1:8080".to_string(),
        reconnect_interval_ms: 5000,
        heartbeat_interval_ms: 10000,
    }
}

fn envelope(msg_type: MessageType, hi: u64, lo: u64, payload: Vec<u8>) -> Msg {
    Msg {
        info: MsgInfo {
            msg_type,
            uid: MsgId { hi, lo },
        },
        payload,
    }
}

#[test]
fn starts_disconnected_and_start_begins_connecting() {
    let mut t = Transport::new(config());
    assert_eq!(t.state(), ConnState::Disconnected);
    assert!(t.start());
    assert_eq!(t.state(), ConnState::Connecting);
    assert!(!t.start()); // a second start owes no second attempt
}

#[test]
fn ordering_under_disconnect() {
    // Three sends while disconnected flush on reconnect in that exact
    // order, each exactly once.
    let e1 = envelope(MessageType::Move, 1, 0, vec![1]);
    let e2 = envelope(MessageType::Quit, 2, 0, vec![2]);
    let e3 = envelope(MessageType::Join, 3, 0, vec![3]);
    let mut t = Transport::new(config());
    t.start();
    assert!(t.send(e1.duplicate()).is_none());
    assert!(t.send(e2.duplicate()).is_none());
    assert!(t.send(e3.duplicate()).is_none());
    assert_eq!(t.pending_len(), 3);

    let frames = t.on_connect_ok();
    assert_eq!(t.state(), ConnState::Connected);
    assert_eq!(t.pending_len(), 0);
    assert_eq!(frames.len(), 3);

    // What the peer sees: the concatenated frames split back into exactly
    // those three envelopes, in order.
    let mut stream = Vec::new();
    for f in &frames {
        stream.extend_from_slice(f);
    }
    let (msgs, dropped, rest) = extract_frames(stream);
    assert_eq!(dropped, 0);
    assert!(rest.is_empty());
    assert_eq!(msgs.len(), 3);
    assert_eq!(msgs[0].info, e1.info);
    assert_eq!(msgs[1].info, e2.info);
    assert_eq!(msgs[2].info, e3.info);
}

#[test]
fn reconnect_convergence_after_failures() {
    // Failed attempts change nothing; the first success connects and
    // resumes both duties.
    let mut t = Transport::new(config());
    t.start();
    t.send(envelope(MessageType::Move, 9, 9, vec![]));
    for _ in 0..4 {
        assert_eq!(t.on_connect_failed(), 5000); // retry cadence is fixed
        assert_eq!(t.state(), ConnState::Connecting);
        assert_eq!(t.pending_len(), 1);
    }
    let frames = t.on_connect_ok();
    assert_eq!(t.state(), ConnState::Connected);
    assert_eq!(frames.len(), 1);
    assert!(t.send_heartbeat().is_some()); // keep-alive duty resumed
    let (msgs, dropped) = t.on_bytes(&[]); // receive duty resumed
    assert!(msgs.is_empty());
    assert_eq!(dropped, 0);
}

#[test]
fn send_while_connected_goes_straight_to_the_wire() {
    let mut t = Transport::new(config());
    t.start();
    t.on_connect_ok();
    let e = envelope(MessageType::Move, 4, 4, vec![42]);
    let wire = t.send(e.duplicate()).expect("connected send returns the frame");
    assert_eq!(wire, encode_framed(&e));
    assert_eq!(t.pending_len(), 0);
}

#[test]
fn heartbeat_only_while_connected() {
    let mut t = Transport::new(config());
    assert!(t.send_heartbeat().is_none());
    t.start();
    assert!(t.send_heartbeat().is_none());
    t.on_connect_ok();
    let hb = t.send_heartbeat().expect("connected transport owes a keep-alive");
    let (msgs, dropped, rest) = extract_frames(hb);
    assert_eq!(msgs.len(), 1);
    assert_eq!(dropped, 0);
    assert!(rest.is_empty());
    assert_eq!(msgs[0].info.msg_type, MessageType::NoneType);
    assert!(msgs[0].payload.is_empty());
}

#[test]
fn corrupted_frame_does_not_reconnect() {
    // One corrupted frame between two valid frames: two deliveries, one
    // dropped frame, and the connection stays up.
    let a = envelope(MessageType::Move, 1, 2, vec![5]);
    let b = envelope(MessageType::Move, 3, 4, vec![6]);
    let mut stream = encode_framed(&a);
    let bad = [0u8; 4];
    stream.extend_from_slice(&(bad.len() as u64).to_le_bytes());
    stream.extend_from_slice(&bad);
    stream.extend_from_slice(&encode_framed(&b));

    let mut t = Transport::new(config());
    t.start();
    t.on_connect_ok();
    let (msgs, dropped) = t.on_bytes(&stream);
    assert_eq!(msgs.len(), 2);
    assert_eq!(msgs[0].info, a.info);
    assert_eq!(msgs[1].info, b.info);
    assert_eq!(dropped, 1);
    assert_eq!(t.state(), ConnState::Connected);
}

#[test]
fn frame_split_across_reads() {
    let a = envelope(MessageType::Join, 8, 8, vec![1, 2, 3, 4]);
    let frame = encode_framed(&a);
    let cut = frame.len() - 3;
    let mut t = Transport::new(config());
    t.start();
    t.on_connect_ok();
    let (msgs, dropped) = t.on_bytes(&frame[..cut]);
    assert!(msgs.is_empty());
    assert_eq!(dropped, 0);
    let (msgs, dropped) = t.on_bytes(&frame[cut..]);
    assert_eq!(msgs.len(), 1);
    assert_eq!(msgs[0].info, a.info);
    assert_eq!(dropped, 0);
}

#[test]
fn io_error_keeps_backlog_and_reconnects() {
    let mut t = Transport::new(config());
    t.start();
    t.on_connect_ok();
    t.send(envelope(MessageType::Move, 1, 1, vec![])); // written, not queued
    t.on_io_error();
    assert_eq!(t.state(), ConnState::Connecting);
    t.send(envelope(MessageType::Move, 2, 2, vec![]));
    assert_eq!(t.pending_len(), 1); // queued while reconnecting
    let frames = t.on_connect_ok();
    assert_eq!(frames.len(), 1);
}

#[test]
fn shutdown_is_terminal() {
    let mut t = Transport::new(config());
    t.start();
    t.shutdown();
    assert_eq!(t.state(), ConnState::Stopped);
    assert!(t.send(envelope(MessageType::Quit, 0, 0, vec![])).is_none());
    assert!(t.send_heartbeat().is_none());
}

#[test]
fn move_scenario_offline_submit_then_deliver() {
    // Submit a Move envelope with payload {direction: Up} while offline;
    // bring the transport online; the peer receives exactly one frame
    // decoding to the same envelope; the Move-registered subsystem's exec
    // runs once with it, and rollup clears it.
    let motor = MotorMsg::new(0, MoveDirection::Up);
    let mut e = Msg::new();
    e.set_msg_type(MessageType::Move);
    e.set_data(&motor);
    e.info.uid = MsgId { hi: 0xa1, lo: 1 };
    let submitted_info = e.info;

    let mut t = Transport::new(config());
    t.start(); // offline: connecting, no socket yet
    assert!(t.send(e).is_none());

    let frames = t.on_connect_ok(); // transport comes online
    assert_eq!(frames.len(), 1);
    let received = decode(&frames[0][8..]).expect("peer decodes the one frame");
    assert_eq!(received.info, submitted_info);
    assert_eq!(received.get_data::<MotorMsg>(), Some(motor));

    let mut router: CenterSubsystem<MotorSystem> = CenterSubsystem::new();
    router.register(SystemType::Motor, MotorSystem::new(), vec![MessageType::Move]);
    router.enqueue(received);
    router.dispatch();
    assert_eq!(router.handler_at(0).msgs().len(), 1);
    assert_eq!(router.handler_at(0).msgs()[0].info, submitted_info);
    router.rollup();
    assert_eq!(router.handler_at(0).msgs().len(), 0);
}
