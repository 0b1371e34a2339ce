//! The client-side pieces around the core: event store, envelope builder,
//! business rule, navigation router, button, and the server's per-frame
//! decision.

use msgbus::builder::{BuildError, MsgBuilder};
use msgbus::business::outbound_for_event;
use msgbus::button::CustomButton;
use msgbus::codec::encode;
use msgbus::event::{
    AppEvent, Event, EventManager, EventType, KeyPressEvent, MotorEvent, MouseClickEvent,
};
use msgbus::motor::{MotorMsg, MoveDirection};
use msgbus::msg::{Message, MessageType, MsgInfo};
use msgbus::router::{Route, Router, SettingsRoute};
use msgbus::server::{server_step, ServerReply};

#[test]
fn event_manager_add_pop_len() {
    let mut em: EventManager<AppEvent> = EventManager::new();
    assert!(em.is_empty());
    em.add_event(AppEvent::Key(KeyPressEvent { key_code: 13 }));
    em.add_event(AppEvent::Motor(MotorEvent { x: 1, y: 2 }));
    assert_eq!(em.len(), 2);
    assert!(!em.is_empty());
    let last = em.pop().expect("two events stored");
    assert_eq!(last, AppEvent::Motor(MotorEvent { x: 1, y: 2 }));
    assert_eq!(em.len(), 1);
    em.clear();
    assert!(em.is_empty());
    assert!(em.pop().is_none());
}

#[test]
fn event_manager_removes_by_kind() {
    let mut em: EventManager<AppEvent> = EventManager::new();
    em.add_event(AppEvent::Key(KeyPressEvent { key_code: 1 }));
    em.add_event(AppEvent::Mouse(MouseClickEvent { x: 5, y: 6 }));
    em.add_event(AppEvent::Key(KeyPressEvent { key_code: 2 }));
    em.remove_event(AppEvent::Key(KeyPressEvent { key_code: 99 }));
    let rest = em.iter();
    assert_eq!(rest.len(), 1);
    assert_eq!(rest[0], AppEvent::Mouse(MouseClickEvent { x: 5, y: 6 }));
}

#[test]
fn event_kinds() {
    assert_eq!(KeyPressEvent { key_code: 0 }.get_type(), EventType::KeyPress);
    assert_eq!(MouseClickEvent { x: 0, y: 0 }.get_type(), EventType::MouseClick);
    assert_eq!(MotorEvent::default().get_type(), EventType::MotorEvent);
    assert_eq!(AppEvent::Motor(MotorEvent::default()).get_type(), EventType::MotorEvent);
}

#[test]
fn builder_requires_info_then_data() {
    assert_eq!(MsgBuilder::new().build().unwrap_err(), BuildError::MissingInfo);
    let only_type = MsgBuilder::new().msg_type(MessageType::Move).build();
    assert_eq!(only_type.unwrap_err(), BuildError::MissingData);
    let only_data = MsgBuilder::new().data(&MotorMsg::new(1, MoveDirection::Up)).build();
    assert_eq!(only_data.unwrap_err(), BuildError::MissingInfo);
}

#[test]
fn builder_builds_typed_envelope() {
    let motor = MotorMsg::new(3, MoveDirection::Up);
    let m = MsgBuilder::new()
        .msg_type(MessageType::Move)
        .data(&motor)
        .build()
        .expect("type and data are set");
    assert_eq!(m.get_msg_type(), MessageType::Move);
    assert_eq!(m.payload, motor.encode());
    assert_eq!(m.get_data::<MotorMsg>(), Some(motor));
}

#[test]
fn fresh_ids_differ() {
    let a = MsgInfo::new(MessageType::Move);
    let b = MsgInfo::new(MessageType::Move);
    assert_ne!(a.uid, b.uid);
}

#[test]
fn motor_event_becomes_move_envelope() {
    let m = outbound_for_event(EventType::MotorEvent).expect("motor events go out");
    assert_eq!(m.get_msg_type(), MessageType::Move);
    assert_eq!(m.get_data::<MotorMsg>(), Some(MotorMsg::new(0, MoveDirection::Up)));
    assert!(outbound_for_event(EventType::KeyPress).is_none());
    assert!(outbound_for_event(EventType::NoneType).is_none());
}

#[test]
fn router_navigation() {
    let mut r = Router::new();
    assert_eq!(*r.current(), Route::Home);
    assert!(r.is_current(&Route::Home));
    r.navigate(Route::Settings(SettingsRoute::Security));
    assert_eq!(*r.current(), Route::Settings(SettingsRoute::Security));
    assert!(!r.is_current(&Route::Home));
    r.set_current(Route::Profile);
    assert!(r.is_current(&Route::Profile));
}

#[test]
fn button_click_latch() {
    let mut b = CustomButton::new("custom".to_string());
    assert_eq!(b.text(), "custom");
    assert!(!b.is_clicked());
    b.mark_clicked();
    assert!(b.is_clicked());
    b.reset_clicked();
    assert!(!b.is_clicked());
}

#[test]
fn server_reply_per_frame_body() {
    assert_eq!(server_step(&[]), ServerReply::Close);
    assert_eq!(server_step(&[1, 2, 3]), ServerReply::Ignore);
    let m = MsgBuilder::new()
        .msg_type(MessageType::Join)
        .data(&MotorMsg::new(0, MoveDirection::Up))
        .build()
        .unwrap();
    assert_eq!(server_step(&encode(&m)), ServerReply::Echo);
}
