//! The business rule of the client: which front-end events become outbound
//! envelopes. A motor event becomes a `Move` envelope carrying the default
//! motor command; every other event produces nothing.

use vstd::prelude::*;
use crate::builder::MsgBuilder;
use crate::event::EventType;
use crate::motor::{MotorMsg, MoveDirection};
use crate::msg::{Message, MessageType, Msg};

verus! {

/// The envelope owed to the transport for a front-end event, if any: a
/// motor event yields a `Move` envelope with the default motor command as
/// payload; no other event yields one.
pub fn outbound_for_event(event_type: EventType) -> (r: Option<Msg>)
    ensures
        (event_type == EventType::MotorEvent) <==> (r is Some),
        r matches Some(m) ==> m@.msg_type == MessageType::Move && m@.payload == (MotorMsg {
            id: 0,
            direction: MoveDirection::Up,
        }).encoding(),
{
    if event_type == EventType::MotorEvent {
        let motor = MotorMsg::default();
        match MsgBuilder::new().msg_type(MessageType::Move).data(&motor).build() {
            Ok(m) => Some(m),
            Err(_) => {
                proof {
                    assert(false);
                }
                None
            },
        }
    } else {
        None
    }
}

} // verus!
