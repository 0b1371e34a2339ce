//! The payload schema for `MessageType::Move`: a motor command naming a
//! motor id and a direction of movement.

use vstd::prelude::*;
use crate::bytes::{
    lemma_i32_u64_round_trip, lemma_le_bytes_round_trip, lemma_u64_le_round_trip, push_u64_le,
    read_u64_le, u64_le_bytes, u64_of_le,
};
use crate::msg::Message;

verus! {

/// The directions a motor can be told to move.
#[derive(Clone, Copy, Debug, PartialEq, Eq, Structural)]
pub enum MoveDirection {
    Up,
}

/// The wire byte of a move direction.
pub open spec fn direction_tag(d: MoveDirection) -> u8 {
    match d {
        MoveDirection::Up => 0,
    }
}

impl MoveDirection {
    /// The wire byte of this direction.
    pub fn tag(&self) -> (r: u8)
        ensures
            r == direction_tag(*self),
    {
        match self {
            MoveDirection::Up => 0,
        }
    }
}

/// A motor command: which motor, and which way to move it.
#[derive(Clone, Copy, Debug, PartialEq, Eq, Structural)]
pub struct MotorMsg {
    pub id: i32,
    pub direction: MoveDirection,
}

impl MotorMsg {
    /// A motor command for motor `id` moving in `direction`.
    pub fn new(id: i32, direction: MoveDirection) -> (r: MotorMsg)
        ensures
            r == (MotorMsg { id, direction }),
    {
        MotorMsg { id, direction }
    }
}

impl Default for MotorMsg {
    /// The command for motor `0` moving up.
    fn default() -> (r: MotorMsg)
        ensures
            r == (MotorMsg { id: 0, direction: MoveDirection::Up }),
    {
        MotorMsg { id: 0, direction: MoveDirection::Up }
    }
}

impl Message for MotorMsg {
    /// Nine bytes: the motor id as a little-endian 64-bit value, then the
    /// direction byte.
    open spec fn encoding(&self) -> Seq<u8> {
        u64_le_bytes(self.id as u64).push(direction_tag(self.direction))
    }

    fn encode(&self) -> (r: Vec<u8>) {
        let mut out: Vec<u8> = Vec::new();
        push_u64_le(&mut out, #[verifier::truncate] (self.id as u64));
        out.push(self.direction.tag());
        proof {
            assert(out@ =~= self.encoding());
        }
        out
    }

    fn decode(data: &[u8]) -> (r: Option<Self>) {
        if data.len() != 9 {
            proof {
                assert forall|m: MotorMsg| data@ == #[trigger] m.encoding() implies false by {
                    assert(m.encoding().len() == 9);
                }
            }
            return None;
        }
        let x = read_u64_le(data, 0);
        let id = #[verifier::truncate] (x as i32);
        let canonical = (#[verifier::truncate] (id as u64)) == x;
        let dir_byte = *vstd::slice::slice_index_get(data, 8);
        proof {
            lemma_le_bytes_round_trip(data@.subrange(0, 8));
            assert forall|m: MotorMsg| data@ == #[trigger] m.encoding() implies canonical
                && dir_byte == 0 && m == (MotorMsg { id, direction: MoveDirection::Up }) by {
                assert(data@.subrange(0, 8) =~= u64_le_bytes(m.id as u64));
                lemma_u64_le_round_trip(m.id as u64);
                lemma_i32_u64_round_trip(m.id);
                assert(x == m.id as u64);
                assert(id == m.id);
                assert(dir_byte == data@[8]);
            }
        }
        if !canonical || dir_byte != 0 {
            return None;
        }
        let m = MotorMsg { id, direction: MoveDirection::Up };
        proof {
            assert(data@ =~= m.encoding());
        }
        Some(m)
    }
}

} // verus!
