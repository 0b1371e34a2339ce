//! The payload schema for `MessageType::Quit`: a shutdown request carrying
//! an exit value.

use vstd::prelude::*;
use crate::bytes::{
    lemma_i32_u64_round_trip, lemma_le_bytes_round_trip, lemma_u64_le_round_trip, push_u64_le,
    read_u64_le, u64_le_bytes, u64_of_le,
};
use crate::msg::Message;

verus! {

/// A quit request: the exit value the peer should report.
#[derive(Clone, Copy, Debug, PartialEq, Eq, Structural)]
pub struct QuitMsg {
    pub value: i32,
}

impl QuitMsg {
    /// A quit request reporting `value`.
    pub fn new(value: i32) -> (r: QuitMsg)
        ensures
            r == (QuitMsg { value }),
    {
        QuitMsg { value }
    }
}

impl Message for QuitMsg {
    /// Eight bytes: the exit value as a little-endian 64-bit value.
    open spec fn encoding(&self) -> Seq<u8> {
        u64_le_bytes(self.value as u64)
    }

    fn encode(&self) -> (r: Vec<u8>) {
        let mut out: Vec<u8> = Vec::new();
        push_u64_le(&mut out, #[verifier::truncate] (self.value as u64));
        proof {
            assert(out@ =~= self.encoding());
        }
        out
    }

    fn decode(data: &[u8]) -> (r: Option<Self>) {
        if data.len() != 8 {
            proof {
                assert forall|m: QuitMsg| data@ == #[trigger] m.encoding() implies false by {
                    assert(m.encoding().len() == 8);
                }
            }
            return None;
        }
        let x = read_u64_le(data, 0);
        let value = #[verifier::truncate] (x as i32);
        let canonical = (#[verifier::truncate] (value as u64)) == x;
        proof {
            lemma_le_bytes_round_trip(data@.subrange(0, 8));
            assert forall|m: QuitMsg| data@ == #[trigger] m.encoding() implies canonical && m == (
            QuitMsg { value }) by {
                assert(data@.subrange(0, 8) =~= u64_le_bytes(m.value as u64));
                lemma_u64_le_round_trip(m.value as u64);
                lemma_i32_u64_round_trip(m.value);
            }
        }
        if !canonical {
            return None;
        }
        let m = QuitMsg { value };
        proof {
            assert(data@ =~= m.encoding());
        }
        Some(m)
    }
}

} // verus!
