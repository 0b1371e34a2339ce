//! The server's per-frame decision: what to do with the body of one
//! received frame. The surrounding accept/read loop performs the I/O.

use vstd::prelude::*;
use crate::codec::{decode, decoded};

verus! {

/// What the server does with one received frame body.
#[derive(Clone, Copy, Debug, PartialEq, Eq, Structural)]
pub enum ServerReply {
    /// The peer closed the connection: stop serving it.
    Close,
    /// The body does not decode: drop it and keep reading.
    Ignore,
    /// The body decodes: echo it back unchanged.
    Echo,
}

/// Decides the reply for one received frame body: close on end of stream,
/// ignore a body that does not decode, echo one that does.
pub fn server_step(data: &[u8]) -> (r: ServerReply)
    ensures
        data@.len() == 0 ==> r == ServerReply::Close,
        data@.len() > 0 && decoded(data@) is Err ==> r == ServerReply::Ignore,
        data@.len() > 0 && decoded(data@) is Ok ==> r == ServerReply::Echo,
{
    if data.len() == 0 {
        return ServerReply::Close;
    }
    match decode(data) {
        Ok(_) => ServerReply::Echo,
        Err(_) => ServerReply::Ignore,
    }
}

} // verus!
