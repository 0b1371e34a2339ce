//! A builder for envelopes: the type is set (minting a fresh id), the
//! payload is set, and `build` yields the finished envelope, or says which
//! required part is missing.

use vstd::prelude::*;
use crate::msg::{Message, Msg, MsgInfo, MsgView, MessageType};

verus! {

/// Why building an envelope failed: a required part was never set.
#[derive(Clone, Copy, Debug, PartialEq, Eq, Structural)]
pub enum BuildError {
    MissingInfo,
    MissingData,
}

/// The mathematical value of a builder: which parts are set so far.
#[verifier::ext_equal]
pub ghost struct MsgBuilderView {
    pub info: Option<MsgInfo>,
    pub payload: Option<Seq<u8>>,
}

/// Accumulates the parts of an envelope before it is built.
pub struct MsgBuilder {
    info: Option<MsgInfo>,
    payload: Option<Vec<u8>>,
}

impl View for MsgBuilder {
    type V = MsgBuilderView;

    closed spec fn view(&self) -> MsgBuilderView {
        MsgBuilderView {
            info: self.info,
            payload: match self.payload {
                Some(p) => Some(p@),
                None => None,
            },
        }
    }
}

impl MsgBuilder {
    /// A builder with nothing set yet.
    pub fn new() -> (r: MsgBuilder)
        ensures
            r@ == (MsgBuilderView { info: None, payload: None }),
    {
        MsgBuilder { info: None, payload: None }
    }

    /// Sets the message type, minting a fresh unique id for the envelope.
    pub fn msg_type(self, msg_type: MessageType) -> (r: MsgBuilder)
        ensures
            r@.info matches Some(i) && i.msg_type == msg_type,
            r@.payload == self@.payload,
    {
        MsgBuilder { info: Some(MsgInfo::new(msg_type)), payload: self.payload }
    }

    /// Sets the payload to the canonical encoding of `data`.
    pub fn data<T: Message>(self, data: &T) -> (r: MsgBuilder)
        ensures
            r@.payload == Some(data.encoding()),
            r@.info == self@.info,
    {
        MsgBuilder { info: self.info, payload: Some(data.encode()) }
    }

    /// The finished envelope; an error names the first missing part.
    pub fn build(self) -> (r: Result<Msg, BuildError>)
        ensures
            self@.info matches Some(i) ==> self@.payload matches Some(p) ==> (r matches Ok(m) && m@
                == (MsgView { msg_type: i.msg_type, uid: i.uid, payload: p })),
            self@.info is None ==> r == Err::<Msg, BuildError>(BuildError::MissingInfo),
            self@.info is Some && self@.payload is None ==> r == Err::<Msg, BuildError>(
                BuildError::MissingData,
            ),
    {
        if self.info.is_none() {
            return Err(BuildError::MissingInfo);
        }
        if self.payload.is_none() {
            return Err(BuildError::MissingData);
        }
        let MsgBuilder { info, payload } = self;
        Ok(Msg { info: info.unwrap(), payload: payload.unwrap() })
    }
}

} // verus!
