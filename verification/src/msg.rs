//! Envelopes and their typed payloads.
//!
//! A [`Msg`] is the unit of wire transmission: a type tag from the closed set
//! [`MessageType`], a 128-bit unique id, and an opaque payload of bytes. A
//! payload is produced and consumed in a second, independent step through the
//! [`Message`] trait, which ties a typed message to its canonical byte
//! encoding.

use vstd::prelude::*;

verus! {

/// The closed set of message type tags. Exactly one payload schema belongs
/// to each tag.
#[derive(Clone, Copy, Debug, PartialEq, Eq, Structural)]
pub enum MessageType {
    NoneType,
    Quit,
    Move,
    Join,
}

impl Default for MessageType {
    /// The default tag names no message kind.
    fn default() -> (r: MessageType)
        ensures
            r == MessageType::NoneType,
    {
        MessageType::NoneType
    }
}

/// The wire tag of a message type.
pub open spec fn tag_of(t: MessageType) -> u64 {
    match t {
        MessageType::NoneType => 0,
        MessageType::Quit => 1,
        MessageType::Move => 2,
        MessageType::Join => 3,
    }
}

/// The message type named by a wire tag in the closed set.
pub open spec fn type_of_tag(tag: u64) -> MessageType
    recommends
        tag <= 3,
{
    if tag == 0 {
        MessageType::NoneType
    } else if tag == 1 {
        MessageType::Quit
    } else if tag == 2 {
        MessageType::Move
    } else {
        MessageType::Join
    }
}

/// Wire tags name their message types uniquely.
pub proof fn lemma_tag_round_trip(t: MessageType)
    ensures
        type_of_tag(tag_of(t)) == t,
        tag_of(t) <= 3,
{
}

/// The wire tag of `t`.
pub fn message_type_tag(t: MessageType) -> (r: u64)
    ensures
        r == tag_of(t),
{
    match t {
        MessageType::NoneType => 0,
        MessageType::Quit => 1,
        MessageType::Move => 2,
        MessageType::Join => 3,
    }
}

/// The message type of a wire tag, or `None` for a tag outside the closed
/// set.
pub fn message_type_from_tag(tag: u64) -> (r: Option<MessageType>)
    ensures
        tag <= 3 ==> r == Some(type_of_tag(tag)),
        tag > 3 ==> r is None,
{
    if tag == 0 {
        Some(MessageType::NoneType)
    } else if tag == 1 {
        Some(MessageType::Quit)
    } else if tag == 2 {
        Some(MessageType::Move)
    } else if tag == 3 {
        Some(MessageType::Join)
    } else {
        None
    }
}

/// A 128-bit unique message id, held as two 64-bit halves.
#[derive(Clone, Copy, Debug, PartialEq, Eq, Structural)]
pub struct MsgId {
    pub hi: u64,
    pub lo: u64,
}

/// The routable header of an envelope: its type tag and unique id.
#[derive(Clone, Copy, Debug, PartialEq, Eq, Structural)]
pub struct MsgInfo {
    pub msg_type: MessageType,
    pub uid: MsgId,
}

/// Relies on `uuid::Uuid::new_v4` for a freshly generated random 128-bit
/// identifier, and on `uuid::Uuid::as_u64_pair` to read it back as its two
/// 64-bit halves. Nothing is assumed of the value: it is random.
#[verifier::external_body]
fn fresh_id_bits() -> (r: (u64, u64)) {
    uuid::Uuid::new_v4().as_u64_pair()
}

impl MsgInfo {
    /// A header for `msg_type` with a freshly generated unique id.
    pub fn new(msg_type: MessageType) -> (r: MsgInfo)
        ensures
            r.msg_type == msg_type,
    {
        let (hi, lo) = fresh_id_bits();
        MsgInfo { msg_type, uid: MsgId { hi, lo } }
    }
}

impl Default for MsgInfo {
    /// The header of an empty envelope: no message kind, zero id.
    fn default() -> (r: MsgInfo)
        ensures
            r == (MsgInfo { msg_type: MessageType::NoneType, uid: MsgId { hi: 0, lo: 0 } }),
    {
        MsgInfo { msg_type: MessageType::NoneType, uid: MsgId { hi: 0, lo: 0 } }
    }
}

/// A typed payload: a message kind that knows its canonical byte encoding.
///
/// `decode` accepts exactly the canonical encodings: it returns the unique
/// message a byte string encodes, and nothing on any other byte string.
pub trait Message: Sized {
    /// The canonical byte encoding of this message.
    spec fn encoding(&self) -> Seq<u8>;

    /// Encodes this message to its canonical bytes.
    fn encode(&self) -> (r: Vec<u8>)
        ensures
            r@ == self.encoding(),
    ;

    /// Decodes a message from its canonical bytes; rejects all other bytes.
    fn decode(data: &[u8]) -> (r: Option<Self>)
        ensures
            r matches Some(m) ==> data@ == m.encoding(),
            forall|m: Self| data@ == #[trigger] m.encoding() ==> r == Some(m),
    ;
}

/// The views of a sequence of envelopes, in order.
pub open spec fn views_of(s: Seq<Msg>) -> Seq<MsgView> {
    s.map_values(|m: Msg| m@)
}

/// The mathematical value of an envelope.
#[verifier::ext_equal]
pub ghost struct MsgView {
    pub msg_type: MessageType,
    pub uid: MsgId,
    pub payload: Seq<u8>,
}

/// An envelope: a type tag, a unique id, and an opaque payload.
///
/// Built once, transmitted as bytes by the transport; the payload is decoded
/// lazily by a consumer that knows the schema for the type tag.
#[derive(Debug)]
pub struct Msg {
    pub info: MsgInfo,
    pub payload: Vec<u8>,
}

impl View for Msg {
    type V = MsgView;

    open spec fn view(&self) -> MsgView {
        MsgView { msg_type: self.info.msg_type, uid: self.info.uid, payload: self.payload@ }
    }
}

impl Default for Msg {
    /// The empty envelope, as `Msg::new` builds it.
    fn default() -> (r: Msg)
        ensures
            r@ == (MsgView {
                msg_type: MessageType::NoneType,
                uid: MsgId { hi: 0, lo: 0 },
                payload: Seq::<u8>::empty(),
            }),
    {
        Msg::new()
    }
}

impl Msg {
    /// An empty envelope: type `NoneType`, zero id, no payload.
    pub fn new() -> (r: Msg)
        ensures
            r@ == (MsgView {
                msg_type: MessageType::NoneType,
                uid: MsgId { hi: 0, lo: 0 },
                payload: Seq::<u8>::empty(),
            }),
    {
        let r = Msg {
            info: MsgInfo { msg_type: MessageType::NoneType, uid: MsgId { hi: 0, lo: 0 } },
            payload: Vec::new(),
        };
        proof {
            assert(r@ =~= (MsgView {
                msg_type: MessageType::NoneType,
                uid: MsgId { hi: 0, lo: 0 },
                payload: Seq::<u8>::empty(),
            }));
        }
        r
    }

    /// Sets the type tag; id and payload are untouched.
    pub fn set_msg_type(&mut self, msg_type: MessageType)
        ensures
            final(self)@ == (MsgView { msg_type, ..old(self)@ }),
    {
        self.info.msg_type = msg_type;
    }

    /// Stores the canonical encoding of `data` as this envelope's payload.
    pub fn set_data<T: Message>(&mut self, data: &T)
        ensures
            final(self)@ == (MsgView { payload: data.encoding(), ..old(self)@ }),
    {
        self.payload = data.encode();
    }

    /// Stores already-encoded bytes as this envelope's payload.
    pub fn set_row_data(&mut self, row_data: Vec<u8>)
        ensures
            final(self)@ == (MsgView { payload: row_data@, ..old(self)@ }),
    {
        self.payload = row_data;
    }

    /// The envelope's type tag.
    pub fn get_msg_type(&self) -> (r: MessageType)
        ensures
            r == self@.msg_type,
    {
        self.info.msg_type
    }

    /// The envelope's unique id.
    pub fn get_uid(&self) -> (r: MsgId)
        ensures
            r == self@.uid,
    {
        self.info.uid
    }

    /// Decodes the payload as a `T`, when the payload is a canonical `T`
    /// encoding; the caller is responsible for matching the envelope's type
    /// to the right schema.
    pub fn get_data<T: Message>(&self) -> (r: Option<T>)
        ensures
            r matches Some(m) ==> self@.payload == m.encoding(),
            forall|m: T| self@.payload == #[trigger] m.encoding() ==> r == Some(m),
    {
        T::decode(self.payload.as_slice())
    }

    /// A field-for-field copy of this envelope.
    pub fn duplicate(&self) -> (r: Msg)
        ensures
            r@ == self@,
    {
        let payload = vstd::slice::slice_to_vec(self.payload.as_slice());
        Msg { info: self.info, payload }
    }
}

} // verus!
