//! The envelope codec and the stream framing around it.
//!
//! An envelope encodes to its wire tag, its id, and its payload; the byte
//! stream carries each encoding behind a little-endian length prefix, so a
//! receiver can split frames without trusting their contents, and one bad
//! frame costs exactly that frame.

use vstd::prelude::*;
use crate::bytes::{lemma_u64_le_round_trip, push_u64_le, read_u64_le, u64_le_bytes, u64_of_le};
use crate::msg::{
    lemma_tag_round_trip, message_type_from_tag, message_type_tag, tag_of, type_of_tag, views_of,
    Msg, MsgId, MsgInfo, MsgView,
};

verus! {

/// Why a frame body failed to decode.
#[derive(Clone, Copy, Debug, PartialEq, Eq, Structural)]
pub enum DecodeError {
    /// The bytes do not parse as the envelope layout.
    Malformed,
    /// The tag lies outside the closed set of message types.
    UnknownType,
}

/// The encoding of an envelope: tag, id halves, then the payload bytes.
pub open spec fn encoded(m: MsgView) -> Seq<u8> {
    u64_le_bytes(tag_of(m.msg_type)) + u64_le_bytes(m.uid.hi) + u64_le_bytes(m.uid.lo) + m.payload
}

/// The envelope a byte string decodes to, or why it does not.
pub open spec fn decoded(b: Seq<u8>) -> Result<MsgView, DecodeError> {
    if b.len() < 24 {
        Err(DecodeError::Malformed)
    } else {
        let tag = u64_of_le(b.subrange(0, 8));
        if tag > 3 {
            Err(DecodeError::UnknownType)
        } else {
            Ok(
                MsgView {
                    msg_type: type_of_tag(tag),
                    uid: MsgId {
                        hi: u64_of_le(b.subrange(8, 16)),
                        lo: u64_of_le(b.subrange(16, 24)),
                    },
                    payload: b.skip(24),
                },
            )
        }
    }
}

/// Encodes an envelope; total over all envelopes.
pub fn encode(m: &Msg) -> (r: Vec<u8>)
    ensures
        r@ == encoded(m@),
{
    let mut out: Vec<u8> = Vec::new();
    push_u64_le(&mut out, message_type_tag(m.info.msg_type));
    push_u64_le(&mut out, m.info.uid.hi);
    push_u64_le(&mut out, m.info.uid.lo);
    let mut i: usize = 0;
    while i < m.payload.len()
        invariant
            i <= m.payload@.len(),
            out@ =~= u64_le_bytes(tag_of(m@.msg_type)) + u64_le_bytes(m@.uid.hi) + u64_le_bytes(
                m@.uid.lo,
            ) + m.payload@.subrange(0, i as int),
        decreases m.payload@.len() - i,
    {
        out.push(m.payload[i]);
        i = i + 1;
        proof {
            assert(m.payload@.subrange(0, i as int) =~= m.payload@.subrange(0, i as int - 1).push(
                m.payload@[i as int - 1],
            ));
        }
    }
    proof {
        assert(m.payload@.subrange(0, m.payload@.len() as int) =~= m.payload@);
        assert(out@ =~= encoded(m@));
    }
    out
}

/// Decodes an envelope from one frame body; exactly the canonical layout is
/// accepted, and the error names what was wrong.
pub fn decode(data: &[u8]) -> (r: Result<Msg, DecodeError>)
    ensures
        r matches Ok(m) ==> decoded(data@) == Ok::<MsgView, DecodeError>(m@),
        r matches Err(e) ==> decoded(data@) == Err::<MsgView, DecodeError>(e),
{
    if data.len() < 24 {
        return Err(DecodeError::Malformed);
    }
    let tag = read_u64_le(data, 0);
    let msg_type = match message_type_from_tag(tag) {
        Some(t) => t,
        None => {
            return Err(DecodeError::UnknownType);
        },
    };
    let hi = read_u64_le(data, 8);
    let lo = read_u64_le(data, 16);
    let payload = vstd::slice::slice_to_vec(
        vstd::slice::slice_subrange(data, 24, data.len()),
    );
    let m = Msg { info: MsgInfo { msg_type, uid: MsgId { hi, lo } }, payload };
    proof {
        assert(m@ =~= decoded(data@)->Ok_0);
    }
    Ok(m)
}

/// Decoding the encoding of any envelope recovers that envelope exactly:
/// type, id, and payload bytes are all preserved.
pub proof fn lemma_round_trip(m: MsgView)
    ensures
        decoded(encoded(m)) == Ok::<MsgView, DecodeError>(m),
{
    let b = encoded(m);
    assert(b.subrange(0, 8) =~= u64_le_bytes(tag_of(m.msg_type)));
    assert(b.subrange(8, 16) =~= u64_le_bytes(m.uid.hi));
    assert(b.subrange(16, 24) =~= u64_le_bytes(m.uid.lo));
    assert(b.skip(24) =~= m.payload);
    lemma_u64_le_round_trip(tag_of(m.msg_type));
    lemma_u64_le_round_trip(m.uid.hi);
    lemma_u64_le_round_trip(m.uid.lo);
    lemma_tag_round_trip(m.msg_type);
    assert(decoded(b)->Ok_0 =~= m);
}

/// A frame on the stream: the body behind its little-endian length prefix.
pub open spec fn framed(body: Seq<u8>) -> Seq<u8> {
    u64_le_bytes(body.len() as u64) + body
}

/// Whether an envelope's encoding is short enough for a length prefix.
/// Every envelope held in memory is.
pub open spec fn frameable(m: MsgView) -> bool {
    encoded(m).len() <= u64::MAX
}

/// Encodes an envelope and wraps it in its stream frame.
pub fn encode_framed(m: &Msg) -> (r: Vec<u8>)
    ensures
        r@ == framed(encoded(m@)),
        frameable(m@),
{
    let mut body = encode(m);
    let n = body.len();
    let mut out: Vec<u8> = Vec::new();
    push_u64_le(&mut out, n as u64);
    out.append(&mut body);
    proof {
        assert(out@ =~= framed(encoded(m@)));
    }
    out
}

/// What splitting a byte stream into frames yields: the envelopes of the
/// complete frames that decoded, in order; the count of complete frames that
/// did not; and the trailing bytes of an incomplete frame.
#[verifier::ext_equal]
pub ghost struct Extraction {
    pub msgs: Seq<MsgView>,
    pub dropped: nat,
    pub rest: Seq<u8>,
}

/// Splits a byte stream into length-prefixed frames and decodes each body.
pub open spec fn extract(b: Seq<u8>) -> Extraction
    decreases b.len(),
{
    if b.len() < 8 {
        Extraction { msgs: Seq::empty(), dropped: 0, rest: b }
    } else {
        let n = u64_of_le(b.subrange(0, 8)) as int;
        if b.len() < 8 + n {
            Extraction { msgs: Seq::empty(), dropped: 0, rest: b }
        } else {
            let tail = extract(b.skip(8 + n));
            match decoded(b.subrange(8, 8 + n)) {
                Ok(m) => Extraction {
                    msgs: seq![m] + tail.msgs,
                    dropped: tail.dropped,
                    rest: tail.rest,
                },
                Err(_) => Extraction {
                    msgs: tail.msgs,
                    dropped: tail.dropped + 1,
                    rest: tail.rest,
                },
            }
        }
    }
}

/// Every dropped frame consumed at least its length prefix, so the dropped
/// count never exceeds the stream length.
pub proof fn lemma_extract_dropped_bound(b: Seq<u8>)
    ensures
        extract(b).dropped <= b.len(),
    decreases b.len(),
{
    if b.len() >= 8 {
        let n = u64_of_le(b.subrange(0, 8)) as int;
        if b.len() >= 8 + n {
            lemma_extract_dropped_bound(b.skip(8 + n));
        }
    }
}

/// Prepending one whole frame to a stream contributes exactly that frame's
/// outcome: its envelope when the body decodes, one dropped frame when it
/// does not.
pub proof fn lemma_extract_step(body: Seq<u8>, rest: Seq<u8>)
    requires
        body.len() <= u64::MAX,
    ensures
        decoded(body) matches Ok(m) ==> extract(framed(body) + rest) == (Extraction {
            msgs: seq![m] + extract(rest).msgs,
            dropped: extract(rest).dropped,
            rest: extract(rest).rest,
        }),
        decoded(body) is Err ==> extract(framed(body) + rest) == (Extraction {
            msgs: extract(rest).msgs,
            dropped: extract(rest).dropped + 1,
            rest: extract(rest).rest,
        }),
{
    let b = framed(body) + rest;
    assert(b.subrange(0, 8) =~= u64_le_bytes(body.len() as u64));
    lemma_u64_le_round_trip(body.len() as u64);
    let n = u64_of_le(b.subrange(0, 8)) as int;
    assert(n == body.len());
    assert(b.subrange(8, 8 + n) =~= body);
    assert(b.skip(8 + n) =~= rest);
    match decoded(body) {
        Ok(m) => {
            assert(extract(b) =~= (Extraction {
                msgs: seq![m] + extract(rest).msgs,
                dropped: extract(rest).dropped,
                rest: extract(rest).rest,
            }));
        },
        Err(_) => {
            assert(extract(b) =~= (Extraction {
                msgs: extract(rest).msgs,
                dropped: extract(rest).dropped + 1,
                rest: extract(rest).rest,
            }));
        },
    }
}

/// Splits a received buffer into frames: the envelopes that decoded in
/// arrival order, the count of frames that did not, and the bytes of the
/// trailing incomplete frame, kept for the next read.
pub fn extract_frames(buf: Vec<u8>) -> (r: (Vec<Msg>, u64, Vec<u8>))
    ensures
        views_of(r.0@) == extract(buf@).msgs,
        r.1 == extract(buf@).dropped,
        r.2@ == extract(buf@).rest,
{
    let ghost orig = buf@;
    proof {
        lemma_extract_dropped_bound(orig);
    }
    let orig_len = buf.len(); // pins orig.len() <= usize::MAX for the dropped counter
    let mut rest = buf;
    let mut msgs: Vec<Msg> = Vec::new();
    let mut dropped: u64 = 0;
    loop
        invariant
            extract(orig).msgs =~= views_of(msgs@) + extract(rest@).msgs,
            extract(orig).dropped == dropped + extract(rest@).dropped,
            extract(orig).rest == extract(rest@).rest,
            extract(orig).dropped <= orig.len(),
            orig.len() <= usize::MAX,
        ensures
            extract(rest@).msgs == Seq::<MsgView>::empty(),
            extract(rest@).dropped == 0,
            extract(rest@).rest == rest@,
        decreases rest@.len(),
    {
        if rest.len() < 8 {
            break;
        }
        let n64 = read_u64_le(rest.as_slice(), 0);
        if ((rest.len() - 8) as u64) < n64 {
            break;
        }
        let n = #[verifier::truncate] (n64 as usize);
        proof {
            assert(n == n64);
        }
        let body = vstd::slice::slice_subrange(rest.as_slice(), 8, 8 + n);
        let new_rest = vstd::slice::slice_to_vec(
            vstd::slice::slice_subrange(rest.as_slice(), 8 + n, rest.len()),
        );
        proof {
            assert(new_rest@ =~= rest@.skip(8 + n as int));
            assert(body@ =~= rest@.subrange(8, 8 + n as int));
        }
        match decode(body) {
            Ok(m) => {
                proof {
                    assert(extract(rest@).msgs =~= seq![m@] + extract(new_rest@).msgs);
                    assert(views_of(msgs@.push(m)) =~= views_of(msgs@).push(m@));
                    assert(views_of(msgs@).push(m@) + extract(new_rest@).msgs =~= views_of(msgs@)
                        + extract(rest@).msgs);
                }
                msgs.push(m);
            },
            Err(_) => {
                proof {
                    assert(extract(rest@).dropped == extract(new_rest@).dropped + 1);
                }
                dropped = dropped + 1;
            },
        }
        rest = new_rest;
    }
    (msgs, dropped, rest)
}

/// The byte stream that carries the given envelopes, one frame each.
pub open spec fn wire_of(msgs: Seq<MsgView>) -> Seq<u8>
    decreases msgs.len(),
{
    if msgs.len() == 0 {
        Seq::empty()
    } else {
        framed(encoded(msgs[0])) + wire_of(msgs.drop_first())
    }
}

/// Whether every envelope of a sequence fits behind a length prefix.
pub open spec fn all_frameable(msgs: Seq<MsgView>) -> bool {
    forall|i: int| 0 <= i < msgs.len() ==> frameable(#[trigger] msgs[i])
}

/// A receiver that splits the stream carrying the given envelopes gets
/// exactly those envelopes, in order, each exactly once, dropping nothing.
pub proof fn lemma_wire_round_trip(msgs: Seq<MsgView>)
    requires
        all_frameable(msgs),
    ensures
        extract(wire_of(msgs)) == (Extraction { msgs, dropped: 0, rest: Seq::<u8>::empty() }),
    decreases msgs.len(),
{
    if msgs.len() == 0 {
        assert(extract(wire_of(msgs)) =~= (Extraction {
            msgs,
            dropped: 0,
            rest: Seq::<u8>::empty(),
        }));
    } else {
        let tail = msgs.drop_first();
        let rest = wire_of(tail);
        assert(all_frameable(tail));
        lemma_wire_round_trip(tail);
        lemma_round_trip(msgs[0]);
        lemma_extract_step(encoded(msgs[0]), rest);
        assert(extract(framed(encoded(msgs[0])) + rest) == (Extraction {
            msgs: seq![msgs[0]] + tail,
            dropped: 0,
            rest: Seq::<u8>::empty(),
        }));
        assert(seq![msgs[0]] + tail =~= msgs);
        assert(wire_of(msgs) == framed(encoded(msgs[0])) + rest);
    }
}

/// One corrupted frame between two valid frames costs exactly the corrupted
/// frame: both envelopes are delivered, one frame is dropped, and nothing
/// lingers in the stream.
pub proof fn lemma_malformed_frame_isolation(m1: MsgView, bad: Seq<u8>, m2: MsgView)
    requires
        decoded(bad) is Err,
        frameable(m1),
        frameable(m2),
        bad.len() <= u64::MAX,
    ensures
        extract(framed(encoded(m1)) + framed(bad) + framed(encoded(m2))) == (Extraction {
            msgs: seq![m1, m2],
            dropped: 1,
            rest: Seq::<u8>::empty(),
        }),
{
    let empty = Seq::<u8>::empty();
    let w2 = framed(encoded(m2));
    let rest1 = framed(bad) + w2;
    assert(framed(encoded(m1)) + framed(bad) + w2 =~= framed(encoded(m1)) + rest1);
    assert(w2 =~= framed(encoded(m2)) + empty);
    lemma_round_trip(m1);
    lemma_round_trip(m2);
    lemma_extract_step(encoded(m2), empty);
    assert(extract(w2) =~= (Extraction { msgs: seq![m2], dropped: 0, rest: empty }));
    lemma_extract_step(bad, w2);
    assert(extract(rest1) =~= (Extraction { msgs: seq![m2], dropped: 1, rest: empty }));
    lemma_extract_step(encoded(m1), rest1);
    assert(seq![m1] + seq![m2] =~= seq![m1, m2]);
    assert(extract(framed(encoded(m1)) + rest1) =~= (Extraction {
        msgs: seq![m1, m2],
        dropped: 1,
        rest: empty,
    }));
}

} // verus!
