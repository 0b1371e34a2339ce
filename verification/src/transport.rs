//! The transport: owns the lifecycle of one connection to a fixed endpoint.
//!
//! All decisions live here as a state machine over plain values: what to
//! queue, what to write, when to retry, what a received chunk of bytes
//! delivers. The caller performs the actual socket work and feeds the
//! outcomes back in as events; whatever those outcomes are, the contracts
//! below say exactly how the transport reacts.
//!
//! Envelopes submitted while the connection is down are queued and flushed
//! in submission order on reconnect; a frame that fails to decode is dropped
//! without touching the connection.

use vstd::prelude::*;
use crate::codec::{
    all_frameable, encode_framed, encoded, extract, extract_frames, frameable, framed,
    lemma_wire_round_trip, wire_of, Extraction,
};
use crate::msg::{views_of, MessageType, Msg, MsgId, MsgInfo, MsgView};

verus! {

/// The states of the connection lifecycle. `Stopped` is reached only by an
/// explicit shutdown and is terminal.
#[derive(Clone, Copy, Debug, PartialEq, Eq, Structural)]
pub enum ConnState {
    Disconnected,
    Connecting,
    Connected,
    Stopped,
}

/// Where and how the transport connects: the peer address and the retry and
/// keep-alive cadences.
#[derive(Debug)]
pub struct TransportConfig {
    pub endpoint: String,
    pub reconnect_interval_ms: u64,
    pub heartbeat_interval_ms: u64,
}

/// The mathematical value of a transport.
#[verifier::ext_equal]
pub ghost struct TransportView {
    pub state: ConnState,
    pub pending: Seq<MsgView>,
    pub rbuf: Seq<u8>,
    pub endpoint: Seq<char>,
    pub reconnect_interval_ms: u64,
    pub heartbeat_interval_ms: u64,
}

/// Starting a disconnected transport moves it to `Connecting`; anywhere
/// else, starting changes nothing.
pub open spec fn start_spec(t: TransportView) -> TransportView {
    if t.state is Disconnected {
        TransportView { state: ConnState::Connecting, ..t }
    } else {
        t
    }
}

/// Submitting an envelope queues it unless the transport is connected, in
/// which case the queue is left alone and the envelope goes to the wire.
pub open spec fn queued_send(t: TransportView, m: MsgView) -> TransportView {
    if t.state is Connected {
        t
    } else {
        TransportView { pending: t.pending.push(m), ..t }
    }
}

/// A successful connect: the transport is connected and its backlog has
/// been handed to the wire.
pub open spec fn connect_ok_spec(t: TransportView) -> TransportView {
    TransportView { state: ConnState::Connected, pending: Seq::empty(), ..t }
}

/// The wire frames of the backlog, in submission order.
pub open spec fn flushed_frames(t: TransportView) -> Seq<Seq<u8>> {
    t.pending.map_values(|m: MsgView| framed(encoded(m)))
}

/// A failed connect attempt changes nothing: the transport keeps retrying
/// on its fixed cadence.
pub open spec fn connect_failed_spec(t: TransportView) -> TransportView {
    t
}

/// A connection loss: the socket is gone, remnants of its byte stream are
/// dropped, queued envelopes are kept, and the transport is reconnecting.
pub open spec fn io_error_spec(t: TransportView) -> TransportView {
    TransportView { state: ConnState::Connecting, rbuf: Seq::empty(), ..t }
}

/// Shutting down is terminal.
pub open spec fn shutdown_spec(t: TransportView) -> TransportView {
    TransportView { state: ConnState::Stopped, ..t }
}

/// The keep-alive envelope: type `NoneType`, empty payload.
pub open spec fn heartbeat_view(uid: MsgId) -> MsgView {
    MsgView { msg_type: MessageType::NoneType, uid, payload: Seq::empty() }
}

/// Owns one logical connection: the state, the backlog of envelopes waiting
/// for a connection, and the bytes of a partially received frame.
pub struct Transport {
    state: ConnState,
    pending: Vec<Msg>,
    rbuf: Vec<u8>,
    config: TransportConfig,
}

impl View for Transport {
    type V = TransportView;

    closed spec fn view(&self) -> TransportView {
        TransportView {
            state: self.state,
            pending: views_of(self.pending@),
            rbuf: self.rbuf@,
            endpoint: self.config.endpoint@,
            reconnect_interval_ms: self.config.reconnect_interval_ms,
            heartbeat_interval_ms: self.config.heartbeat_interval_ms,
        }
    }
}

impl Transport {
    /// A transport for `config`, initially disconnected with nothing queued.
    pub fn new(config: TransportConfig) -> (r: Transport)
        ensures
            r@ == (TransportView {
                state: ConnState::Disconnected,
                pending: Seq::<MsgView>::empty(),
                rbuf: Seq::<u8>::empty(),
                endpoint: config.endpoint@,
                reconnect_interval_ms: config.reconnect_interval_ms,
                heartbeat_interval_ms: config.heartbeat_interval_ms,
            }),
    {
        let r = Transport {
            state: ConnState::Disconnected,
            pending: Vec::new(),
            rbuf: Vec::new(),
            config,
        };
        proof {
            assert(views_of(r.pending@) =~= Seq::<MsgView>::empty());
        }
        r
    }

    /// The current connection state.
    pub fn state(&self) -> (r: ConnState)
        ensures
            r == self@.state,
    {
        self.state
    }

    /// How many envelopes wait for a connection.
    pub fn pending_len(&self) -> (r: usize)
        ensures
            r == self@.pending.len(),
    {
        self.pending.len()
    }

    /// The peer address this transport connects to.
    pub fn endpoint(&self) -> (r: &String)
        ensures
            r@ == self@.endpoint,
    {
        &self.config.endpoint
    }

    /// The retry cadence in milliseconds.
    pub fn reconnect_interval_ms(&self) -> (r: u64)
        ensures
            r == self@.reconnect_interval_ms,
    {
        self.config.reconnect_interval_ms
    }

    /// The keep-alive cadence in milliseconds.
    pub fn heartbeat_interval_ms(&self) -> (r: u64)
        ensures
            r == self@.heartbeat_interval_ms,
    {
        self.config.heartbeat_interval_ms
    }

    /// Begins connecting; returns whether a connect attempt is now owed.
    pub fn start(&mut self) -> (attempt: bool)
        ensures
            final(self)@ == start_spec(old(self)@),
            attempt == (old(self)@.state is Disconnected),
    {
        if matches!(self.state, ConnState::Disconnected) {
            self.state = ConnState::Connecting;
            true
        } else {
            false
        }
    }

    /// Submits an envelope. Connected: the returned bytes are its wire
    /// frame, owed to the socket now. Not connected: the envelope joins the
    /// backlog, behind everything submitted before it.
    pub fn send(&mut self, m: Msg) -> (wire: Option<Vec<u8>>)
        ensures
            final(self)@ == queued_send(old(self)@, m@),
            old(self)@.state is Connected ==> (wire matches Some(b) && b@ == framed(encoded(m@))),
            !(old(self)@.state is Connected) ==> wire is None,
    {
        if matches!(self.state, ConnState::Connected) {
            Some(encode_framed(&m))
        } else {
            self.pending.push(m);
            proof {
                assert(views_of(self.pending@) =~= views_of(old(self).pending@).push(m@));
            }
            None
        }
    }

    /// Records a successful connect: the transport is connected, and the
    /// returned frames are the backlog in submission order, owed to the
    /// socket now, oldest first.
    pub fn on_connect_ok(&mut self) -> (frames: Vec<Vec<u8>>)
        requires
            old(self)@.state is Connecting,
        ensures
            final(self)@ == connect_ok_spec(old(self)@),
            frames@.map_values(|b: Vec<u8>| b@) == flushed_frames(old(self)@),
    {
        self.state = ConnState::Connected;
        let mut frames: Vec<Vec<u8>> = Vec::new();
        let mut i: usize = 0;
        while i < self.pending.len()
            invariant
                i <= self.pending@.len(),
                self.pending@ == old(self).pending@,
                frames@.len() == i,
                forall|j: int| 0 <= j < i ==> (#[trigger] frames@[j])@ == framed(
                    encoded(self.pending@[j]@),
                ),
            decreases self.pending@.len() - i,
        {
            let frame = encode_framed(&self.pending[i]);
            frames.push(frame);
            i = i + 1;
        }
        self.pending.clear();
        proof {
            assert(views_of(self.pending@) =~= Seq::<MsgView>::empty());
            assert(frames@.map_values(|b: Vec<u8>| b@) =~= flushed_frames(old(self)@));
            assert(final(self)@ =~= connect_ok_spec(old(self)@));
        }
        frames
    }

    /// Records a failed connect attempt; nothing changes, and the returned
    /// delay says how long to wait before the next attempt.
    pub fn on_connect_failed(&mut self) -> (retry_ms: u64)
        requires
            old(self)@.state is Connecting,
        ensures
            final(self)@ == connect_failed_spec(old(self)@),
            retry_ms == old(self)@.reconnect_interval_ms,
    {
        self.config.reconnect_interval_ms
    }

    /// Records a connection loss (read, write, or heartbeat failure): the
    /// partial frame is discarded, the backlog is kept, and the transport is
    /// reconnecting.
    pub fn on_io_error(&mut self)
        requires
            old(self)@.state is Connected,
        ensures
            final(self)@ == io_error_spec(old(self)@),
    {
        self.state = ConnState::Connecting;
        self.rbuf = Vec::new();
    }

    /// The keep-alive frame owed to the socket, when connected; `None`
    /// otherwise. The transport itself is unchanged.
    pub fn send_heartbeat(&mut self) -> (wire: Option<Vec<u8>>)
        ensures
            final(self)@ == old(self)@,
            (old(self)@.state is Connected) <==> (wire is Some),
            wire matches Some(b) ==> exists|uid: MsgId| b@ == framed(
                encoded(#[trigger] heartbeat_view(uid)),
            ),
    {
        if matches!(self.state, ConnState::Connected) {
            let info = MsgInfo::new(MessageType::NoneType);
            let hb = Msg { info, payload: Vec::new() };
            let frame = encode_framed(&hb);
            proof {
                assert(hb@ =~= heartbeat_view(info.uid));
                assert(frame@ == framed(encoded(heartbeat_view(info.uid))));
            }
            Some(frame)
        } else {
            None
        }
    }

    /// Feeds bytes read from the socket into the transport: complete frames
    /// are split off and decoded, a frame that does not decode is dropped
    /// and counted, and the trailing partial frame is kept for the next
    /// read. The connection is never torn down here: one bad frame must not
    /// cascade into a reconnect.
    pub fn on_bytes(&mut self, chunk: &[u8]) -> (r: (Vec<Msg>, u64))
        requires
            old(self)@.state is Connected,
        ensures
            final(self)@ == (TransportView {
                rbuf: extract(old(self)@.rbuf + chunk@).rest,
                ..old(self)@
            }),
            views_of(r.0@) == extract(old(self)@.rbuf + chunk@).msgs,
            r.1 == extract(old(self)@.rbuf + chunk@).dropped,
    {
        let mut buf: Vec<u8> = Vec::new();
        core::mem::swap(&mut buf, &mut self.rbuf);
        let mut i: usize = 0;
        while i < chunk.len()
            invariant
                i <= chunk@.len(),
                buf@ =~= old(self)@.rbuf + chunk@.subrange(0, i as int),
            decreases chunk@.len() - i,
        {
            buf.push(*vstd::slice::slice_index_get(chunk, i));
            i = i + 1;
            proof {
                assert(buf@ =~= old(self)@.rbuf + chunk@.subrange(0, i as int));
            }
        }
        proof {
            assert(buf@ =~= old(self)@.rbuf + chunk@);
        }
        let (msgs, dropped, rest) = extract_frames(buf);
        self.rbuf = rest;
        proof {
            assert(final(self)@ =~= (TransportView {
                rbuf: extract(old(self)@.rbuf + chunk@).rest,
                ..old(self)@
            }));
        }
        (msgs, dropped)
    }

    /// Shuts the transport down for good; every loop that drives it must
    /// observe this and exit.
    pub fn shutdown(&mut self)
        ensures
            final(self)@ == shutdown_spec(old(self)@),
    {
        self.state = ConnState::Stopped;
    }
}

/// Ordering under disconnect: three envelopes submitted while the transport
/// is not connected sit behind the existing backlog in exactly that order,
/// and the flush on reconnect hands their frames to the wire in that order.
/// When the backlog started empty, the peer that splits the flushed stream
/// receives exactly those three envelopes, in order, each exactly once.
pub proof fn lemma_ordering_under_disconnect(
    t: TransportView,
    e1: MsgView,
    e2: MsgView,
    e3: MsgView,
)
    requires
        !(t.state is Connected),
        frameable(e1),
        frameable(e2),
        frameable(e3),
    ensures
        ({
            let q = queued_send(queued_send(queued_send(t, e1), e2), e3);
            &&& q.pending == t.pending + seq![e1, e2, e3]
            &&& connect_ok_spec(q).state is Connected
            &&& connect_ok_spec(q).pending == Seq::<MsgView>::empty()
            &&& flushed_frames(q) == flushed_frames(t) + seq![
                framed(encoded(e1)),
                framed(encoded(e2)),
                framed(encoded(e3)),
            ]
            &&& t.pending == Seq::<MsgView>::empty() ==> extract(wire_of(q.pending)) == (
            Extraction { msgs: seq![e1, e2, e3], dropped: 0, rest: Seq::<u8>::empty() })
        }),
{
    let q = queued_send(queued_send(queued_send(t, e1), e2), e3);
    assert(q.pending =~= t.pending + seq![e1, e2, e3]);
    assert(flushed_frames(q) =~= flushed_frames(t) + seq![
        framed(encoded(e1)),
        framed(encoded(e2)),
        framed(encoded(e3)),
    ]);
    if t.pending == Seq::<MsgView>::empty() {
        assert(q.pending =~= seq![e1, e2, e3]);
        assert(all_frameable(q.pending)) by {
            assert(q.pending[0] == e1 && q.pending[1] == e2 && q.pending[2] == e3);
        }
        lemma_wire_round_trip(q.pending);
    }
}

/// The transport after `n` consecutive failed connect attempts: each
/// attempt leaves it unchanged, still retrying.
pub open spec fn after_failures(t: TransportView, n: nat) -> TransportView
    decreases n,
{
    if n == 0 {
        t
    } else {
        connect_failed_spec(after_failures(t, (n - 1) as nat))
    }
}

/// Reconnect convergence: however many connect attempts fail, the transport
/// keeps retrying with its backlog intact, and the first success leaves it
/// connected with the same frames flushed as if no attempt had failed.
pub proof fn lemma_reconnect_convergence(t: TransportView, n: nat)
    requires
        t.state is Connecting,
    ensures
        after_failures(t, n) == t,
        after_failures(t, n).state is Connecting,
        connect_ok_spec(after_failures(t, n)).state is Connected,
        flushed_frames(after_failures(t, n)) == flushed_frames(t),
    decreases n,
{
    if n > 0 {
        lemma_reconnect_convergence(t, (n - 1) as nat);
    }
}

} // verus!
