//! The client protocol: the message envelope of binary frames, the authorization gate on
//! writes, and the lifecycle of a connection.
//!
//! A frame holds one or more messages. Each starts with its type as a variable-length
//! unsigned integer (seven bits per byte, least significant first, high bit set on all but
//! the last byte): `0` sync, `1` awareness, `2` auth, `3` awareness query. A sync message
//! continues with its kind (`0` state vector, `1` state reply, `2` update) and a
//! length-prefixed payload; an awareness message with a length-prefixed payload; an auth
//! message with a number, and a length-prefixed reason where that number is `0`.
use vstd::prelude::*;
use crate::api_types::Authorization;

verus! {

/// The most bytes a variable-length integer may take.
pub const MAX_VAR_UINT_BYTES: u64 = 10;

/// The variable-length integer that starts at `pos`, with the bytes before it already
/// worth `acc` and the next byte's digit worth `mult` each: its value and the position after
/// it, within `fuel` more bytes.
pub open spec fn var_uint_from(b: Seq<u8>, pos: int, mult: int, acc: int, fuel: nat) -> Option<
    (int, int),
>
    decreases fuel,
{
    if fuel == 0 || pos < 0 || pos >= b.len() {
        None
    } else {
        let byte = b[pos] as int;
        let value = acc + (byte % 128) * mult;
        if byte < 128 {
            Some((value, pos + 1))
        } else {
            var_uint_from(b, pos + 1, mult * 128, value, (fuel - 1) as nat)
        }
    }
}

/// The variable-length integer at `pos` and the position after it.
pub open spec fn var_uint_at(b: Seq<u8>, pos: int) -> Option<(int, int)> {
    var_uint_from(b, pos, 1, 0, MAX_VAR_UINT_BYTES as nat)
}

/// The position after the length-prefixed byte string at `pos`.
pub open spec fn var_buf_end(b: Seq<u8>, pos: int) -> Option<int> {
    match var_uint_at(b, pos) {
        Some((n, p)) => if p + n <= b.len() {
            Some(p + n)
        } else {
            None
        },
        None => None,
    }
}

/// The kinds of message a frame may hold.
#[derive(Debug, Clone, Copy, PartialEq, Eq, Structural)]
pub enum MessageKind {
    /// A sync message carrying a state vector.
    SyncStep1,
    /// A sync message carrying the state that the peer lacks.
    SyncStep2,
    /// A sync message carrying an incremental update.
    SyncUpdate,
    /// A presence update.
    Awareness,
    /// An authorization message.
    Auth,
    /// A request for the current presence states.
    QueryAwareness,
}

/// One message of a frame: its kind and its bytes, `start..end`.
#[derive(Debug, Clone, Copy, PartialEq, Eq, Structural)]
pub struct FrameMessage {
    pub kind: MessageKind,
    pub start: usize,
    pub end: usize,
}

/// The message at `pos`: its kind and the position after it.
pub open spec fn message_at(b: Seq<u8>, pos: int) -> Option<(MessageKind, int)> {
    match var_uint_at(b, pos) {
        None => None,
        Some((tag, p)) => if tag == 0 {
            match var_uint_at(b, p) {
                None => None,
                Some((sub, q)) => {
                    let kind = if sub == 0 {
                        MessageKind::SyncStep1
                    } else if sub == 1 {
                        MessageKind::SyncStep2
                    } else {
                        MessageKind::SyncUpdate
                    };
                    if sub > 2 {
                        None
                    } else {
                        match var_buf_end(b, q) {
                            Some(e) => Some((kind, e)),
                            None => None,
                        }
                    }
                },
            }
        } else if tag == 1 {
            match var_buf_end(b, p) {
                Some(e) => Some((MessageKind::Awareness, e)),
                None => None,
            }
        } else if tag == 2 {
            match var_uint_at(b, p) {
                None => None,
                Some((reason, q)) => if reason == 0 {
                    match var_buf_end(b, q) {
                        Some(e) => Some((MessageKind::Auth, e)),
                        None => None,
                    }
                } else {
                    Some((MessageKind::Auth, q))
                },
            }
        } else if tag == 3 {
            Some((MessageKind::QueryAwareness, p))
        } else {
            None
        },
    }
}

/// The messages of the frame from `pos` on, each with its bounds, or `None` where the
/// bytes do not split into messages.
pub open spec fn messages_from(b: Seq<u8>, pos: int) -> Option<Seq<FrameMessage>>
    decreases b.len() - pos,
{
    if pos >= b.len() || pos < 0 {
        Some(seq![])
    } else {
        match message_at(b, pos) {
            None => None,
            Some((kind, e)) => if e <= pos || e > b.len() {
                None
            } else {
                match messages_from(b, e) {
                    None => None,
                    Some(rest) => Some(
                        seq![FrameMessage { kind, start: pos as usize, end: e as usize }] + rest,
                    ),
                }
            },
        }
    }
}

/// Messages that change the document.
pub open spec fn is_write(kind: MessageKind) -> bool {
    kind == MessageKind::SyncStep2 || kind == MessageKind::SyncUpdate
}

/// Whether a connection with this authorization may have a message of this kind applied.
pub open spec fn admits(authorization: Authorization, kind: MessageKind) -> bool {
    authorization == Authorization::Full || !is_write(kind)
}

/// The messages of `ms` that a connection with this authorization may have applied.
pub open spec fn admitted(authorization: Authorization, ms: Seq<FrameMessage>) -> Seq<
    FrameMessage,
> {
    ms.filter(|m: FrameMessage| admits(authorization, m.kind))
}

proof fn lemma_var_uint_from_bounds(b: Seq<u8>, pos: int, mult: int, acc: int, fuel: nat)
    requires
        0 <= acc < mult,
    ensures
        var_uint_from(b, pos, mult, acc, fuel) matches Some((v, p)) ==> pos < p <= b.len() && 0
            <= v,
    decreases fuel,
{
    if fuel > 0 && 0 <= pos < b.len() {
        let byte = b[pos] as int;
        let value = acc + (byte % 128) * mult;
        assert(0 <= (byte % 128) * mult <= 127 * mult) by (nonlinear_arith)
            requires
                0 <= byte % 128 < 128,
                mult > 0,
        ;
        if byte >= 128 {
            lemma_var_uint_from_bounds(b, pos + 1, mult * 128, value, (fuel - 1) as nat);
        }
    }
}

/// `128` to the power `n`.
pub open spec fn pow128(n: nat) -> int
    decreases n,
{
    if n == 0 {
        1
    } else {
        128 * pow128((n - 1) as nat)
    }
}

proof fn lemma_pow128_positive(n: nat)
    ensures
        pow128(n) >= 1,
    decreases n,
{
    if n > 0 {
        lemma_pow128_positive((n - 1) as nat);
    }
}

proof fn lemma_pow128_max()
    ensures
        pow128(MAX_VAR_UINT_BYTES as nat) == 0x40_0000_0000_0000_0000int,
{
    assert(pow128(0) == 1);
    assert(pow128(1) == 0x80);
    assert(pow128(2) == 0x4000);
    assert(pow128(3) == 0x20_0000);
    assert(pow128(4) == 0x1000_0000);
    assert(pow128(5) == 0x8_0000_0000);
    assert(pow128(6) == 0x400_0000_0000);
    assert(pow128(7) == 0x2_0000_0000_0000);
    assert(pow128(8) == 0x100_0000_0000_0000);
    assert(pow128(9) == 0x8000_0000_0000_0000);
    assert(pow128(10) == 0x40_0000_0000_0000_0000);
}

/// Reads the variable-length integer at `pos`: its value and the position after it.
pub fn read_var_uint(b: &[u8], pos: usize) -> (r: Option<(u128, usize)>)
    ensures
        match r {
            Some((v, p)) => var_uint_at(b@, pos as int) == Some((v as int, p as int)),
            None => var_uint_at(b@, pos as int) is None,
        },
        r matches Some((v, p)) ==> pos < p <= b@.len(),
{
    proof {
        lemma_var_uint_from_bounds(b@, pos as int, 1, 0, MAX_VAR_UINT_BYTES as nat);
        lemma_pow128_max();
    }
    let mut p: usize = pos;
    let mut mult: u128 = 1;
    let mut acc: u128 = 0;
    let mut fuel: u64 = MAX_VAR_UINT_BYTES;
    while fuel > 0
        invariant
            0 <= acc < mult,
            fuel <= MAX_VAR_UINT_BYTES,
            mult * pow128(fuel as nat) == 0x40_0000_0000_0000_0000int,
            pos <= p,
            var_uint_at(b@, pos as int) == var_uint_from(
                b@,
                p as int,
                mult as int,
                acc as int,
                fuel as nat,
            ),
        decreases fuel,
    {
        if p >= b.len() {
            return None;
        }
        let byte = b[p];
        let digit = (byte % 128) as u128;
        proof {
            lemma_pow128_positive((fuel - 1) as nat);
            let big = pow128(fuel as nat);
            assert(big == 128 * pow128((fuel - 1) as nat));
            assert(mult * 128 <= 0x40_0000_0000_0000_0000int) by (nonlinear_arith)
                requires
                    mult * big == 0x40_0000_0000_0000_0000int,
                    big >= 128,
                    mult >= 1,
            ;
            assert(digit * mult <= 127 * mult) by (nonlinear_arith)
                requires
                    digit <= 127,
                    mult >= 1,
            ;
            assert((mult * 128) * pow128((fuel - 1) as nat) == mult * big) by (nonlinear_arith)
                requires
                    big == 128 * pow128((fuel - 1) as nat),
            ;
        }
        let value = acc + digit * mult;
        if byte < 128 {
            return Some((value, p + 1));
        }
        mult = mult * 128;
        acc = value;
        p = p + 1;
        fuel = fuel - 1;
    }
    None
}


/// The position after the length-prefixed byte string at `pos`.
fn read_var_buf_end(b: &[u8], pos: usize) -> (r: Option<usize>)
    ensures
        match r {
            Some(e) => var_buf_end(b@, pos as int) == Some(e as int),
            None => var_buf_end(b@, pos as int) is None,
        },
{
    match read_var_uint(b, pos) {
        None => None,
        Some((n, p)) => {
            if n <= (b.len() - p) as u128 {
                Some(p + n as usize)
            } else {
                None
            }
        },
    }
}

/// The message at `pos`: its kind and the position after it.
pub fn read_message(b: &[u8], pos: usize) -> (r: Option<(MessageKind, usize)>)
    ensures
        match r {
            Some((k, e)) => message_at(b@, pos as int) == Some((k, e as int)),
            None => message_at(b@, pos as int) is None,
        },
{
    let (tag, p) = match read_var_uint(b, pos) {
        None => return None,
        Some(x) => x,
    };
    if tag == 0 {
        let (sub, q) = match read_var_uint(b, p) {
            None => return None,
            Some(x) => x,
        };
        if sub > 2 {
            return None;
        }
        let kind = if sub == 0 {
            MessageKind::SyncStep1
        } else if sub == 1 {
            MessageKind::SyncStep2
        } else {
            MessageKind::SyncUpdate
        };
        match read_var_buf_end(b, q) {
            Some(e) => Some((kind, e)),
            None => None,
        }
    } else if tag == 1 {
        match read_var_buf_end(b, p) {
            Some(e) => Some((MessageKind::Awareness, e)),
            None => None,
        }
    } else if tag == 2 {
        let (reason, q) = match read_var_uint(b, p) {
            None => return None,
            Some(x) => x,
        };
        if reason == 0 {
            match read_var_buf_end(b, q) {
                Some(e) => Some((MessageKind::Auth, e)),
                None => None,
            }
        } else {
            Some((MessageKind::Auth, q))
        }
    } else if tag == 3 {
        Some((MessageKind::QueryAwareness, p))
    } else {
        None
    }
}

/// `acc` followed by the messages that were split off, where the rest splits.
pub open spec fn prepend_messages(acc: Seq<FrameMessage>, o: Option<Seq<FrameMessage>>) -> Option<
    Seq<FrameMessage>,
> {
    match o {
        Some(ms) => Some(acc + ms),
        None => None,
    }
}

/// Splits a frame into its messages, or `None` where it is malformed.
pub fn split_frame(frame: &[u8]) -> (r: Option<Vec<FrameMessage>>)
    ensures
        match r {
            Some(v) => messages_from(frame@, 0) == Some(v@),
            None => messages_from(frame@, 0) is None,
        },
{
    let mut out: Vec<FrameMessage> = Vec::new();
    let mut pos: usize = 0;
    while pos < frame.len()
        invariant
            pos <= frame@.len(),
            messages_from(frame@, 0) == prepend_messages(out@, messages_from(frame@, pos as int)),
        decreases frame@.len() - pos,
    {
        match read_message(frame, pos) {
            None => return None,
            Some((kind, e)) => {
                if e <= pos || e > frame.len() {
                    return None;
                }
                let m = FrameMessage { kind, start: pos, end: e };
                proof {
                    match messages_from(frame@, e as int) {
                        Some(rest) => {
                            assert(out@.push(m) + rest == out@ + (seq![m] + rest));
                        },
                        None => {},
                    }
                }
                out.push(m);
                pos = e;
            },
        }
    }
    assert(out@ + Seq::<FrameMessage>::empty() == out@);
    Some(out)
}

/// The messages of a frame that a connection with this authorization may have applied:
/// every message for a full connection, all but the writes for a read-only one. `None`
/// where the frame is malformed.
pub fn admitted_messages(authorization: Authorization, frame: &[u8]) -> (r: Option<
    Vec<FrameMessage>,
>)
    ensures
        match r {
            Some(v) => messages_from(frame@, 0) matches Some(ms) && v@ == admitted(
                authorization,
                ms,
            ),
            None => messages_from(frame@, 0) is None,
        },
{
    let all = match split_frame(frame) {
        None => return None,
        Some(v) => v,
    };
    let mut out: Vec<FrameMessage> = Vec::new();
    let mut i: usize = 0;
    while i < all.len()
        invariant
            i <= all@.len(),
            out@ == admitted(authorization, all@.subrange(0, i as int)),
        decreases all@.len() - i,
    {
        let m = all[i];
        proof {
            reveal(Seq::filter);
            assert(all@.subrange(0, i + 1).drop_last() == all@.subrange(0, i as int));
            assert(all@.subrange(0, i + 1).last() == m);
        }
        let write = m.kind == MessageKind::SyncStep2 || m.kind == MessageKind::SyncUpdate;
        if authorization == Authorization::Full || !write {
            out.push(m);
        }
        i = i + 1;
    }
    assert(all@.subrange(0, all@.len() as int) == all@);
    Some(out)
}

/// A read-only connection never has a write applied, and a full one has every message
/// applied.
pub proof fn lemma_authorization_gate(ms: Seq<FrameMessage>)
    ensures
        forall|i: int|
            0 <= i < admitted(Authorization::ReadOnly, ms).len() ==> !is_write(
                #[trigger] admitted(Authorization::ReadOnly, ms)[i].kind,
            ),
        admitted(Authorization::Full, ms) == ms,
    decreases ms.len(),
{
    broadcast use Seq::lemma_filter_pred;

    reveal(Seq::filter);
    if ms.len() > 0 {
        lemma_authorization_gate(ms.drop_last());
        assert(ms.drop_last().push(ms.last()) == ms);
    }
}


/// Where a client connection stands.
#[derive(Debug, Clone, Copy, PartialEq, Eq, Structural)]
pub enum ConnectionState {
    Connecting,
    /// Admitted with a valid authorization; no frame yet.
    Authorized,
    /// Exchanging frames.
    Open,
    /// Draining the outbound queue before closing.
    Closing,
    Closed,
}

/// What happened on a connection.
#[derive(Debug, Clone, Copy, PartialEq, Eq, Structural)]
pub enum ConnectionEvent {
    /// The authorization was checked.
    Authenticated { valid: bool },
    /// A binary frame arrived.
    FrameReceived,
    /// The client closed the stream.
    RemoteClose,
    /// The transport failed.
    TransportError,
    /// The server is shutting down.
    Cancelled,
    /// The outbound queue is empty.
    QueueDrained,
}

/// The state after an event. Events that do not apply leave the state as it is.
pub open spec fn connection_next(s: ConnectionState, e: ConnectionEvent) -> ConnectionState {
    match (s, e) {
        (ConnectionState::Closed, _) => ConnectionState::Closed,
        (_, ConnectionEvent::RemoteClose) => ConnectionState::Closing,
        (_, ConnectionEvent::TransportError) => ConnectionState::Closing,
        (_, ConnectionEvent::Cancelled) => ConnectionState::Closing,
        (ConnectionState::Connecting, ConnectionEvent::Authenticated { valid }) => if valid {
            ConnectionState::Authorized
        } else {
            ConnectionState::Closing
        },
        (ConnectionState::Authorized, ConnectionEvent::FrameReceived) => ConnectionState::Open,
        (ConnectionState::Closing, ConnectionEvent::QueueDrained) => ConnectionState::Closed,
        _ => s,
    }
}

/// Moves a connection along its lifecycle.
pub fn connection_step(s: ConnectionState, e: ConnectionEvent) -> (r: ConnectionState)
    ensures
        r == connection_next(s, e),
{
    match (s, e) {
        (ConnectionState::Closed, _) => ConnectionState::Closed,
        (_, ConnectionEvent::RemoteClose) => ConnectionState::Closing,
        (_, ConnectionEvent::TransportError) => ConnectionState::Closing,
        (_, ConnectionEvent::Cancelled) => ConnectionState::Closing,
        (ConnectionState::Connecting, ConnectionEvent::Authenticated { valid }) => {
            if valid {
                ConnectionState::Authorized
            } else {
                ConnectionState::Closing
            }
        },
        (ConnectionState::Authorized, ConnectionEvent::FrameReceived) => ConnectionState::Open,
        (ConnectionState::Closing, ConnectionEvent::QueueDrained) => ConnectionState::Closed,
        _ => s,
    }
}

/// Whether frames received in this state are handled.
pub fn handles_frames(s: ConnectionState) -> (r: bool)
    ensures
        r == (s == ConnectionState::Authorized || s == ConnectionState::Open),
{
    s == ConnectionState::Authorized || s == ConnectionState::Open
}

/// How many frames may wait to be sent to one client.
pub const OUTBOUND_QUEUE_CAPACITY: usize = 1024;

/// The frames waiting to be sent to one client, in the order they were produced. When the
/// queue is full a new frame is dropped and counted; the connection stays open, since the
/// periodic state exchange brings the client back in step.
pub struct OutboundQueue {
    frames: std::collections::VecDeque<Vec<u8>>,
    dropped: u64,
}

impl OutboundQueue {
    /// The waiting frames, oldest first.
    pub closed spec fn frames(&self) -> Seq<Seq<u8>> {
        self.frames@.map_values(|f: Vec<u8>| f@)
    }

    /// How many frames were dropped for want of room.
    pub closed spec fn dropped_count(&self) -> u64 {
        self.dropped
    }

    /// The queue never holds more than its capacity.
    pub closed spec fn wf(&self) -> bool {
        self.frames@.len() <= OUTBOUND_QUEUE_CAPACITY
    }

    /// An empty queue.
    pub fn new() -> (r: OutboundQueue)
        ensures
            r.wf(),
            r.frames() == Seq::<Seq<u8>>::empty(),
            r.dropped_count() == 0,
    {
        let r = OutboundQueue { frames: std::collections::VecDeque::new(), dropped: 0 };
        assert(r.frames() =~= Seq::<Seq<u8>>::empty());
        r
    }

    /// Queues a frame where there is room and returns `true`; else drops it, counts the drop
    /// (saturating) and returns `false`.
    pub fn push(&mut self, frame: Vec<u8>) -> (accepted: bool)
        requires
            old(self).wf(),
        ensures
            final(self).wf(),
            accepted == (old(self).frames().len() < OUTBOUND_QUEUE_CAPACITY),
            accepted ==> final(self).frames() == old(self).frames().push(frame@)
                && final(self).dropped_count() == old(self).dropped_count(),
            !accepted ==> final(self).frames() == old(self).frames() && final(self).dropped_count()
                == if old(self).dropped_count() == u64::MAX {
                u64::MAX
            } else {
                (old(self).dropped_count() + 1) as u64
            },
    {
        if self.frames.len() < OUTBOUND_QUEUE_CAPACITY {
            let ghost f = frame@;
            self.frames.push_back(frame);
            assert(self.frames() =~= old(self).frames().push(f));
            true
        } else {
            if self.dropped < u64::MAX {
                self.dropped = self.dropped + 1;
            }
            false
        }
    }

    /// Takes the oldest waiting frame.
    pub fn pop(&mut self) -> (r: Option<Vec<u8>>)
        requires
            old(self).wf(),
        ensures
            final(self).wf(),
            final(self).dropped_count() == old(self).dropped_count(),
            match r {
                Some(f) => old(self).frames().len() > 0 && f@ == old(self).frames()[0]
                    && final(self).frames() == old(self).frames().drop_first(),
                None => old(self).frames().len() == 0 && final(self).frames() == old(
                    self,
                ).frames(),
            },
    {
        let r = self.frames.pop_front();
        assert(self.frames() =~= match r {
            Some(_) => old(self).frames().drop_first(),
            None => old(self).frames(),
        });
        r
    }

    /// How many frames are waiting.
    pub fn len(&self) -> (r: usize)
        ensures
            r == self.frames().len(),
    {
        self.frames.len()
    }

    /// How many frames were dropped for want of room.
    pub fn dropped(&self) -> (r: u64)
        ensures
            r == self.dropped_count(),
    {
        self.dropped
    }
}

} // verus!
