//! The per-connection session actor's decision logic: a step function
//! from state and event to the frames written to the socket sink, the
//! extension callback to invoke, and the disconnection report. The
//! embedding runtime owns the queues; it drains exactly one ready event
//! per iteration and performs the actions of the returned effect.

use crate::socket::raw_of;
use crate::socket::Message;
use crate::socket::RawMessage;
use vstd::prelude::*;

verus! {

/// The state one session actor owns: its identity and whether its loop
/// is still running.
#[derive(Clone, Copy, PartialEq, Eq, Structural, Debug)]
pub struct Session {
    pub id: usize,
    pub alive: bool,
}

/// One event a session actor's loop can wake on.
#[derive(Clone, Debug)]
pub enum SessionEvent {
    /// The socket's producer yielded a frame.
    Inbound(RawMessage),
    /// Another component submitted an outbound send through the handle.
    SendRequest(Message),
    /// The socket's producer is exhausted.
    StreamEnded,
}

/// The extension callback one step asks the embedding logic to run.
#[derive(Clone, Debug, PartialEq)]
pub enum Delivery {
    DeliverText(String),
    DeliverBinary(Vec<u8>),
}

/// What one step of the session loop does.
#[derive(Debug)]
pub struct SessionEffect {
    /// Frames to write to the socket sink, in this order.
    pub writes: Vec<RawMessage>,
    /// Extension callback to invoke, if any.
    pub delivery: Option<Delivery>,
    /// Whether this step reports the session's disconnection.
    pub report_disconnect: bool,
}

/// Whether an event ends the session: an inbound close frame, or the
/// exhaustion of the socket's producer.
pub open spec fn is_closing(ev: SessionEvent) -> bool {
    match ev {
        SessionEvent::Inbound(r) => r is Close,
        SessionEvent::SendRequest(_) => false,
        SessionEvent::StreamEnded => true,
    }
}

/// The session state after one event: a closing event ends a live
/// session; nothing else changes it.
pub open spec fn session_next(s: Session, ev: SessionEvent) -> Session {
    if s.alive && is_closing(ev) {
        Session { id: s.id, alive: false }
    } else {
        s
    }
}

/// Whether one event makes the session report its disconnection: only
/// the closing event that actually ends it.
pub open spec fn session_reports(s: Session, ev: SessionEvent) -> bool {
    s.alive && is_closing(ev)
}

/// The frames one event makes a live session write to the sink: a pong
/// answering a ping, a close frame acknowledging the peer's close or the
/// stream's end, and the frame of every outbound-send request. A
/// terminated session writes nothing.
pub open spec fn session_writes(s: Session, ev: SessionEvent) -> Seq<RawMessage> {
    if !s.alive {
        Seq::empty()
    } else {
        match ev {
            SessionEvent::Inbound(r) => match r {
                RawMessage::Ping(p) => seq![RawMessage::Pong(p)],
                RawMessage::Close(c) => seq![RawMessage::Close(c)],
                _ => Seq::empty(),
            },
            SessionEvent::SendRequest(m) => seq![raw_of(m)],
            SessionEvent::StreamEnded => seq![RawMessage::Close(None)],
        }
    }
}

/// The callback one event makes a live session invoke: text and binary
/// frames are handed to the extension logic; everything else is handled
/// by the runtime itself.
pub open spec fn session_delivery(s: Session, ev: SessionEvent) -> Option<Delivery> {
    if !s.alive {
        None
    } else {
        match ev {
            SessionEvent::Inbound(r) => match r {
                RawMessage::Text(t) => Some(Delivery::DeliverText(t)),
                RawMessage::Binary(b) => Some(Delivery::DeliverBinary(b)),
                _ => None,
            },
            _ => None,
        }
    }
}

impl Session {
    /// A session actor at construction: running, under the identity the
    /// server granted it.
    pub fn new(id: usize) -> (s: Session)
        ensures
            s.id == id,
            s.alive,
    {
        Session { id, alive: true }
    }

    /// One iteration of the session loop, processing exactly one ready
    /// event. The effect says which frames to write to the sink, in
    /// order; which extension callback to invoke; and whether this step
    /// reports the session's disconnection to the server.
    pub fn step(&mut self, ev: SessionEvent) -> (eff: SessionEffect)
        ensures
            *final(self) == session_next(*old(self), ev),
            eff.writes@ == session_writes(*old(self), ev),
            eff.delivery == session_delivery(*old(self), ev),
            eff.report_disconnect == session_reports(*old(self), ev),
    {
        if !self.alive {
            return SessionEffect { writes: Vec::new(), delivery: None, report_disconnect: false };
        }
        match ev {
            SessionEvent::Inbound(r) => match r {
                RawMessage::Text(t) => SessionEffect {
                    writes: Vec::new(),
                    delivery: Some(Delivery::DeliverText(t)),
                    report_disconnect: false,
                },
                RawMessage::Binary(b) => SessionEffect {
                    writes: Vec::new(),
                    delivery: Some(Delivery::DeliverBinary(b)),
                    report_disconnect: false,
                },
                RawMessage::Ping(p) => {
                    let mut writes: Vec<RawMessage> = Vec::new();
                    writes.push(RawMessage::Pong(p));
                    proof {
                        assert(writes@ =~= session_writes(*old(self), ev));
                    }
                    SessionEffect { writes, delivery: None, report_disconnect: false }
                },
                RawMessage::Pong(_) => SessionEffect {
                    writes: Vec::new(),
                    delivery: None,
                    report_disconnect: false,
                },
                RawMessage::Close(c) => {
                    self.alive = false;
                    let mut writes: Vec<RawMessage> = Vec::new();
                    writes.push(RawMessage::Close(c));
                    proof {
                        assert(writes@ =~= session_writes(*old(self), ev));
                    }
                    SessionEffect { writes, delivery: None, report_disconnect: true }
                },
            },
            SessionEvent::SendRequest(m) => {
                let mut writes: Vec<RawMessage> = Vec::new();
                writes.push(m.into_raw());
                proof {
                    assert(writes@ =~= session_writes(*old(self), ev));
                }
                SessionEffect { writes, delivery: None, report_disconnect: false }
            },
            SessionEvent::StreamEnded => {
                self.alive = false;
                let mut writes: Vec<RawMessage> = Vec::new();
                writes.push(RawMessage::Close(None));
                proof {
                    assert(writes@ =~= session_writes(*old(self), ev));
                }
                SessionEffect { writes, delivery: None, report_disconnect: true }
            },
        }
    }

    /// Applies the extension logic's reply to a delivery: a reply that
    /// carries an outgoing payload becomes one frame for the sink; an
    /// empty reply writes nothing. The session state is untouched.
    pub fn on_reply(&self, reply: Option<Message>) -> (w: Option<RawMessage>)
        ensures
            w is Some <==> reply is Some,
            reply is Some ==> w == Some(raw_of(reply->0)),
    {
        match reply {
            Some(m) => Some(m.into_raw()),
            None => None,
        }
    }
}

/// One whole run of the session loop: the final state, the frames
/// written to the sink in order, and how many disconnection reports were
/// made.
pub struct SessionRun {
    pub state: Session,
    pub writes: Seq<RawMessage>,
    pub reports: nat,
}

/// The session loop over an event sequence, one event per iteration,
/// first event first.
pub open spec fn session_run(s: Session, evs: Seq<SessionEvent>) -> SessionRun
    decreases evs.len(),
{
    if evs.len() == 0 {
        SessionRun { state: s, writes: Seq::empty(), reports: 0 }
    } else {
        let rest = session_run(session_next(s, evs[0]), evs.drop_first());
        SessionRun {
            state: rest.state,
            writes: session_writes(s, evs[0]) + rest.writes,
            reports: (if session_reports(s, evs[0]) {
                1nat
            } else {
                0nat
            }) + rest.reports,
        }
    }
}

/// Law: a session's termination is reported exactly once. Over any event
/// sequence, a live session reports its disconnection once if and only
/// if some event closes it — even if both transport closure and an
/// inbound close frame occur — and a session already terminated never
/// reports again.
pub proof fn lemma_disconnect_reported_once(s: Session, evs: Seq<SessionEvent>)
    ensures
        session_run(s, evs).reports <= 1,
        !s.alive ==> session_run(s, evs).reports == 0,
        s.alive ==> ((session_run(s, evs).reports == 1) <==> exists|k: int|
            0 <= k < evs.len() && is_closing(#[trigger] evs[k])),
    decreases evs.len(),
{
    if evs.len() == 0 {
    } else {
        let s1 = session_next(s, evs[0]);
        let tail = evs.drop_first();
        lemma_disconnect_reported_once(s1, tail);
        if s.alive {
            if is_closing(evs[0]) {
                assert(exists|k: int| 0 <= k < evs.len() && is_closing(#[trigger] evs[k])) by {
                    assert(is_closing(evs[0]));
                }
            } else {
                if session_run(s, evs).reports == 1 {
                    let k = choose|k: int| 0 <= k < tail.len() && is_closing(#[trigger] tail[k]);
                    assert(evs[k + 1] == tail[k]);
                    assert(is_closing(evs[k + 1]));
                }
                if exists|k: int| 0 <= k < evs.len() && is_closing(#[trigger] evs[k]) {
                    let k = choose|k: int| 0 <= k < evs.len() && is_closing(#[trigger] evs[k]);
                    assert(k != 0);
                    assert(tail[k - 1] == evs[k]);
                    assert(is_closing(tail[k - 1]));
                }
            }
        }
    }
}

/// The frames that the outbound-send requests of an event sequence
/// carry, in submission order.
pub open spec fn frames_of_sends(evs: Seq<SessionEvent>) -> Seq<RawMessage>
    decreases evs.len(),
{
    if evs.len() == 0 {
        Seq::empty()
    } else {
        let rest = frames_of_sends(evs.drop_first());
        match evs[0] {
            SessionEvent::SendRequest(m) => seq![raw_of(m)] + rest,
            _ => rest,
        }
    }
}

/// The frames of a write stream that are not transport-level pong
/// replies.
pub open spec fn non_pong(ws: Seq<RawMessage>) -> Seq<RawMessage>
    decreases ws.len(),
{
    if ws.len() == 0 {
        Seq::empty()
    } else if ws[0] is Pong {
        non_pong(ws.drop_first())
    } else {
        seq![ws[0]] + non_pong(ws.drop_first())
    }
}

/// Law: outbound sends reach the sink first-in first-out. While a
/// session is live and no event closes it, the sink's writes — pong
/// replies aside — are exactly the frames of the outbound-send requests,
/// in the order they were submitted, interleaved with inbound processing
/// only at loop-iteration granularity.
pub proof fn lemma_sends_fifo(s: Session, evs: Seq<SessionEvent>)
    requires
        s.alive,
        forall|k: int| 0 <= k < evs.len() ==> !is_closing(#[trigger] evs[k]),
    ensures
        non_pong(session_run(s, evs).writes) == frames_of_sends(evs),
    decreases evs.len(),
{
    if evs.len() == 0 {
    } else {
        let tail = evs.drop_first();
        assert(!is_closing(evs[0]));
        assert(session_next(s, evs[0]) == s);
        assert forall|k: int| 0 <= k < tail.len() implies !is_closing(#[trigger] tail[k]) by {
            assert(tail[k] == evs[k + 1]);
            assert(!is_closing(evs[k + 1]));
        }
        lemma_sends_fifo(s, tail);
        let hw = session_writes(s, evs[0]);
        let rest = session_run(s, tail).writes;
        match evs[0] {
            SessionEvent::SendRequest(m) => {
                assert(hw == seq![raw_of(m)]);
                assert(!(raw_of(m) is Pong));
                assert((hw + rest)[0] == raw_of(m));
                assert((hw + rest).drop_first() =~= rest);
                assert(non_pong(hw + rest) =~= seq![raw_of(m)] + non_pong(rest));
            },
            SessionEvent::Inbound(r) => {
                match r {
                    RawMessage::Ping(p) => {
                        assert(hw == seq![RawMessage::Pong(p)]);
                        assert((hw + rest)[0] is Pong);
                        assert((hw + rest).drop_first() =~= rest);
                        assert(non_pong(hw + rest) =~= non_pong(rest));
                    },
                    _ => {
                        assert(hw =~= Seq::<RawMessage>::empty());
                        assert(hw + rest =~= rest);
                    },
                }
            },
            SessionEvent::StreamEnded => {
                assert(false);
            },
        }
    }
}

} // verus!
