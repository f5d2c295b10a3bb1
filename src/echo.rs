//! The per-connection session of the echo (ping-pong) server.
//!
//! The session is a state machine: the code that owns the socket reports what
//! happened (`StreamEvent`) and performs what the session asks next
//! (`SessionAction`). Every read and write outcome is decided here.

use vstd::prelude::*;

verus! {

/// How many bytes a single read may deliver.
pub const RECEIVE_CAPACITY: usize = 4098;

/// Why a session ended. Each ending is local to its connection.
#[derive(Clone, Copy, Debug, PartialEq, Eq, Structural)]
pub enum StopReason {
    /// A read returned zero bytes: the peer closed its side.
    PeerClosed,
    /// A read failed.
    ReadFailed,
    /// Fewer (or more) bytes were written than were read.
    ShortWrite,
    /// A write failed.
    WriteFailed,
}

/// What happened on the socket since the last action.
#[derive(Clone, Debug)]
pub enum StreamEvent {
    /// A read completed with these bytes (empty when the peer closed).
    Received(Vec<u8>),
    /// A read failed.
    ReadFailed,
    /// A write completed, having written this many bytes.
    Sent(usize),
    /// A write failed.
    WriteFailed,
}

/// What the socket's owner does next.
#[derive(Clone, Debug)]
pub enum SessionAction {
    /// Read up to this many bytes.
    Receive(usize),
    /// Write exactly these bytes back.
    Send(Vec<u8>),
    /// These bytes went back to the peer in full: report them, then read again.
    Echoed(Vec<u8>),
    /// Close the connection.
    Stop(StopReason),
}

/// Where a session stands.
#[derive(Clone, Debug)]
pub enum SessionPhase {
    /// Waiting for the next read.
    Receiving,
    /// Waiting for the write of these bytes.
    Sending(Vec<u8>),
    /// Ended, for good.
    Closed(StopReason),
}

pub ghost enum EventModel {
    Received(Seq<u8>),
    ReadFailed,
    Sent(nat),
    WriteFailed,
}

pub ghost enum ActionModel {
    Receive(nat),
    Send(Seq<u8>),
    Echoed(Seq<u8>),
    Stop(StopReason),
}

pub ghost enum PhaseModel {
    Receiving,
    Sending(Seq<u8>),
    Closed(StopReason),
}

impl View for StreamEvent {
    type V = EventModel;

    open spec fn view(&self) -> EventModel {
        match self {
            StreamEvent::Received(b) => EventModel::Received(b@),
            StreamEvent::ReadFailed => EventModel::ReadFailed,
            StreamEvent::Sent(n) => EventModel::Sent(*n as nat),
            StreamEvent::WriteFailed => EventModel::WriteFailed,
        }
    }
}

impl View for SessionAction {
    type V = ActionModel;

    open spec fn view(&self) -> ActionModel {
        match self {
            SessionAction::Receive(n) => ActionModel::Receive(*n as nat),
            SessionAction::Send(b) => ActionModel::Send(b@),
            SessionAction::Echoed(b) => ActionModel::Echoed(b@),
            SessionAction::Stop(r) => ActionModel::Stop(*r),
        }
    }
}

impl View for SessionPhase {
    type V = PhaseModel;

    open spec fn view(&self) -> PhaseModel {
        match self {
            SessionPhase::Receiving => PhaseModel::Receiving,
            SessionPhase::Sending(b) => PhaseModel::Sending(b@),
            SessionPhase::Closed(r) => PhaseModel::Closed(*r),
        }
    }
}

/// The action that a phase waits on: what is asked again when an event
/// answers no outstanding request.
pub open spec fn awaited(p: PhaseModel) -> ActionModel {
    match p {
        PhaseModel::Receiving => ActionModel::Receive(RECEIVE_CAPACITY as nat),
        PhaseModel::Sending(b) => ActionModel::Send(b),
        PhaseModel::Closed(r) => ActionModel::Stop(r),
    }
}

/// One transition of the session: the next phase and the action to perform.
pub open spec fn next(p: PhaseModel, e: EventModel) -> (PhaseModel, ActionModel) {
    match (p, e) {
        (PhaseModel::Receiving, EventModel::Received(b)) => if b.len() == 0 {
            (PhaseModel::Closed(StopReason::PeerClosed), ActionModel::Stop(StopReason::PeerClosed))
        } else {
            (PhaseModel::Sending(b), ActionModel::Send(b))
        },
        (PhaseModel::Receiving, EventModel::ReadFailed) => (
            PhaseModel::Closed(StopReason::ReadFailed),
            ActionModel::Stop(StopReason::ReadFailed),
        ),
        (PhaseModel::Sending(b), EventModel::Sent(n)) => if n == b.len() {
            (PhaseModel::Receiving, ActionModel::Echoed(b))
        } else {
            (PhaseModel::Closed(StopReason::ShortWrite), ActionModel::Stop(StopReason::ShortWrite))
        },
        (PhaseModel::Sending(b), EventModel::WriteFailed) => (
            PhaseModel::Closed(StopReason::WriteFailed),
            ActionModel::Stop(StopReason::WriteFailed),
        ),
        _ => (p, awaited(p)),
    }
}

/// Feeds a sequence of events to a session in phase `p`: the final phase and
/// the actions returned, in order.
pub open spec fn run(p: PhaseModel, events: Seq<EventModel>) -> (PhaseModel, Seq<ActionModel>)
    decreases events.len(),
{
    if events.len() == 0 {
        (p, Seq::empty())
    } else {
        let (p1, a) = next(p, events[0]);
        let (p2, rest) = run(p1, events.drop_first());
        (p2, seq![a] + rest)
    }
}

/// The events of a peer that sends each chunk in turn and gets each write
/// through in full.
pub open spec fn echo_events(chunks: Seq<Seq<u8>>) -> Seq<EventModel>
    decreases chunks.len(),
{
    if chunks.len() == 0 {
        Seq::empty()
    } else {
        seq![EventModel::Received(chunks[0]), EventModel::Sent(chunks[0].len())]
            + echo_events(chunks.drop_first())
    }
}

/// The actions a session answers `echo_events(chunks)` with.
pub open spec fn echo_actions(chunks: Seq<Seq<u8>>) -> Seq<ActionModel>
    decreases chunks.len(),
{
    if chunks.len() == 0 {
        Seq::empty()
    } else {
        seq![ActionModel::Send(chunks[0]), ActionModel::Echoed(chunks[0])]
            + echo_actions(chunks.drop_first())
    }
}

/// All bytes reported as echoed by a sequence of actions, in order.
pub open spec fn echoed_bytes(actions: Seq<ActionModel>) -> Seq<u8>
    decreases actions.len(),
{
    if actions.len() == 0 {
        Seq::empty()
    } else {
        let here = match actions[0] {
            ActionModel::Echoed(b) => b,
            _ => Seq::empty(),
        };
        here + echoed_bytes(actions.drop_first())
    }
}

/// A payload cut into the reads that deliver it when each read takes as much
/// as the receive capacity allows.
pub open spec fn split_into_reads(payload: Seq<u8>) -> Seq<Seq<u8>>
    decreases payload.len(),
{
    if payload.len() == 0 {
        Seq::empty()
    } else if payload.len() <= RECEIVE_CAPACITY {
        seq![payload]
    } else {
        seq![payload.take(RECEIVE_CAPACITY as int)] + split_into_reads(
            payload.skip(RECEIVE_CAPACITY as int),
        )
    }
}

/// Every chunk can be delivered by one read: it is neither empty nor larger
/// than the receive capacity.
pub open spec fn readable_chunks(chunks: Seq<Seq<u8>>) -> bool {
    forall|i: int| 0 <= i < chunks.len() ==> 1 <= #[trigger] chunks[i].len() <= RECEIVE_CAPACITY
}

proof fn lemma_run_concat(p: PhaseModel, x: Seq<EventModel>, y: Seq<EventModel>)
    ensures
        run(p, x + y) == (run(run(p, x).0, y).0, run(p, x).1 + run(run(p, x).0, y).1),
    decreases x.len(),
{
    if x.len() == 0 {
        assert(x + y =~= y);
        assert(run(p, x).1 + run(p, y).1 =~= run(p, y).1);
    } else {
        let p1 = next(p, x[0]).0;
        assert((x + y).drop_first() =~= x.drop_first() + y);
        lemma_run_concat(p1, x.drop_first(), y);
        let a = next(p, x[0]).1;
        let r1 = run(p1, x.drop_first()).1;
        let r2 = run(run(p1, x.drop_first()).0, y).1;
        assert(seq![a] + (r1 + r2) =~= (seq![a] + r1) + r2);
    }
}

proof fn lemma_echoed_bytes_of_actions(chunks: Seq<Seq<u8>>)
    ensures
        echoed_bytes(echo_actions(chunks)) == chunks.flatten(),
    decreases chunks.len(),
{
    if chunks.len() > 0 {
        let c = chunks[0];
        let rest = echo_actions(chunks.drop_first());
        let acts = echo_actions(chunks);
        assert(acts == seq![ActionModel::Send(c), ActionModel::Echoed(c)] + rest);
        assert(acts.drop_first() =~= seq![ActionModel::Echoed(c)] + rest);
        assert(acts.drop_first().drop_first() =~= rest);
        lemma_echoed_bytes_of_actions(chunks.drop_first());
        assert(echoed_bytes(acts.drop_first()) =~= c + echoed_bytes(rest));
        assert(echoed_bytes(acts) =~= Seq::<u8>::empty() + echoed_bytes(acts.drop_first()));
        assert(echoed_bytes(acts) =~= chunks.flatten());
    }
}

/// Round trip: a read of 1 up to `RECEIVE_CAPACITY` bytes is written back
/// unchanged, and once that write goes through in full the connection stays
/// open and waits for the next read.
pub proof fn lemma_echo_round_trip(b: Seq<u8>)
    requires
        1 <= b.len() <= RECEIVE_CAPACITY,
    ensures
        next(PhaseModel::Receiving, EventModel::Received(b)) == (
            PhaseModel::Sending(b),
            ActionModel::Send(b),
        ),
        next(PhaseModel::Sending(b), EventModel::Sent(b.len())) == (
            PhaseModel::Receiving,
            ActionModel::Echoed(b),
        ),
        run(PhaseModel::Receiving, seq![EventModel::Received(b), EventModel::Sent(b.len())]) == (
            PhaseModel::Receiving,
            seq![ActionModel::Send(b), ActionModel::Echoed(b)],
        ),
{
    let es = seq![EventModel::Received(b), EventModel::Sent(b.len())];
    reveal_with_fuel(run, 3);
    assert(es.drop_first().drop_first() =~= Seq::<EventModel>::empty());
    assert(es.drop_first() =~= seq![EventModel::Sent(b.len())]);
    assert(seq![ActionModel::Echoed(b)] + Seq::<ActionModel>::empty() =~= seq![ActionModel::Echoed(b)]);
    assert(seq![ActionModel::Send(b)] + seq![ActionModel::Echoed(b)] =~= seq![ActionModel::Send(b), ActionModel::Echoed(b)]);
}

/// Chunked echo: a connection that receives chunks one read at a time echoes
/// each chunk whole, in order, stays open, and echoes in total exactly the
/// bytes it received.
pub proof fn lemma_chunked_echo(chunks: Seq<Seq<u8>>)
    requires
        readable_chunks(chunks),
    ensures
        run(PhaseModel::Receiving, echo_events(chunks)) == (
            PhaseModel::Receiving,
            echo_actions(chunks),
        ),
        echoed_bytes(echo_actions(chunks)) == chunks.flatten(),
    decreases chunks.len(),
{
    lemma_echoed_bytes_of_actions(chunks);
    if chunks.len() > 0 {
        let c = chunks[0];
        assert(1 <= chunks[0].len() <= RECEIVE_CAPACITY);
        let head = seq![EventModel::Received(c), EventModel::Sent(c.len())];
        assert(readable_chunks(chunks.drop_first())) by {
            assert forall|i: int| 0 <= i < chunks.drop_first().len() implies 1
                <= #[trigger] chunks.drop_first()[i].len() <= RECEIVE_CAPACITY by {
                assert(chunks.drop_first()[i] == chunks[i + 1]);
            }
        }
        lemma_chunked_echo(chunks.drop_first());
        lemma_echo_round_trip(c);
        lemma_run_concat(PhaseModel::Receiving, head, echo_events(chunks.drop_first()));
    }
}

proof fn lemma_split_into_reads(payload: Seq<u8>)
    ensures
        readable_chunks(split_into_reads(payload)),
        split_into_reads(payload).flatten() == payload,
        split_into_reads(payload).len() * RECEIVE_CAPACITY >= payload.len(),
    decreases payload.len(),
{
    let chunks = split_into_reads(payload);
    if payload.len() == 0 {
    } else if payload.len() <= RECEIVE_CAPACITY {
        assert(chunks.drop_first() =~= Seq::<Seq<u8>>::empty());
        assert(chunks.drop_first().flatten() =~= Seq::<u8>::empty());
        assert(chunks.first() == payload);
        assert(chunks.flatten() =~= payload + Seq::<u8>::empty());
    } else {
        let head = payload.take(RECEIVE_CAPACITY as int);
        let tail = payload.skip(RECEIVE_CAPACITY as int);
        lemma_split_into_reads(tail);
        assert(chunks.drop_first() =~= split_into_reads(tail));
        assert(head + tail =~= payload);
        assert forall|i: int| 0 <= i < chunks.len() implies 1 <= #[trigger] chunks[i].len()
            <= RECEIVE_CAPACITY by {
            if i > 0 {
                assert(chunks[i] == split_into_reads(tail)[i - 1]);
            }
        }
    }
}

/// A payload larger than the receive capacity takes several read/echo cycles;
/// each cycle echoes its own read whole, and the bytes echoed in total are the
/// payload.
pub proof fn lemma_oversized_payload(payload: Seq<u8>)
    requires
        payload.len() > RECEIVE_CAPACITY,
    ensures
        split_into_reads(payload).len() >= 2,
        readable_chunks(split_into_reads(payload)),
        split_into_reads(payload).flatten() == payload,
        run(PhaseModel::Receiving, echo_events(split_into_reads(payload))) == (
            PhaseModel::Receiving,
            echo_actions(split_into_reads(payload)),
        ),
        echoed_bytes(echo_actions(split_into_reads(payload))) == payload,
{
    lemma_split_into_reads(payload);
    lemma_split_into_reads(payload.skip(RECEIVE_CAPACITY as int));
    lemma_chunked_echo(split_into_reads(payload));
}

/// Graceful close: an empty read ends the session, which from then on asks
/// only to stop; a fresh session for the next connection echoes as usual.
pub proof fn lemma_peer_close(e: EventModel, b: Seq<u8>)
    requires
        1 <= b.len() <= RECEIVE_CAPACITY,
    ensures
        next(PhaseModel::Receiving, EventModel::Received(Seq::empty())) == (
            PhaseModel::Closed(StopReason::PeerClosed),
            ActionModel::Stop(StopReason::PeerClosed),
        ),
        next(PhaseModel::Closed(StopReason::PeerClosed), e) == (
            PhaseModel::Closed(StopReason::PeerClosed),
            ActionModel::Stop(StopReason::PeerClosed),
        ),
        next(PhaseModel::Receiving, EventModel::Received(b)).1 == ActionModel::Send(b),
{
}

/// Short write: a write of any other length than the bytes read ends the
/// session for good; a fresh session for the next connection echoes as usual.
pub proof fn lemma_short_write(pending: Seq<u8>, n: nat, e: EventModel, b: Seq<u8>)
    requires
        n != pending.len(),
        1 <= b.len() <= RECEIVE_CAPACITY,
    ensures
        next(PhaseModel::Sending(pending), EventModel::Sent(n)) == (
            PhaseModel::Closed(StopReason::ShortWrite),
            ActionModel::Stop(StopReason::ShortWrite),
        ),
        next(PhaseModel::Closed(StopReason::ShortWrite), e) == (
            PhaseModel::Closed(StopReason::ShortWrite),
            ActionModel::Stop(StopReason::ShortWrite),
        ),
        next(PhaseModel::Receiving, EventModel::Received(b)).1 == ActionModel::Send(b),
{
}

/// One connection's echo session.
pub struct EchoSession {
    pub phase: SessionPhase,
}

impl View for EchoSession {
    type V = PhaseModel;

    open spec fn view(&self) -> PhaseModel {
        self.phase@
    }
}

impl EchoSession {
    /// A fresh session, as created when a connection is accepted.
    pub fn new() -> (s: EchoSession)
        ensures
            s@ == PhaseModel::Receiving,
    {
        EchoSession { phase: SessionPhase::Receiving }
    }

    /// The action the session currently waits on (for a fresh session: the first read).
    pub fn pending_action(&self) -> (a: SessionAction)
        ensures
            a@ == awaited(self@),
    {
        match &self.phase {
            SessionPhase::Receiving => SessionAction::Receive(RECEIVE_CAPACITY),
            SessionPhase::Sending(b) => SessionAction::Send(b.clone()),
            SessionPhase::Closed(r) => SessionAction::Stop(*r),
        }
    }

    /// Whether the session has ended.
    pub fn is_closed(&self) -> (r: bool)
        ensures
            r == (self@ is Closed),
    {
        match &self.phase {
            SessionPhase::Closed(_) => true,
            _ => false,
        }
    }

    /// Takes in what happened on the socket and returns what to do next.
    pub fn step(&mut self, event: StreamEvent) -> (a: SessionAction)
        ensures
            (final(self)@, a@) == next(old(self)@, event@),
    {
        match (&self.phase, event) {
            (SessionPhase::Receiving, StreamEvent::Received(b)) => {
                if b.len() == 0 {
                    self.phase = SessionPhase::Closed(StopReason::PeerClosed);
                    SessionAction::Stop(StopReason::PeerClosed)
                } else {
                    self.phase = SessionPhase::Sending(b.clone());
                    SessionAction::Send(b)
                }
            },
            (SessionPhase::Receiving, StreamEvent::ReadFailed) => {
                self.phase = SessionPhase::Closed(StopReason::ReadFailed);
                SessionAction::Stop(StopReason::ReadFailed)
            },
            (SessionPhase::Sending(b), StreamEvent::Sent(n)) => {
                if n == b.len() {
                    let echoed = b.clone();
                    self.phase = SessionPhase::Receiving;
                    SessionAction::Echoed(echoed)
                } else {
                    self.phase = SessionPhase::Closed(StopReason::ShortWrite);
                    SessionAction::Stop(StopReason::ShortWrite)
                }
            },
            (SessionPhase::Sending(_), StreamEvent::WriteFailed) => {
                self.phase = SessionPhase::Closed(StopReason::WriteFailed);
                SessionAction::Stop(StopReason::WriteFailed)
            },
            _ => self.pending_action(),
        }
    }
}

/// The text of a byte sequence read as UTF-8, or `None` where it is not valid UTF-8.
pub uninterp spec fn utf8_text(b: Seq<u8>) -> Option<Seq<char>>;

/// Relies on `String::from_utf8`: it accepts exactly the valid UTF-8 sequences
/// and then holds their text.
#[verifier::external_body]
fn decode_utf8(b: Vec<u8>) -> (r: Option<String>)
    ensures
        r is Some <==> utf8_text(b@) is Some,
        r is Some ==> r->0@ == utf8_text(b@)->0,
{
    String::from_utf8(b).ok()
}

/// How an echoed payload is reported.
#[derive(Clone, Debug, PartialEq, Eq)]
pub enum PayloadText {
    /// The payload is valid UTF-8 and reads as this text.
    Text(String),
    /// The payload is not valid UTF-8.
    Undecodable,
}

/// The report of an echoed payload: its text where it decodes as UTF-8.
/// A payload that does not decode is reported as such; the session goes on.
pub fn describe_payload(bytes: &Vec<u8>) -> (r: PayloadText)
    ensures
        match r {
            PayloadText::Text(t) => utf8_text(bytes@) == Some(t@),
            PayloadText::Undecodable => utf8_text(bytes@) is None,
        },
{
    match decode_utf8(bytes.clone()) {
        Some(t) => PayloadText::Text(t),
        None => PayloadText::Undecodable,
    }
}

} // verus!
