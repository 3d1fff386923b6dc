//! One diagnostic session as a state machine: open the transport, write the
//! payload once if there is one, then read until the transport reports an
//! error or a timeout. The caller performs each action on the real transport
//! and hands back what happened as an event.
use vstd::prelude::*;

use crate::args::{ConnectionSpec, Ipv4Address};
use crate::error::ToolError;

verus! {

/// How long one read from a TCP connection waits, in milliseconds.
pub const TCP_READ_TIMEOUT_MS: u64 = 100;

/// How long one operation on a serial port waits, in milliseconds.
pub const SERIAL_TIMEOUT_MS: u64 = 500;

/// Where a session stands.
#[derive(Debug, Clone, Copy, PartialEq, Eq, Structural)]
pub enum Phase {
    /// Created; nothing has been done.
    Idle,
    /// Waiting for the transport to open.
    Opening,
    /// Waiting for the payload to be written.
    Writing,
    /// Reading what the transport sends back.
    Reading,
    /// Ended normally.
    Finished,
    /// Ended with an error.
    Failed,
}

/// The transport to open, with its timeout.
#[derive(Debug, Clone, PartialEq, Eq)]
pub enum OpenRequest {
    /// Connect to a TCP peer and set the read timeout.
    Tcp { ip: Ipv4Address, port: u16, read_timeout_ms: u64 },
    /// Open a serial device at a baud rate and set the timeout.
    Serial { device: String, baud_rate: u32, timeout_ms: u64 },
}

/// What happened on the transport.
#[derive(Debug, Clone, PartialEq, Eq)]
pub enum Event {
    /// The session is to start.
    Begin,
    /// The transport is open.
    Opened,
    /// The transport could not be opened, with the reason given.
    OpenFailed(String),
    /// The payload was written whole.
    Wrote,
    /// Writing the payload failed, with the reason given.
    WriteFailed(String),
    /// One read returned these bytes (possibly none).
    Received(Vec<u8>),
    /// A read reported an error, a timeout or the end of the stream.
    ReadEnded,
}

/// What the caller is to do next.
#[derive(Debug, Clone, PartialEq, Eq)]
pub enum Action {
    /// Open this transport.
    Open(OpenRequest),
    /// Write these bytes, whole, in one write.
    Write(Vec<u8>),
    /// Report that these bytes were sent, then read once.
    ReportSentThenRead(Vec<u8>),
    /// Read once.
    Read,
    /// Report these bytes as received; the run succeeded.
    Finish(Vec<u8>),
    /// The run failed with this error.
    Fail(ToolError),
}

/// The state of a session.
pub struct Session {
    connection: ConnectionSpec,
    payload: Option<Vec<u8>>,
    received: Vec<u8>,
    phase: Phase,
}

/// What a session holds, as values.
pub struct SessionView {
    pub phase: Phase,
    pub connection: ConnectionSpec,
    pub payload: Option<Seq<u8>>,
    pub received: Seq<u8>,
}

impl View for Session {
    type V = SessionView;

    closed spec fn view(&self) -> SessionView {
        SessionView {
            phase: self.phase,
            connection: self.connection,
            payload: match self.payload {
                Some(p) => Some(p@),
                None => None,
            },
            received: self.received@,
        }
    }
}

/// What holds of every session: it writes only when it has a payload.
pub open spec fn well_formed(s: SessionView) -> bool {
    s.phase == Phase::Writing ==> s.payload is Some
}

/// Whether a session in phase `p` takes the event `e`.
pub open spec fn accepts(p: Phase, e: Event) -> bool {
    match p {
        Phase::Idle => e is Begin,
        Phase::Opening => e is Opened || e is OpenFailed,
        Phase::Writing => e is Wrote || e is WriteFailed,
        Phase::Reading => e is Received || e is ReadEnded,
        Phase::Finished | Phase::Failed => false,
    }
}

/// Whether `a` opens the transport that `c` selects, or fails when that is
/// the unimplemented UDP transport.
pub open spec fn opens(c: ConnectionSpec, a: Action) -> bool {
    match c {
        ConnectionSpec::Tcp { ip, port } => a matches Action::Open(
            OpenRequest::Tcp { ip: i, port: p, read_timeout_ms: t },
        ) && i == ip && p == port && t == TCP_READ_TIMEOUT_MS,
        ConnectionSpec::Serial { device, baud_rate } => a matches Action::Open(
            OpenRequest::Serial { device: d, baud_rate: b, timeout_ms: t },
        ) && d@ == device@ && b == baud_rate && t == SERIAL_TIMEOUT_MS,
        ConnectionSpec::Udp { .. } => a matches Action::Fail(ToolError::NotImplemented),
    }
}

/// Whether `a` reports that the transport that `c` selects could not be
/// opened, for the reason `m`.
pub open spec fn fails_to_open(c: ConnectionSpec, m: Seq<char>, a: Action) -> bool {
    match c {
        ConnectionSpec::Serial { .. } => a matches Action::Fail(ToolError::PortOpenFailed(x))
            && x@ == m,
        _ => a matches Action::Fail(ToolError::ConnectFailed(x)) && x@ == m,
    }
}

/// Whether a session may go from `s` to `t` with the action `a` on the event
/// `e`. The connection and the payload never change.
pub open spec fn step_spec(s: SessionView, e: Event, t: SessionView, a: Action) -> bool {
    &&& t.connection == s.connection
    &&& t.payload == s.payload
    &&& match e {
        Event::Begin => {
            &&& t.received == s.received
            &&& opens(s.connection, a)
            &&& t.phase == (if s.connection is Udp {
                Phase::Failed
            } else {
                Phase::Opening
            })
        },
        Event::Opened => {
            &&& t.received == s.received
            &&& match s.payload {
                Some(p) => t.phase == Phase::Writing && (a matches Action::Write(w) && w@ == p),
                None => t.phase == Phase::Reading && a is Read,
            }
        },
        Event::OpenFailed(m) => {
            &&& t.received == s.received
            &&& t.phase == Phase::Failed
            &&& fails_to_open(s.connection, m@, a)
        },
        Event::Wrote => {
            &&& t.received == s.received
            &&& t.phase == Phase::Reading
            &&& a matches Action::ReportSentThenRead(w) && s.payload == Some(w@)
        },
        Event::WriteFailed(m) => {
            &&& t.received == s.received
            &&& t.phase == Phase::Failed
            &&& a matches Action::Fail(ToolError::WriteFailed(x)) && x@ == m@
        },
        Event::Received(bytes) => {
            &&& t.received == s.received + bytes@
            &&& t.phase == Phase::Reading
            &&& a is Read
        },
        Event::ReadEnded => {
            &&& t.received == s.received
            &&& t.phase == Phase::Finished
            &&& a matches Action::Finish(b) && b@ == s.received
        },
    }
}

impl Session {
    /// A session on the transport `connection` that will write `payload`, if
    /// given, before it reads.
    pub fn new(connection: ConnectionSpec, payload: Option<Vec<u8>>) -> (r: Session)
        ensures
            r@.phase == Phase::Idle,
            r@.connection == connection,
            r@.payload == (match payload {
                Some(p) => Some(p@),
                None => None::<Seq<u8>>,
            }),
            r@.received == Seq::<u8>::empty(),
            well_formed(r@),
    {
        Session { connection, payload, received: Vec::new(), phase: Phase::Idle }
    }

    /// Where the session stands.
    pub fn phase(&self) -> (r: Phase)
        ensures
            r == self@.phase,
    {
        self.phase
    }

    /// The bytes received so far, in order.
    pub fn received(&self) -> (r: &Vec<u8>)
        ensures
            r@ == self@.received,
    {
        &self.received
    }

    /// Whether the session takes the event `e` in its present phase.
    pub fn expects(&self, e: &Event) -> (r: bool)
        ensures
            r == accepts(self@.phase, *e),
    {
        match self.phase {
            Phase::Idle => matches!(e, Event::Begin),
            Phase::Opening => matches!(e, Event::Opened | Event::OpenFailed(_)),
            Phase::Writing => matches!(e, Event::Wrote | Event::WriteFailed(_)),
            Phase::Reading => matches!(e, Event::Received(_) | Event::ReadEnded),
            Phase::Finished | Phase::Failed => false,
        }
    }

    /// Takes one event and says what to do next.
    pub fn step(&mut self, e: Event) -> (a: Action)
        requires
            well_formed(old(self)@),
            accepts(old(self)@.phase, e),
        ensures
            well_formed(final(self)@),
            step_spec(old(self)@, e, final(self)@, a),
    {
        match e {
            Event::Begin => {
                match &self.connection {
                    ConnectionSpec::Tcp { ip, port } => {
                        self.phase = Phase::Opening;
                        Action::Open(
                            OpenRequest::Tcp {
                                ip: *ip,
                                port: *port,
                                read_timeout_ms: TCP_READ_TIMEOUT_MS,
                            },
                        )
                    },
                    ConnectionSpec::Serial { device, baud_rate } => {
                        self.phase = Phase::Opening;
                        Action::Open(
                            OpenRequest::Serial {
                                device: device.clone(),
                                baud_rate: *baud_rate,
                                timeout_ms: SERIAL_TIMEOUT_MS,
                            },
                        )
                    },
                    ConnectionSpec::Udp { .. } => {
                        self.phase = Phase::Failed;
                        Action::Fail(ToolError::NotImplemented)
                    },
                }
            },
            Event::Opened => {
                match &self.payload {
                    Some(p) => {
                        self.phase = Phase::Writing;
                        Action::Write(p.clone())
                    },
                    None => {
                        self.phase = Phase::Reading;
                        Action::Read
                    },
                }
            },
            Event::OpenFailed(m) => {
                self.phase = Phase::Failed;
                match &self.connection {
                    ConnectionSpec::Serial { .. } => Action::Fail(ToolError::PortOpenFailed(m)),
                    _ => Action::Fail(ToolError::ConnectFailed(m)),
                }
            },
            Event::Wrote => {
                self.phase = Phase::Reading;
                match &self.payload {
                    Some(p) => Action::ReportSentThenRead(p.clone()),
                    None => Action::ReportSentThenRead(Vec::new()),
                }
            },
            Event::WriteFailed(m) => {
                self.phase = Phase::Failed;
                Action::Fail(ToolError::WriteFailed(m))
            },
            Event::Received(bytes) => {
                let mut bytes = bytes;
                self.received.append(&mut bytes);
                Action::Read
            },
            Event::ReadEnded => {
                self.phase = Phase::Finished;
                Action::Finish(self.received.clone())
            },
        }
    }
}

/// How far along a session in phase `p` is; no step moves it back.
pub open spec fn phase_rank(p: Phase) -> int {
    match p {
        Phase::Idle => 0,
        Phase::Opening => 1,
        Phase::Writing => 2,
        Phase::Reading => 3,
        Phase::Finished | Phase::Failed => 4,
    }
}

/// Whether `a` asks for a read.
pub open spec fn is_read(a: Action) -> bool {
    a is Read || a is ReportSentThenRead
}

/// Whether `states` and `actions` are what a session goes through when it
/// takes the events `events` in order, starting from `states[0]`.
pub open spec fn is_run(events: Seq<Event>, states: Seq<SessionView>, actions: Seq<Action>) -> bool {
    &&& states.len() == events.len() + 1
    &&& actions.len() == events.len()
    &&& forall|i: int|
        0 <= i < events.len() ==> accepts(states[i].phase, #[trigger] events[i]) && step_spec(
            states[i],
            events[i],
            states[i + 1],
            actions[i],
        )
}

/// The bytes that the reads among `events` returned, in order.
pub open spec fn bytes_read(events: Seq<Event>) -> Seq<u8>
    decreases events.len(),
{
    if events.len() == 0 {
        Seq::empty()
    } else {
        let before = bytes_read(events.drop_last());
        match events.last() {
            Event::Received(b) => before + b@,
            _ => before,
        }
    }
}

/// No step moves a session back.
proof fn lemma_rank_monotone(
    events: Seq<Event>,
    states: Seq<SessionView>,
    actions: Seq<Action>,
    i: int,
    j: int,
)
    requires
        is_run(events, states, actions),
        0 <= i <= j < states.len(),
    ensures
        phase_rank(states[i].phase) <= phase_rank(states[j].phase),
    decreases j - i,
{
    if i < j {
        lemma_rank_monotone(events, states, actions, i, j - 1);
        assert(accepts(states[j - 1].phase, events[j - 1]));
    }
}

/// In every run, the payload is written at most once, and before any read.
pub proof fn lemma_write_once_before_reads(
    events: Seq<Event>,
    states: Seq<SessionView>,
    actions: Seq<Action>,
)
    requires
        is_run(events, states, actions),
    ensures
        forall|i: int, j: int|
            0 <= i < j < actions.len() && (#[trigger] actions[j]) is Write ==> !((
            #[trigger] actions[i]) is Write) && !is_read(actions[i]),
{
    assert forall|i: int, j: int|
        0 <= i < j < actions.len() && (#[trigger] actions[j]) is Write implies !((
        #[trigger] actions[i]) is Write) && !is_read(actions[i]) by {
        assert(accepts(states[i].phase, events[i]));
        assert(accepts(states[j].phase, events[j]));
        lemma_rank_monotone(events, states, actions, i + 1, j);
    }
}

/// In every run, what a session has received is what it held at the start
/// followed by the bytes of every read, in order.
pub proof fn lemma_received_is_bytes_read(
    events: Seq<Event>,
    states: Seq<SessionView>,
    actions: Seq<Action>,
)
    requires
        is_run(events, states, actions),
    ensures
        states.last().received == states[0].received + bytes_read(events),
    decreases events.len(),
{
    if events.len() == 0 {
        assert(states[0].received + bytes_read(events) =~= states[0].received);
    } else {
        let n = events.len() - 1;
        let ev = events.drop_last();
        let st = states.drop_last();
        let ac = actions.drop_last();
        assert forall|i: int| 0 <= i < ev.len() implies accepts(st[i].phase, #[trigger] ev[i])
            && step_spec(st[i], ev[i], st[i + 1], ac[i]) by {
            assert(events[i] == ev[i]);
        }
        lemma_received_is_bytes_read(ev, st, ac);
        assert(accepts(states[n].phase, events[n]));
        match events[n] {
            Event::Received(b) => {
                assert(states[0].received + bytes_read(events) =~= states[0].received
                    + bytes_read(ev) + b@);
            },
            _ => {},
        }
    }
}

} // verus!
