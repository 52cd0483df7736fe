//! The per-connection state machine: the handshake, the echo keepalive with a
//! bounded retry budget, and teardown. It performs no I/O: the driver reports
//! what happened (bytes read, a read timeout, a stream failure) together with
//! the current time, and performs the returned step.
use crate::errors::Error;
use crate::packet::{
    frame_bytes, opt_data_view, Data, DataModel, PacketModel, PacketType, TcpPacket,
    PROTOCOL_VERSION,
};
use crate::packet_handling::{decode_frame, lemma_frame_prefix_unique};
use crate::wire::at;
use vstd::prelude::*;

verus! {

/// Keepalive probes sent without an answer before a connection is dropped.
pub const RETRY_LIMIT: u32 = 3;

/// Idle time, in milliseconds, after which a client probes its server.
pub const CLIENT_IDLE_TIMEOUT_MS: u64 = 7000;

/// Idle time, in milliseconds, after which a server probes a client.
pub const SERVER_IDLE_TIMEOUT_MS: u64 = 10000;

/// Which end of a connection a session drives.
#[derive(Debug, Clone, Copy, PartialEq, Eq, Structural)]
pub enum Role {
    Client,
    Server,
}

/// The state of one connection. Clients go `Closed → SynSent → Established`,
/// servers `Listen → SynRecv → Established`; either may drop to `Closed`.
#[derive(Debug, Clone, Copy, PartialEq, Eq, Structural)]
pub enum ConnectionState {
    Closed,
    Listen,
    SynSent,
    SynRecv,
    Established,
}

/// Why a connection ended.
#[derive(Debug, Clone, Copy, PartialEq, Eq, Structural)]
pub enum Ending {
    /// The peer closed the stream or sent `Disconnect` / `Fin`.
    PeerClosed,
    /// Every keepalive probe went unanswered.
    RetriesExhausted,
    /// The handshake did not progress within the idle timeout.
    TimedOut,
    /// A packet that the current state does not allow.
    ProtocolViolation,
    /// Bytes that are no well-formed frame, or a packet of another version.
    MalformedPacket,
    /// The stream failed.
    TransportError,
}

/// What the driver does besides sending the outbound packet.
#[derive(Debug, Clone, Copy, PartialEq, Eq, Structural)]
pub enum Action {
    /// Nothing to do but keep reading.
    Continue,
    /// The connection showed activity; the idle clock starts over.
    ResetActivityTimer,
    /// The connection is over.
    Terminate(Ending),
}

/// What a connection is waiting for, or that it is over.
#[derive(Debug, Clone, PartialEq, Eq)]
pub enum Status {
    AwaitingResponse(PacketType),
    SendData(PacketType, Option<Data>),
    Disconnect,
}

/// The bookkeeping of one connection.
#[derive(Debug, Clone, Copy, PartialEq, Eq, Structural)]
pub struct Session {
    pub role: Role,
    pub state: ConnectionState,
    /// This end's initial sequence number.
    pub local_seq: u32,
    /// The peer's initial sequence number, once learned.
    pub peer_seq: u32,
    /// When the connection last showed activity, in milliseconds.
    pub last_activity: u64,
    /// Probes sent since the peer was last heard from.
    pub retry_count: u32,
    pub retry_limit: u32,
    /// Idle time, in milliseconds, before the next probe.
    pub idle_timeout: u64,
}

/// One decision of the state machine, to be carried out by the driver.
pub struct Step {
    pub outbound: Option<TcpPacket>,
    pub action: Action,
    /// Application data received, for the application.
    pub delivered: Option<Data>,
}

/// A decision as a value: the session afterwards, what to send, what to do,
/// and what to hand to the application.
pub struct Outcome {
    pub session: Session,
    pub outbound: Option<PacketModel>,
    pub action: Action,
    pub delivered: Option<DataModel>,
}

/// An optional packet as an optional [`PacketModel`].
pub open spec fn opt_packet_view(o: Option<TcpPacket>) -> Option<PacketModel> {
    match o {
        Some(p) => Some(p@),
        None => None,
    }
}

/// The outcome that `r` stands for, with `s` the session afterwards.
pub open spec fn outcome_of(s: Session, r: Step) -> Outcome {
    Outcome {
        session: s,
        outbound: opt_packet_view(r.outbound),
        action: r.action,
        delivered: opt_data_view(r.delivered),
    }
}

/// The next sequence number, wrapping around.
pub open spec fn seq_next(x: u32) -> u32 {
    if x == u32::MAX {
        0
    } else {
        (x + 1) as u32
    }
}

/// Milliseconds since the last activity (none if the clock went back).
pub open spec fn elapsed(s: Session, now: u64) -> nat {
    if now >= s.last_activity {
        (now - s.last_activity) as nat
    } else {
        0
    }
}

/// A frame of the current version without payload.
pub open spec fn bare(t: PacketType, seq: u32, ack: u32) -> PacketModel {
    PacketModel {
        version: PROTOCOL_VERSION,
        packet_type: t,
        seq_num: seq,
        ack_num: ack,
        length: 0,
        data: None,
    }
}

/// Nothing happens.
pub open spec fn quiet(s: Session) -> Outcome {
    Outcome { session: s, outbound: None, action: Action::Continue, delivered: None }
}

/// The connection ends for `ending`, sending `outbound` first if any.
pub open spec fn closing(s: Session, ending: Ending, outbound: Option<PacketModel>) -> Outcome {
    Outcome {
        session: Session { state: ConnectionState::Closed, ..s },
        outbound,
        action: Action::Terminate(ending),
        delivered: None,
    }
}

/// The connection goes on in state `state`.
pub open spec fn advance(s: Session, state: ConnectionState, outbound: Option<PacketModel>) -> Outcome {
    Outcome {
        session: Session { state, ..s },
        outbound,
        action: Action::ResetActivityTimer,
        delivered: None,
    }
}

/// The first tick: a closed client opens the handshake with its `Syn`.
pub open spec fn start_spec(s: Session, now: u64) -> Outcome {
    if s.role == Role::Client && s.state == ConnectionState::Closed {
        advance(
            Session { last_activity: now, retry_count: 0, ..s },
            ConnectionState::SynSent,
            Some(bare(PacketType::Syn, s.local_seq, 0)),
        )
    } else {
        quiet(s)
    }
}

/// A read timed out with nothing received. Past the idle timeout an
/// established connection sends a probe while its budget lasts, and ends when
/// it is spent (a server says `Disconnect` first); a handshake that stalls
/// past the idle timeout ends.
pub open spec fn timeout_spec(s: Session, now: u64) -> Outcome {
    if elapsed(s, now) <= s.idle_timeout {
        quiet(s)
    } else if s.state != ConnectionState::Established {
        closing(s, Ending::TimedOut, None)
    } else if s.retry_count < s.retry_limit {
        Outcome {
            session: Session { retry_count: (s.retry_count + 1) as u32, last_activity: now, ..s },
            outbound: Some(bare(PacketType::Echo, 0, 0)),
            action: Action::ResetActivityTimer,
            delivered: None,
        }
    } else {
        closing(
            s,
            Ending::RetriesExhausted,
            if s.role == Role::Server {
                Some(bare(PacketType::Disconnect, 0, 0))
            } else {
                None
            },
        )
    }
}

/// The peer closed the stream: the connection ends without reply.
pub open spec fn peer_closed_spec(s: Session) -> Outcome {
    closing(s, Ending::PeerClosed, None)
}

/// The stream failed: the connection ends.
pub open spec fn transport_error_spec(s: Session) -> Outcome {
    closing(s, Ending::TransportError, None)
}

/// A packet arrived. One of another version ends the connection. Any other
/// counts as activity and clears the retry count, then the handshake tables
/// apply; once established, every `Echo` is answered with an `Echo`, and
/// `Data` goes to the application.
pub open spec fn packet_spec(s: Session, p: PacketModel, now: u64) -> Outcome {
    if p.version != PROTOCOL_VERSION {
        closing(s, Ending::MalformedPacket, None)
    } else {
        let r = Session { last_activity: now, retry_count: 0, ..s };
        if p.packet_type == PacketType::Disconnect || p.packet_type == PacketType::Fin {
            closing(r, Ending::PeerClosed, None)
        } else {
            match s.state {
                ConnectionState::SynSent => if p.packet_type == PacketType::SynAck && p.ack_num
                    == seq_next(s.local_seq) {
                    advance(
                        Session { peer_seq: p.seq_num, ..r },
                        ConnectionState::Established,
                        Some(bare(PacketType::Ack, seq_next(s.local_seq), seq_next(p.seq_num))),
                    )
                } else {
                    closing(r, Ending::ProtocolViolation, None)
                },
                ConnectionState::Listen => if p.packet_type == PacketType::Syn {
                    advance(
                        Session { peer_seq: p.seq_num, ..r },
                        ConnectionState::SynRecv,
                        Some(bare(PacketType::SynAck, s.local_seq, seq_next(p.seq_num))),
                    )
                } else {
                    closing(r, Ending::ProtocolViolation, None)
                },
                ConnectionState::SynRecv => if p.packet_type == PacketType::Ack && p.ack_num
                    == seq_next(s.local_seq) {
                    advance(r, ConnectionState::Established, None)
                } else {
                    closing(r, Ending::ProtocolViolation, None)
                },
                ConnectionState::Established => if p.packet_type == PacketType::Echo {
                    advance(r, ConnectionState::Established, Some(bare(PacketType::Echo, 0, 0)))
                } else if p.packet_type == PacketType::Data {
                    Outcome {
                        session: r,
                        outbound: None,
                        action: Action::ResetActivityTimer,
                        delivered: p.data,
                    }
                } else {
                    closing(r, Ending::ProtocolViolation, None)
                },
                ConnectionState::Closed => closing(r, Ending::ProtocolViolation, None),
            }
        }
    }
}

/// The status that a connection in state `state` shows.
pub open spec fn status_of(state: ConnectionState) -> Status {
    match state {
        ConnectionState::Closed => Status::Disconnect,
        ConnectionState::Listen => Status::AwaitingResponse(PacketType::Syn),
        ConnectionState::SynSent => Status::AwaitingResponse(PacketType::SynAck),
        ConnectionState::SynRecv => Status::AwaitingResponse(PacketType::Ack),
        ConnectionState::Established => Status::AwaitingResponse(PacketType::Echo),
    }
}

/// What a finished connection reports to its caller. An orderly end (the peer
/// closed, the probes went unanswered, the handshake stalled) is `Ok` with the
/// ending itself; a broken one is the matching error.
pub fn ending_result(ending: Ending) -> (r: Result<Ending, Error>)
    ensures
        match ending {
            Ending::PeerClosed | Ending::RetriesExhausted | Ending::TimedOut => r == Ok::<
                Ending,
                Error,
            >(ending),
            Ending::ProtocolViolation => r == Err::<Ending, Error>(Error::ProtocolViolation),
            Ending::MalformedPacket => r == Err::<Ending, Error>(Error::MalformedPacket),
            Ending::TransportError => r matches Err(Error::IO(_)),
        },
{
    match ending {
        Ending::PeerClosed | Ending::RetriesExhausted | Ending::TimedOut => Ok(ending),
        Ending::ProtocolViolation => Err(Error::ProtocolViolation),
        Ending::MalformedPacket => Err(Error::MalformedPacket),
        Ending::TransportError => Err(Error::IO("the stream failed".to_string())),
    }
}

/// The sequence number after `x`, wrapping around.
fn seq_after(x: u32) -> (r: u32)
    ensures
        r == seq_next(x),
{
    if x == u32::MAX {
        0
    } else {
        x + 1
    }
}

impl Step {
    fn quiet() -> (r: Step)
        ensures
            r.outbound is None,
            r.action == Action::Continue,
            r.delivered is None,
    {
        Step { outbound: None, action: Action::Continue, delivered: None }
    }

    fn terminate(ending: Ending, outbound: Option<TcpPacket>) -> (r: Step)
        ensures
            r.outbound == outbound,
            r.action == Action::Terminate(ending),
            r.delivered is None,
    {
        Step { outbound, action: Action::Terminate(ending), delivered: None }
    }

    fn reset(outbound: Option<TcpPacket>) -> (r: Step)
        ensures
            r.outbound == outbound,
            r.action == Action::ResetActivityTimer,
            r.delivered is None,
    {
        Step { outbound, action: Action::ResetActivityTimer, delivered: None }
    }
}

impl Session {
    /// A session of the given role, not yet started: a client is `Closed`
    /// until its first tick, a server `Listen`s.
    pub fn new(role: Role, isn: u32, now: u64, retry_limit: u32, idle_timeout: u64) -> (r: Session)
        ensures
            r == Session::new_spec(role, isn, now, retry_limit, idle_timeout),
    {
        let state = match role {
            Role::Client => ConnectionState::Closed,
            Role::Server => ConnectionState::Listen,
        };
        Session {
            role,
            state,
            local_seq: isn,
            peer_seq: 0,
            last_activity: now,
            retry_count: 0,
            retry_limit,
            idle_timeout,
        }
    }

    /// A client session with the standard retry budget and idle timeout.
    pub fn client(isn: u32, now: u64) -> (r: Session)
        ensures
            r == Session::new_spec(Role::Client, isn, now, RETRY_LIMIT, CLIENT_IDLE_TIMEOUT_MS),
    {
        Session::new(Role::Client, isn, now, RETRY_LIMIT, CLIENT_IDLE_TIMEOUT_MS)
    }

    /// A server session with the standard retry budget and idle timeout.
    pub fn server(isn: u32, now: u64) -> (r: Session)
        ensures
            r == Session::new_spec(Role::Server, isn, now, RETRY_LIMIT, SERVER_IDLE_TIMEOUT_MS),
    {
        Session::new(Role::Server, isn, now, RETRY_LIMIT, SERVER_IDLE_TIMEOUT_MS)
    }

    /// The session that [`Session::new`] returns.
    pub open spec fn new_spec(
        role: Role,
        isn: u32,
        now: u64,
        retry_limit: u32,
        idle_timeout: u64,
    ) -> Session {
        Session {
            role,
            state: if role == Role::Client {
                ConnectionState::Closed
            } else {
                ConnectionState::Listen
            },
            local_seq: isn,
            peer_seq: 0,
            last_activity: now,
            retry_count: 0,
            retry_limit,
            idle_timeout,
        }
    }

    /// What the connection is waiting for.
    pub fn status(&self) -> (r: Status)
        ensures
            r == status_of(self.state),
    {
        match self.state {
            ConnectionState::Closed => Status::Disconnect,
            ConnectionState::Listen => Status::AwaitingResponse(PacketType::Syn),
            ConnectionState::SynSent => Status::AwaitingResponse(PacketType::SynAck),
            ConnectionState::SynRecv => Status::AwaitingResponse(PacketType::Ack),
            ConnectionState::Established => Status::AwaitingResponse(PacketType::Echo),
        }
    }

    /// The first tick of the driver loop.
    pub fn start(&mut self, now: u64) -> (r: Step)
        ensures
            outcome_of(*final(self), r) == start_spec(*old(self), now),
    {
        if self.role == Role::Client && self.state == ConnectionState::Closed {
            self.last_activity = now;
            self.retry_count = 0;
            self.state = ConnectionState::SynSent;
            Step::reset(Some(TcpPacket::syn_packet(self.local_seq)))
        } else {
            Step::quiet()
        }
    }

    /// A read timed out without data.
    pub fn on_timeout(&mut self, now: u64) -> (r: Step)
        ensures
            outcome_of(*final(self), r) == timeout_spec(*old(self), now),
    {
        let idle = if now >= self.last_activity {
            now - self.last_activity
        } else {
            0
        };
        if idle <= self.idle_timeout {
            Step::quiet()
        } else if self.state != ConnectionState::Established {
            self.state = ConnectionState::Closed;
            Step::terminate(Ending::TimedOut, None)
        } else if self.retry_count < self.retry_limit {
            self.retry_count = self.retry_count + 1;
            self.last_activity = now;
            Step::reset(Some(TcpPacket::echo_packet(PROTOCOL_VERSION)))
        } else {
            self.state = ConnectionState::Closed;
            let notice = match self.role {
                Role::Server => Some(TcpPacket::disconnect_packet()),
                Role::Client => None,
            };
            Step::terminate(Ending::RetriesExhausted, notice)
        }
    }

    /// The stream was closed by the peer (a read of zero bytes).
    pub fn on_peer_closed(&mut self) -> (r: Step)
        ensures
            outcome_of(*final(self), r) == peer_closed_spec(*old(self)),
    {
        self.state = ConnectionState::Closed;
        Step::terminate(Ending::PeerClosed, None)
    }

    /// The stream failed.
    pub fn on_transport_error(&mut self) -> (r: Step)
        ensures
            outcome_of(*final(self), r) == transport_error_spec(*old(self)),
    {
        self.state = ConnectionState::Closed;
        Step::terminate(Ending::TransportError, None)
    }

    /// A packet arrived.
    pub fn on_packet(&mut self, packet: TcpPacket, now: u64) -> (r: Step)
        ensures
            outcome_of(*final(self), r) == packet_spec(*old(self), packet@, now),
    {
        if packet.version != PROTOCOL_VERSION {
            self.state = ConnectionState::Closed;
            return Step::terminate(Ending::MalformedPacket, None);
        }
        self.last_activity = now;
        self.retry_count = 0;
        let t = packet.packet_type;
        if t == PacketType::Disconnect || t == PacketType::Fin {
            self.state = ConnectionState::Closed;
            return Step::terminate(Ending::PeerClosed, None);
        }
        match self.state {
            ConnectionState::SynSent => {
                let expected = seq_after(self.local_seq);
                if t == PacketType::SynAck && packet.ack_num == expected {
                    self.peer_seq = packet.seq_num;
                    self.state = ConnectionState::Established;
                    Step::reset(Some(TcpPacket::ack_packet(expected, seq_after(packet.seq_num))))
                } else {
                    self.state = ConnectionState::Closed;
                    Step::terminate(Ending::ProtocolViolation, None)
                }
            },
            ConnectionState::Listen => {
                if t == PacketType::Syn {
                    self.peer_seq = packet.seq_num;
                    self.state = ConnectionState::SynRecv;
                    Step::reset(
                        Some(TcpPacket::syn_ack_packet(self.local_seq, seq_after(packet.seq_num))),
                    )
                } else {
                    self.state = ConnectionState::Closed;
                    Step::terminate(Ending::ProtocolViolation, None)
                }
            },
            ConnectionState::SynRecv => {
                if t == PacketType::Ack && packet.ack_num == seq_after(self.local_seq) {
                    self.state = ConnectionState::Established;
                    Step::reset(None)
                } else {
                    self.state = ConnectionState::Closed;
                    Step::terminate(Ending::ProtocolViolation, None)
                }
            },
            ConnectionState::Established => {
                if t == PacketType::Echo {
                    Step::reset(Some(TcpPacket::echo_packet(PROTOCOL_VERSION)))
                } else if t == PacketType::Data {
                    Step {
                        outbound: None,
                        action: Action::ResetActivityTimer,
                        delivered: packet.data,
                    }
                } else {
                    self.state = ConnectionState::Closed;
                    Step::terminate(Ending::ProtocolViolation, None)
                }
            },
            ConnectionState::Closed => {
                Step::terminate(Ending::ProtocolViolation, None)
            },
        }
    }

    /// Bytes were read. None means the peer closed the stream. Otherwise the
    /// frame at their front is handled and its length returned, so that the
    /// driver can hand over the rest in turn; bytes that do not start with a
    /// well-formed frame end the connection as malformed, all of them used up.
    pub fn on_bytes(&mut self, bytes: &[u8], now: u64) -> (r: (Step, usize))
        ensures
            bytes@.len() == 0 ==> outcome_of(*final(self), r.0) == peer_closed_spec(*old(self))
                && r.1 == 0,
            forall|q: PacketModel|
                #[trigger] q.well_formed() && at(bytes@, 0, frame_bytes(q)) ==> outcome_of(
                    *final(self),
                    r.0,
                ) == packet_spec(*old(self), q, now) && r.1 == frame_bytes(q).len(),
            bytes@.len() != 0 && (forall|q: PacketModel| #[trigger]
                q.well_formed() ==> !at(bytes@, 0, frame_bytes(q))) ==> outcome_of(
                *final(self),
                r.0,
            ) == closing(*old(self), Ending::MalformedPacket, None) && r.1 == bytes@.len(),
    {
        let len = bytes.len();
        if len == 0 {
            return (self.on_peer_closed(), 0);
        }
        match decode_frame(bytes) {
            Ok((packet, n)) => {
                proof {
                    assert forall|q: PacketModel| #[trigger] q.well_formed() && at(bytes@, 0, frame_bytes(q)) implies q == packet@ by {
                        lemma_frame_prefix_unique(bytes@, packet@, q);
                    }
                }
                (self.on_packet(packet, now), n)
            },
            Err(_) => {
                self.state = ConnectionState::Closed;
                (Step::terminate(Ending::MalformedPacket, None), len)
            },
        }
    }
}


/// Client handshake: from `Closed` the first tick sends `Syn` with the initial
/// sequence number `isn` and enters `SynSent`; the next packet establishes the
/// connection exactly when it is a current-version `SynAck` acknowledging
/// `isn + 1` (answered by `Ack`), and anything else ends the connection
/// without reaching `Established`.
pub proof fn lemma_client_handshake(s: Session, now0: u64, p: PacketModel, now1: u64)
    requires
        s.role == Role::Client,
        s.state == ConnectionState::Closed,
    ensures
        start_spec(s, now0).session.state == ConnectionState::SynSent,
        start_spec(s, now0).outbound == Some(bare(PacketType::Syn, s.local_seq, 0)),
        ({
            let o = packet_spec(start_spec(s, now0).session, p, now1);
            &&& o.session.state == ConnectionState::Established <==> (p.version == PROTOCOL_VERSION
                && p.packet_type == PacketType::SynAck && p.ack_num == seq_next(s.local_seq))
            &&& o.session.state == ConnectionState::Established ==> o.outbound == Some(
                bare(PacketType::Ack, seq_next(s.local_seq), seq_next(p.seq_num)),
            )
            &&& o.session.state != ConnectionState::Established ==> o.session.state
                == ConnectionState::Closed && o.action is Terminate
        }),
{
}

/// Server handshake: a `Listen`ing server answers a current-version `Syn` with
/// `SynAck` (its own `isn`, acknowledging the client's number plus one) and
/// enters `SynRecv`; the next packet establishes the connection exactly when it
/// is a current-version `Ack` acknowledging `isn + 1`, and anything else ends
/// the connection.
pub proof fn lemma_server_handshake(s: Session, syn: PacketModel, now0: u64, p: PacketModel, now1: u64)
    requires
        s.state == ConnectionState::Listen,
        syn.version == PROTOCOL_VERSION,
        syn.packet_type == PacketType::Syn,
    ensures
        packet_spec(s, syn, now0).session.state == ConnectionState::SynRecv,
        packet_spec(s, syn, now0).outbound == Some(
            bare(PacketType::SynAck, s.local_seq, seq_next(syn.seq_num)),
        ),
        ({
            let o = packet_spec(packet_spec(s, syn, now0).session, p, now1);
            &&& o.session.state == ConnectionState::Established <==> (p.version == PROTOCOL_VERSION
                && p.packet_type == PacketType::Ack && p.ack_num == seq_next(s.local_seq))
            &&& o.session.state != ConnectionState::Established ==> o.session.state
                == ConnectionState::Closed && o.action is Terminate
        }),
{
}

/// The outcomes of read timeouts at the instants `ticks`, one after another.
pub open spec fn idle_run(s: Session, ticks: Seq<u64>) -> Seq<Outcome>
    decreases ticks.len(),
{
    if ticks.len() == 0 {
        Seq::empty()
    } else {
        let o = timeout_spec(s, ticks[0]);
        seq![o] + idle_run(o.session, ticks.drop_first())
    }
}

/// Read timeouts at `ticks`, each more than the idle timeout after the one
/// before (the first after the last activity of `s`).
pub open spec fn spaced_ticks(s: Session, ticks: Seq<u64>) -> bool {
    &&& ticks.len() > 0 ==> ticks[0] > s.last_activity + s.idle_timeout
    &&& forall|i: int| 0 <= i < ticks.len() - 1 ==> #[trigger] ticks[i + 1] > ticks[i] + s.idle_timeout
}

/// A probe goes out only once the connection has been idle for longer than
/// the idle timeout.
pub proof fn lemma_probe_only_after_idle(s: Session, now: u64)
    ensures
        timeout_spec(s, now).outbound is Some ==> elapsed(s, now) > s.idle_timeout,
{
}

/// Retry exhaustion: an established session that hears nothing, with `k`
/// probes already unanswered, sends one `Echo` at each of the next
/// `retry_limit - k` idle periods and ends at the one after, a server with a
/// `Disconnect`.
pub proof fn lemma_retry_exhaustion(s: Session, ticks: Seq<u64>)
    requires
        s.state == ConnectionState::Established,
        s.retry_count <= s.retry_limit,
        ticks.len() == s.retry_limit - s.retry_count + 1,
        spaced_ticks(s, ticks),
    ensures
        idle_run(s, ticks).len() == ticks.len(),
        forall|i: int|
            0 <= i < ticks.len() - 1 ==> {
                &&& (#[trigger] idle_run(s, ticks)[i]).outbound == Some(bare(PacketType::Echo, 0, 0))
                &&& idle_run(s, ticks)[i].session.state == ConnectionState::Established
            },
        idle_run(s, ticks)[ticks.len() - 1].action == Action::Terminate(Ending::RetriesExhausted),
        idle_run(s, ticks)[ticks.len() - 1].session.state == ConnectionState::Closed,
        idle_run(s, ticks)[ticks.len() - 1].outbound == (if s.role == Role::Server {
            Some(bare(PacketType::Disconnect, 0, 0))
        } else {
            None
        }),
    decreases ticks.len(),
{
    let o = timeout_spec(s, ticks[0]);
    let rest = ticks.drop_first();
    if s.retry_count < s.retry_limit {
        assert(spaced_ticks(o.session, rest)) by {
            assert forall|i: int| 0 <= i < rest.len() - 1 implies #[trigger] rest[i + 1] > rest[i]
                + o.session.idle_timeout by {
                assert(ticks[(i + 1) + 1] > ticks[i + 1] + s.idle_timeout);
            }
            if rest.len() > 0 {
                assert(ticks[(0 as int) + 1] > ticks[0] + s.idle_timeout);
            }
        }
        lemma_retry_exhaustion(o.session, rest);
        let run = idle_run(s, ticks);
        assert(run == seq![o] + idle_run(o.session, rest));
        assert forall|i: int| 0 <= i < ticks.len() - 1 implies {
            &&& (#[trigger] run[i]).outbound == Some(bare(PacketType::Echo, 0, 0))
            &&& run[i].session.state == ConnectionState::Established
        } by {
            if i > 0 {
                assert(run[i] == idle_run(o.session, rest)[i - 1]);
            }
        }
        assert(run[ticks.len() - 1] == idle_run(o.session, rest)[rest.len() - 1]);
    } else {
        assert(rest.len() == 0);
        assert(idle_run(o.session, rest) == Seq::<Outcome>::empty());
        assert(idle_run(s, ticks) == seq![o] + idle_run(o.session, rest));
        assert(idle_run(s, ticks) =~= seq![o]);
    }
}

/// Over read timeouts at the instants `ticks`, one after another: the probes
/// sent before the connection ends, and how it ends, if it does.
pub open spec fn idle_summary(s: Session, ticks: Seq<u64>) -> (nat, Option<Ending>)
    decreases ticks.len(),
{
    if ticks.len() == 0 {
        (0, None)
    } else {
        let o = timeout_spec(s, ticks[0]);
        match o.action {
            Action::Terminate(e) => (0, Some(e)),
            _ => {
                let rest = idle_summary(o.session, ticks.drop_first());
                (rest.0 + if o.outbound is Some {
                    1nat
                } else {
                    0nat
                }, rest.1)
            },
        }
    }
}

/// Retry budget, for read timeouts at any instants: an established session
/// that hears nothing sends at most its remaining budget of probes, and if it
/// ends, it ends for exhausted retries after sending exactly that budget.
pub proof fn lemma_retry_budget(s: Session, ticks: Seq<u64>)
    requires
        s.state == ConnectionState::Established,
        s.retry_count <= s.retry_limit,
    ensures
        idle_summary(s, ticks).0 + s.retry_count <= s.retry_limit,
        idle_summary(s, ticks).1 is Some ==> idle_summary(s, ticks).1 == Some(
            Ending::RetriesExhausted,
        ) && idle_summary(s, ticks).0 + s.retry_count == s.retry_limit,
    decreases ticks.len(),
{
    if ticks.len() > 0 {
        let o = timeout_spec(s, ticks[0]);
        if !(o.action is Terminate) {
            lemma_retry_budget(o.session, ticks.drop_first());
        }
    }
}

/// Activity reset: any packet of the current version clears the retry count
/// and restarts the idle clock, whatever the state.
pub proof fn lemma_activity_reset(s: Session, p: PacketModel, now: u64)
    requires
        p.version == PROTOCOL_VERSION,
    ensures
        packet_spec(s, p, now).session.retry_count == 0,
        packet_spec(s, p, now).session.last_activity == now,
{
}

/// Keepalive answer: an established connection answers every current-version
/// `Echo` with an `Echo`, whatever its own probes, and stays established.
pub proof fn lemma_echo_answered(s: Session, p: PacketModel, now: u64)
    requires
        s.state == ConnectionState::Established,
        p.version == PROTOCOL_VERSION,
        p.packet_type == PacketType::Echo,
    ensures
        packet_spec(s, p, now).outbound == Some(bare(PacketType::Echo, 0, 0)),
        packet_spec(s, p, now).session.state == ConnectionState::Established,
        packet_spec(s, p, now).action == Action::ResetActivityTimer,
{
}

/// Peer-close equivalence: a read of zero bytes and a `Disconnect` packet
/// lead to the same state, the same action and no packet sent.
pub proof fn lemma_peer_close_equivalence(s: Session, now: u64)
    ensures
        ({
            let a = peer_closed_spec(s);
            let b = packet_spec(s, bare(PacketType::Disconnect, 0, 0), now);
            &&& a.session.state == b.session.state
            &&& a.session.state == ConnectionState::Closed
            &&& a.action == b.action
            &&& a.action == Action::Terminate(Ending::PeerClosed)
            &&& a.outbound == b.outbound
            &&& a.outbound is None
        }),
{
}

} // verus!
