//! Connection and session state tracking: the connection state machine and
//! the per-session records that follow it.
use vstd::prelude::*;
use std::collections::HashMap;
use vstd::std_specs::hash::spec_hash_map_iter;
use vstd::std_specs::iter::IteratorSpec;
use crate::error::ProtocolError;
use crate::packet::structures::{packet_header, Packet};
use crate::types::{m2_state, ConnectionState, PacketType, SessionState};
use crate::values::{
    ByteCount, ConnectionCount, ErrorCount, PacketCount, SequenceNumber, SessionCount, SessionId,
    Timestamp, TransitionCount,
};

verus! {

broadcast use vstd::std_specs::hash::group_hash_axioms;

// ---------------------------------------------------------------------------
// The state machine
// ---------------------------------------------------------------------------

/// The state a connection in state `s` moves to on a packet of type `t`, sent
/// by this side when `local` and received otherwise. Older state names are
/// read as their current equivalents; a packet the state does not expect
/// leaves it unchanged.
pub open spec fn next_state(s: ConnectionState, t: PacketType, local: bool) -> ConnectionState {
    match (m2_state(s), t, local) {
        (ConnectionState::Idle, PacketType::Syn, true) => ConnectionState::SynSent,
        (ConnectionState::Closed, PacketType::Syn, true) => ConnectionState::SynSent,
        (ConnectionState::Idle, PacketType::Syn, false) => ConnectionState::SynReceived,
        (ConnectionState::Closed, PacketType::Syn, false) => ConnectionState::SynReceived,
        (ConnectionState::SynSent, PacketType::SynAck, false) => ConnectionState::Established,
        (ConnectionState::SynReceived, PacketType::Ack, false) => ConnectionState::Established,
        (ConnectionState::Established, PacketType::Data, _) => ConnectionState::Established,
        (ConnectionState::Established, PacketType::Ack, _) => ConnectionState::Established,
        (ConnectionState::Established, PacketType::Heartbeat, _) => ConnectionState::Established,
        (ConnectionState::Established, PacketType::Fin, true) => ConnectionState::FinWait,
        (ConnectionState::Established, PacketType::Fin, false) => ConnectionState::CloseWait,
        (ConnectionState::FinWait, PacketType::Ack, false) => ConnectionState::Closed,
        (ConnectionState::FinWait, PacketType::Fin, false) => ConnectionState::Closed,
        (ConnectionState::CloseWait, PacketType::Ack, _) => ConnectionState::Closed,
        (_, PacketType::Rst, _) => ConnectionState::Closed,
        (_, PacketType::Error, _) => ConnectionState::Error,
        (ConnectionState::Error, _, _) => ConnectionState::Recovering,
        (ConnectionState::Recovering, PacketType::Ack, _) => ConnectionState::Established,
        _ => s,
    }
}

/// Whether moving from `old` to `new` on a packet of type `t` is an allowed
/// transition, both states read as their current equivalents.
pub open spec fn valid_transition(old: ConnectionState, new: ConnectionState, t: PacketType) -> bool {
    let o = m2_state(old);
    let n = m2_state(new);
    match (o, n, t) {
        (ConnectionState::Idle, ConnectionState::SynSent, PacketType::Syn) => true,
        (ConnectionState::Closed, ConnectionState::SynSent, PacketType::Syn) => true,
        (ConnectionState::Idle, ConnectionState::SynReceived, PacketType::Syn) => true,
        (ConnectionState::Closed, ConnectionState::SynReceived, PacketType::Syn) => true,
        (ConnectionState::SynSent, ConnectionState::Established, PacketType::SynAck) => true,
        (ConnectionState::SynReceived, ConnectionState::Established, PacketType::Ack) => true,
        (ConnectionState::Established, ConnectionState::Established, PacketType::Data) => true,
        (ConnectionState::Established, ConnectionState::Established, PacketType::Ack) => true,
        (ConnectionState::Established, ConnectionState::Established, PacketType::Heartbeat) => true,
        (ConnectionState::Established, ConnectionState::FinWait, PacketType::Fin) => true,
        (ConnectionState::Established, ConnectionState::CloseWait, PacketType::Fin) => true,
        (ConnectionState::FinWait, ConnectionState::Closed, PacketType::Ack) => true,
        (ConnectionState::FinWait, ConnectionState::Closed, PacketType::Fin) => true,
        (ConnectionState::CloseWait, ConnectionState::Closed, PacketType::Ack) => true,
        (_, ConnectionState::Closed, PacketType::Rst) => true,
        (_, ConnectionState::Error, PacketType::Error) => true,
        (ConnectionState::Error, ConnectionState::Recovering, _) => true,
        (ConnectionState::Recovering, ConnectionState::Established, PacketType::Ack) => true,
        _ => o == n,
    }
}

/// The session state that follows a connection state.
pub open spec fn session_state_for(s: ConnectionState) -> SessionState {
    match m2_state(s) {
        ConnectionState::Idle => SessionState::Initializing,
        ConnectionState::Closed => SessionState::Terminated,
        ConnectionState::SynSent => SessionState::Initializing,
        ConnectionState::SynReceived => SessionState::Initializing,
        ConnectionState::Established => SessionState::Active,
        ConnectionState::FinWait => SessionState::Terminating,
        ConnectionState::CloseWait => SessionState::Terminating,
        ConnectionState::Recovering => SessionState::Degraded,
        ConnectionState::Error => SessionState::Terminated,
        _ => SessionState::Initializing,
    }
}

/// The state a connection moves to on a packet of type `packet_type`.
pub fn calculate_new_state(current_state: ConnectionState, packet_type: PacketType, is_local: bool) -> (r: ConnectionState)
    ensures
        r == next_state(current_state, packet_type, is_local),
{
    match (current_state.to_m2_state(), packet_type, is_local) {
        (ConnectionState::Idle, PacketType::Syn, true) => ConnectionState::SynSent,
        (ConnectionState::Closed, PacketType::Syn, true) => ConnectionState::SynSent,
        (ConnectionState::Idle, PacketType::Syn, false) => ConnectionState::SynReceived,
        (ConnectionState::Closed, PacketType::Syn, false) => ConnectionState::SynReceived,
        (ConnectionState::SynSent, PacketType::SynAck, false) => ConnectionState::Established,
        (ConnectionState::SynReceived, PacketType::Ack, false) => ConnectionState::Established,
        (ConnectionState::Established, PacketType::Data, _) => ConnectionState::Established,
        (ConnectionState::Established, PacketType::Ack, _) => ConnectionState::Established,
        (ConnectionState::Established, PacketType::Heartbeat, _) => ConnectionState::Established,
        (ConnectionState::Established, PacketType::Fin, true) => ConnectionState::FinWait,
        (ConnectionState::Established, PacketType::Fin, false) => ConnectionState::CloseWait,
        (ConnectionState::FinWait, PacketType::Ack, false) => ConnectionState::Closed,
        (ConnectionState::FinWait, PacketType::Fin, false) => ConnectionState::Closed,
        (ConnectionState::CloseWait, PacketType::Ack, _) => ConnectionState::Closed,
        (_, PacketType::Rst, _) => ConnectionState::Closed,
        (_, PacketType::Error, _) => ConnectionState::Error,
        (ConnectionState::Error, _, _) => ConnectionState::Recovering,
        (ConnectionState::Recovering, PacketType::Ack, _) => ConnectionState::Established,
        _ => current_state,
    }
}

/// Whether moving from `old_state` to `new_state` on a packet of type `packet_type` is allowed.
pub fn is_valid_transition(old_state: ConnectionState, new_state: ConnectionState, packet_type: PacketType) -> (r: bool)
    ensures
        r == valid_transition(old_state, new_state, packet_type),
{
    let o = old_state.to_m2_state();
    let n = new_state.to_m2_state();
    match (o, n, packet_type) {
        (ConnectionState::Idle, ConnectionState::SynSent, PacketType::Syn) => true,
        (ConnectionState::Closed, ConnectionState::SynSent, PacketType::Syn) => true,
        (ConnectionState::Idle, ConnectionState::SynReceived, PacketType::Syn) => true,
        (ConnectionState::Closed, ConnectionState::SynReceived, PacketType::Syn) => true,
        (ConnectionState::SynSent, ConnectionState::Established, PacketType::SynAck) => true,
        (ConnectionState::SynReceived, ConnectionState::Established, PacketType::Ack) => true,
        (ConnectionState::Established, ConnectionState::Established, PacketType::Data) => true,
        (ConnectionState::Established, ConnectionState::Established, PacketType::Ack) => true,
        (ConnectionState::Established, ConnectionState::Established, PacketType::Heartbeat) => true,
        (ConnectionState::Established, ConnectionState::FinWait, PacketType::Fin) => true,
        (ConnectionState::Established, ConnectionState::CloseWait, PacketType::Fin) => true,
        (ConnectionState::FinWait, ConnectionState::Closed, PacketType::Ack) => true,
        (ConnectionState::FinWait, ConnectionState::Closed, PacketType::Fin) => true,
        (ConnectionState::CloseWait, ConnectionState::Closed, PacketType::Ack) => true,
        (_, ConnectionState::Closed, PacketType::Rst) => true,
        (_, ConnectionState::Error, PacketType::Error) => true,
        (ConnectionState::Error, ConnectionState::Recovering, _) => true,
        (ConnectionState::Recovering, ConnectionState::Established, PacketType::Ack) => true,
        _ => o == n,
    }
}

/// The session state that follows a connection state.
pub fn session_state_of(s: ConnectionState) -> (r: SessionState)
    ensures
        r == session_state_for(s),
{
    match s.to_m2_state() {
        ConnectionState::Idle => SessionState::Initializing,
        ConnectionState::Closed => SessionState::Terminated,
        ConnectionState::SynSent => SessionState::Initializing,
        ConnectionState::SynReceived => SessionState::Initializing,
        ConnectionState::Established => SessionState::Active,
        ConnectionState::FinWait => SessionState::Terminating,
        ConnectionState::CloseWait => SessionState::Terminating,
        ConnectionState::Recovering => SessionState::Degraded,
        ConnectionState::Error => SessionState::Terminated,
        _ => SessionState::Initializing,
    }
}

/// Every transition the state machine makes is one that validation allows:
/// with strict validation no packet is ever refused as an invalid transition.
pub proof fn lemma_transitions_are_valid(s: ConnectionState, t: PacketType, local: bool)
    ensures
        valid_transition(s, next_state(s, t, local), t),
{
}

/// A reset closes a connection from every state.
pub proof fn lemma_reset_closes(s: ConnectionState, local: bool)
    ensures
        next_state(s, PacketType::Rst, local) == ConnectionState::Closed,
{
}

/// An error packet puts a connection into the error state from every state.
pub proof fn lemma_error_packet_errors(s: ConnectionState, local: bool)
    ensures
        next_state(s, PacketType::Error, local) == ConnectionState::Error,
{
}

/// The three-way handshake: a client that sends SYN and receives SYN-ACK, and
/// a server that receives SYN and then ACK, are established from idle or closed.
pub proof fn lemma_handshake(s: ConnectionState)
    requires
        m2_state(s) == ConnectionState::Idle || m2_state(s) == ConnectionState::Closed,
    ensures
        next_state(next_state(s, PacketType::Syn, true), PacketType::SynAck, false)
            == ConnectionState::Established,
        next_state(next_state(s, PacketType::Syn, false), PacketType::Ack, false)
            == ConnectionState::Established,
{
}

/// The FIN handshake: the side that sends FIN closes on the peer's ACK, the
/// side that receives it closes on its own ACK.
pub proof fn lemma_close_handshake()
    ensures
        next_state(next_state(ConnectionState::Established, PacketType::Fin, true), PacketType::Ack, false)
            == ConnectionState::Closed,
        next_state(next_state(ConnectionState::Established, PacketType::Fin, false), PacketType::Ack, true)
            == ConnectionState::Closed,
{
}

/// A side that has sent FIN (in `FinWait`, or `Closing` read as it) closes on
/// the peer's FIN, a simultaneous close, as on the peer's ACK; two established
/// sides that both send FIN and then receive each other's are both closed.
pub proof fn lemma_simultaneous_close(s: ConnectionState)
    requires
        m2_state(s) == ConnectionState::FinWait,
    ensures
        next_state(s, PacketType::Fin, false) == ConnectionState::Closed,
        next_state(s, PacketType::Ack, false) == ConnectionState::Closed,
        next_state(next_state(ConnectionState::Established, PacketType::Fin, true), PacketType::Fin, false)
            == ConnectionState::Closed,
{
}

// ---------------------------------------------------------------------------
// Records
// ---------------------------------------------------------------------------

/// Properties of a connection.
#[derive(Clone, Copy, Debug)]
pub struct ConnectionFlags {
    pub secure: bool,
    pub fragmentation_enabled: bool,
    pub flow_control_enabled: bool,
    pub authenticated: bool,
}

impl Default for ConnectionFlags {
    /// Fragmentation and flow control on, neither secure nor authenticated.
    fn default() -> (r: ConnectionFlags)
        ensures
            !r.secure && r.fragmentation_enabled && r.flow_control_enabled && !r.authenticated,
    {
        ConnectionFlags {
            secure: false,
            fragmentation_enabled: true,
            flow_control_enabled: true,
            authenticated: false,
        }
    }
}

/// Properties of a session.
#[derive(Clone, Copy, Debug)]
pub struct SessionFlags {
    pub authenticated: bool,
    pub encrypted: bool,
    pub recovery_enabled: bool,
}

impl Default for SessionFlags {
    /// Recovery on, neither authenticated nor encrypted.
    fn default() -> (r: SessionFlags)
        ensures
            !r.authenticated && !r.encrypted && r.recovery_enabled,
    {
        SessionFlags { authenticated: false, encrypted: false, recovery_enabled: true }
    }
}

/// Traffic counters of a session.
#[derive(Clone, Copy, Debug)]
pub struct SessionMetrics {
    pub packets_sent: PacketCount,
    pub packets_received: PacketCount,
    pub bytes_sent: ByteCount,
    pub bytes_received: ByteCount,
    pub errors: ErrorCount,
}

/// All counters at zero.
pub open spec fn zero_metrics() -> SessionMetrics {
    SessionMetrics {
        packets_sent: PacketCount(0),
        packets_received: PacketCount(0),
        bytes_sent: ByteCount(0),
        bytes_received: ByteCount(0),
        errors: ErrorCount(0),
    }
}

impl Default for SessionMetrics {
    /// All counters at zero.
    fn default() -> (r: SessionMetrics)
        ensures
            r == zero_metrics(),
    {
        SessionMetrics {
            packets_sent: PacketCount::new(0),
            packets_received: PacketCount::new(0),
            bytes_sent: ByteCount::new(0),
            bytes_received: ByteCount::new(0),
            errors: ErrorCount::new(0),
        }
    }
}

/// State of one connection.
#[derive(Clone, Copy, Debug)]
pub struct ConnectionStateInfo {
    pub session_id: SessionId,
    pub state: ConnectionState,
    pub created_at: Timestamp,
    pub last_activity: Timestamp,
    pub local_sequence: SequenceNumber,
    pub remote_sequence: SequenceNumber,
    pub flags: ConnectionFlags,
}

/// A connection as reported to callers.
#[derive(Clone, Copy, Debug)]
pub struct ConnectionInfo {
    pub session_id: SessionId,
    pub state: ConnectionState,
    pub created_at: Timestamp,
    pub last_activity: Timestamp,
    pub local_sequence: SequenceNumber,
    pub remote_sequence: SequenceNumber,
    pub flags: ConnectionFlags,
}

/// State of one session.
#[derive(Clone, Copy, Debug)]
pub struct SessionStateInfo {
    pub session_id: SessionId,
    pub state: SessionState,
    pub created_at: Timestamp,
    pub last_activity: Timestamp,
    pub metrics: SessionMetrics,
}

/// A session as reported to callers.
#[derive(Clone, Copy, Debug)]
pub struct SessionInfo {
    pub session_id: SessionId,
    pub state: SessionState,
    pub created_at: Timestamp,
    pub last_activity: Timestamp,
    pub connection_count: ConnectionCount,
    pub flags: SessionFlags,
    pub metrics: SessionMetrics,
}

/// Configuration of state tracking; timeouts are in milliseconds.
#[derive(Clone, Copy, Debug)]
pub struct StateConfig {
    pub connection_timeout: u64,
    pub session_timeout: u64,
    pub max_connections: ConnectionCount,
    pub max_sessions: SessionCount,
    /// Refuse transitions that validation does not allow.
    pub strict_validation: bool,
}

impl Default for StateConfig {
    /// Five-minute connections, one-hour sessions, ten thousand of each, strict validation.
    fn default() -> (r: StateConfig)
        ensures
            r.connection_timeout == 300_000,
            r.session_timeout == 3_600_000,
            r.max_connections.0 == 10_000,
            r.max_sessions.0 == 10_000,
            r.strict_validation,
    {
        StateConfig {
            connection_timeout: 300_000,
            session_timeout: 3_600_000,
            max_connections: ConnectionCount::new(10_000),
            max_sessions: SessionCount::new(10_000),
            strict_validation: true,
        }
    }
}

/// A packet handed to the state machine.
#[derive(Debug)]
pub struct StateTransitionRequest {
    pub session_id: SessionId,
    pub packet: Packet,
    /// Sent by this side rather than received.
    pub is_local: bool,
}

/// What handling a packet did to a connection.
#[derive(Debug)]
pub enum StateTransitionResult {
    Success { old_state: ConnectionState, new_state: ConnectionState },
    InvalidTransition {
        current_state: ConnectionState,
        attempted_packet_type: PacketType,
        reason: String,
    },
    StateNotFound { session_id: SessionId },
}

/// Counters of state tracking.
#[derive(Clone, Copy, Debug)]
pub struct StateStats {
    pub active_connections: ConnectionCount,
    pub active_sessions: SessionCount,
    pub total_transitions: TransitionCount,
    pub invalid_transitions: TransitionCount,
    pub expired_connections: ConnectionCount,
    pub expired_sessions: SessionCount,
}


// ---------------------------------------------------------------------------
// The manager
// ---------------------------------------------------------------------------

/// Tracks the state of every connection and session, keyed by session identifier.
pub struct ProtocolStateManager {
    connection_states: HashMap<u64, ConnectionStateInfo>,
    session_states: HashMap<u64, SessionStateInfo>,
    config: StateConfig,
    stats: StateStats,
}

/// The record of a connection before a packet for it is handled: the one
/// held, or a closed connection created `now`.
pub open spec fn connection_before(
    conns: Map<u64, ConnectionStateInfo>,
    sid: SessionId,
    now: Timestamp,
) -> ConnectionStateInfo {
    if conns.contains_key(sid.0) {
        conns[sid.0]
    } else {
        ConnectionStateInfo {
            session_id: sid,
            state: ConnectionState::Closed,
            created_at: now,
            last_activity: now,
            local_sequence: SequenceNumber(0),
            remote_sequence: SequenceNumber(0),
            flags: ConnectionFlags {
                secure: false,
                fragmentation_enabled: true,
                flow_control_enabled: true,
                authenticated: false,
            },
        }
    }
}

/// The record of a session before its connection's state is copied into it:
/// the one held, or an initializing session created `now`.
pub open spec fn session_before(
    sessions: Map<u64, SessionStateInfo>,
    sid: SessionId,
    now: Timestamp,
) -> SessionStateInfo {
    if sessions.contains_key(sid.0) {
        sessions[sid.0]
    } else {
        SessionStateInfo {
            session_id: sid,
            state: SessionState::Initializing,
            created_at: now,
            last_activity: now,
            metrics: zero_metrics(),
        }
    }
}

/// Nanoseconds from `from` to `to`, or zero when `to` is earlier.
pub open spec fn elapsed(from: Timestamp, to: Timestamp) -> int {
    if to.0 >= from.0 {
        to.0 - from.0
    } else {
        0
    }
}

/// A connection survives a cleanup at `now` while it has been active within
/// the timeout, unless it is closed and has been idle for over a minute.
pub open spec fn connection_kept(c: ConnectionStateInfo, now: Timestamp, timeout_ms: u64) -> bool {
    &&& elapsed(c.last_activity, now) < timeout_ms * 1_000_000
    &&& !(c.state == ConnectionState::Closed && elapsed(c.last_activity, now) > 60_000_000_000)
}

/// A session survives a cleanup at `now` while it has been active within the timeout.
pub open spec fn session_kept(s: SessionStateInfo, now: Timestamp, timeout_ms: u64) -> bool {
    elapsed(s.last_activity, now) < timeout_ms * 1_000_000
}

fn elapsed_nanos(from: Timestamp, to: Timestamp) -> (r: u64)
    ensures
        r == elapsed(from, to),
{
    if to.0 >= from.0 {
        to.0 - from.0
    } else {
        0
    }
}

/// The manager `s1` and answer `r` after `s0` handled `request` at `now`: the
/// connection's state moves as the state machine says (a connection not seen
/// before starts closed), its last activity becomes `now`, the packet's
/// sequence number becomes the local or remote sequence, the session follows
/// the connection, and the transition is counted.
pub open spec fn transition_outcome(
    s0: ProtocolStateManager,
    s1: ProtocolStateManager,
    request: StateTransitionRequest,
    now: Timestamp,
    r: Result<StateTransitionResult, ProtocolError>,
) -> bool {
    let sid = request.session_id;
    let t = packet_header(request.packet).packet_type;
    let before = connection_before(s0.connections(), sid, now);
    let next = next_state(before.state, t, request.is_local);
    let seq = packet_header(request.packet).sequence_number;
    let sb = session_before(s0.sessions(), sid, now);
    &&& r == Ok::<StateTransitionResult, ProtocolError>(
        StateTransitionResult::Success { old_state: before.state, new_state: next },
    )
    &&& s1.connections() == s0.connections().insert(
        sid.0,
        ConnectionStateInfo {
            state: next,
            last_activity: now,
            local_sequence: if request.is_local { seq } else { before.local_sequence },
            remote_sequence: if request.is_local { before.remote_sequence } else { seq },
            ..before
        },
    )
    &&& s1.sessions() == s0.sessions().insert(
        sid.0,
        SessionStateInfo { state: session_state_for(next), last_activity: now, ..sb },
    )
    &&& s1.spec_config() == s0.spec_config()
    &&& s1.spec_stats() == (StateStats {
        total_transitions: TransitionCount((s0.spec_stats().total_transitions.0 + 1) as u64),
        active_connections: ConnectionCount(s1.connections().len() as u32),
        ..s0.spec_stats()
    })
}

/// The manager `s1` after `s0` dropped, at `now`, the connections and
/// sessions that a cleanup does not keep, counting them as expired.
pub open spec fn cleanup_outcome(s0: ProtocolStateManager, s1: ProtocolStateManager, now: Timestamp) -> bool {
    &&& s1.connections() == kept_connections(s0.connections(), now, s0.spec_config().connection_timeout)
    &&& s1.sessions() == kept_sessions(s0.sessions(), now, s0.spec_config().session_timeout)
    &&& s1.spec_config() == s0.spec_config()
    &&& s1.spec_stats() == (StateStats {
        expired_connections: ConnectionCount(
            (s0.spec_stats().expired_connections.0 + s0.connections().len() - s1.connections().len()) as u32,
        ),
        active_connections: ConnectionCount(s1.connections().len() as u32),
        expired_sessions: SessionCount(
            (s0.spec_stats().expired_sessions.0 + s0.sessions().len() - s1.sessions().len()) as u32,
        ),
        active_sessions: SessionCount(s1.sessions().len() as u32),
        ..s0.spec_stats()
    })
}

impl ProtocolStateManager {
    pub closed spec fn connections(self) -> Map<u64, ConnectionStateInfo> {
        self.connection_states@
    }

    pub closed spec fn sessions(self) -> Map<u64, SessionStateInfo> {
        self.session_states@
    }

    pub closed spec fn spec_config(self) -> StateConfig {
        self.config
    }

    pub closed spec fn spec_stats(self) -> StateStats {
        self.stats
    }

    pub fn new() -> (r: ProtocolStateManager)
        ensures
            r.connections() == Map::<u64, ConnectionStateInfo>::empty(),
            r.sessions() == Map::<u64, SessionStateInfo>::empty(),
            r.spec_config().connection_timeout == 300_000,
            r.spec_config().session_timeout == 3_600_000,
            r.spec_config().strict_validation,
            r.spec_stats().total_transitions.0 == 0,
    {
        Self::with_config(StateConfig::default())
    }

    pub fn with_config(config: StateConfig) -> (r: ProtocolStateManager)
        ensures
            r.connections() == Map::<u64, ConnectionStateInfo>::empty(),
            r.sessions() == Map::<u64, SessionStateInfo>::empty(),
            r.spec_config() == config,
            r.spec_stats() == (StateStats {
                active_connections: ConnectionCount(0),
                active_sessions: SessionCount(0),
                total_transitions: TransitionCount(0),
                invalid_transitions: TransitionCount(0),
                expired_connections: ConnectionCount(0),
                expired_sessions: SessionCount(0),
            }),
    {
        ProtocolStateManager {
            connection_states: HashMap::new(),
            session_states: HashMap::new(),
            config,
            stats: StateStats {
                active_connections: ConnectionCount::new(0),
                active_sessions: SessionCount::new(0),
                total_transitions: TransitionCount::new(0),
                invalid_transitions: TransitionCount::new(0),
                expired_connections: ConnectionCount::new(0),
                expired_sessions: SessionCount::new(0),
            },
        }
    }

    /// Handles a packet at the current time (see `transition_outcome`).
    pub fn process_transition(&mut self, request: StateTransitionRequest) -> (r: Result<StateTransitionResult, ProtocolError>)
        requires
            old(self).spec_stats().total_transitions.0 < u64::MAX,
        ensures
            exists|now: Timestamp| transition_outcome(*old(self), *final(self), request, now, r),
    {
        let now = Timestamp::now();
        self.process_transition_at(request, now)
    }

    /// Handles a packet at time `now` (see `transition_outcome`).
    pub fn process_transition_at(&mut self, request: StateTransitionRequest, now: Timestamp) -> (r: Result<StateTransitionResult, ProtocolError>)
        requires
            old(self).spec_stats().total_transitions.0 < u64::MAX,
        ensures
            transition_outcome(*old(self), *final(self), request, now, r),
    {
        let packet_type = request.packet.packet_type();
        self.stats.total_transitions = TransitionCount::new(self.stats.total_transitions.as_u64() + 1);
        let sid = request.session_id;
        let key = sid.as_u64();
        let before = match self.connection_states.get(&key) {
            Some(c) => *c,
            None => ConnectionStateInfo {
                session_id: sid,
                state: ConnectionState::Closed,
                created_at: now,
                last_activity: now,
                local_sequence: SequenceNumber::new(0),
                remote_sequence: SequenceNumber::new(0),
                flags: ConnectionFlags::default(),
            },
        };
        let old_state = before.state;
        let new_state = calculate_new_state(old_state, packet_type, request.is_local);
        proof {
            lemma_transitions_are_valid(old_state, packet_type, request.is_local);
        }
        if self.config.strict_validation && !is_valid_transition(old_state, new_state, packet_type) {
            self.connection_states.insert(key, before);
            self.stats.invalid_transitions = TransitionCount::new(
                self.stats.invalid_transitions.as_u64() + 1,
            );
            return Ok(
                StateTransitionResult::InvalidTransition {
                    current_state: old_state,
                    attempted_packet_type: packet_type,
                    reason: String::new(),
                },
            );
        }
        let seq = request.packet.sequence_number();
        let mut updated = before;
        updated.state = new_state;
        updated.last_activity = now;
        if request.is_local {
            updated.local_sequence = seq;
        } else {
            updated.remote_sequence = seq;
        }
        self.connection_states.insert(key, updated);
        self.update_session_state(sid, new_state, now);
        self.stats.active_connections = ConnectionCount::new(self.connection_states.len() as u32);
        Ok(StateTransitionResult::Success { old_state, new_state })
    }

    /// Copies the connection state into the session's record, creating it if needed.
    fn update_session_state(&mut self, session_id: SessionId, connection_state: ConnectionState, now: Timestamp)
        ensures
            final(self).sessions() == old(self).sessions().insert(
                session_id.0,
                SessionStateInfo {
                    state: session_state_for(connection_state),
                    last_activity: now,
                    ..session_before(old(self).sessions(), session_id, now)
                },
            ),
            final(self).connections() == old(self).connections(),
            final(self).spec_config() == old(self).spec_config(),
            final(self).spec_stats() == old(self).spec_stats(),
    {
        let key = session_id.as_u64();
        let before = match self.session_states.get(&key) {
            Some(s) => *s,
            None => SessionStateInfo {
                session_id,
                state: SessionState::Initializing,
                created_at: now,
                last_activity: now,
                metrics: SessionMetrics::default(),
            },
        };
        let mut updated = before;
        updated.state = session_state_of(connection_state);
        updated.last_activity = now;
        self.session_states.insert(key, updated);
    }

    /// The state of the connection of a session, if it is tracked.
    pub fn get_connection_state(&self, session_id: SessionId) -> (r: Result<Option<ConnectionState>, ProtocolError>)
        ensures
            r == Ok::<Option<ConnectionState>, ProtocolError>(
                if self.connections().contains_key(session_id.0) {
                    Some(self.connections()[session_id.0].state)
                } else {
                    None
                },
            ),
    {
        let key = session_id.as_u64();
        match self.connection_states.get(&key) {
            Some(c) => Ok(Some(c.state)),
            None => Ok(None),
        }
    }

    /// The state of a session, if it is tracked.
    pub fn get_session_state(&self, session_id: SessionId) -> (r: Result<Option<SessionState>, ProtocolError>)
        ensures
            r == Ok::<Option<SessionState>, ProtocolError>(
                if self.sessions().contains_key(session_id.0) {
                    Some(self.sessions()[session_id.0].state)
                } else {
                    None
                },
            ),
    {
        let key = session_id.as_u64();
        match self.session_states.get(&key) {
            Some(s) => Ok(Some(s.state)),
            None => Ok(None),
        }
    }

    /// Replaces a tracked session's metrics by what `updater` makes of them and
    /// marks it active at the current time; an untracked session is left alone.
    pub fn update_session_metrics<F: FnOnce(SessionMetrics) -> SessionMetrics>(&mut self, session_id: SessionId, updater: F) -> (r: Result<(), ProtocolError>)
        requires
            forall|m: SessionMetrics| call_requires(updater, (m,)),
        ensures
            r is Ok,
            final(self).sessions().dom() == old(self).sessions().dom(),
            old(self).sessions().contains_key(session_id.0) ==> {
                let o = old(self).sessions()[session_id.0];
                let f = final(self).sessions()[session_id.0];
                &&& call_ensures(updater, (o.metrics,), f.metrics)
                &&& f == (SessionStateInfo { metrics: f.metrics, last_activity: f.last_activity, ..o })
            },
            forall|k: u64| k != session_id.0 && old(self).sessions().contains_key(k)
                ==> final(self).sessions()[k] == old(self).sessions()[k],
            final(self).connections() == old(self).connections(),
            final(self).spec_config() == old(self).spec_config(),
            final(self).spec_stats() == old(self).spec_stats(),
    {
        let now = Timestamp::now();
        let key = session_id.as_u64();
        match self.session_states.get(&key) {
            Some(s) => {
                let mut updated = *s;
                updated.metrics = updater(s.metrics);
                updated.last_activity = now;
                self.session_states.insert(key, updated);
            },
            None => {},
        }
        Ok(())
    }

    /// Reports the counters with the current numbers of connections and sessions.
    pub fn get_stats(&mut self) -> (r: Result<StateStats, ProtocolError>)
        ensures
            r == Ok::<StateStats, ProtocolError>(final(self).spec_stats()),
            final(self).spec_stats() == (StateStats {
                active_connections: ConnectionCount(old(self).connections().len() as u32),
                active_sessions: SessionCount(old(self).sessions().len() as u32),
                ..old(self).spec_stats()
            }),
            final(self).connections() == old(self).connections(),
            final(self).sessions() == old(self).sessions(),
            final(self).spec_config() == old(self).spec_config(),
    {
        self.stats.active_connections = ConnectionCount::new(self.connection_states.len() as u32);
        self.stats.active_sessions = SessionCount::new(self.session_states.len() as u32);
        Ok(self.stats)
    }

    /// Zeroes the counters of transitions and expirations.
    pub fn reset_stats(&mut self) -> (r: Result<(), ProtocolError>)
        ensures
            r is Ok,
            final(self).spec_stats() == (StateStats {
                total_transitions: TransitionCount(0),
                invalid_transitions: TransitionCount(0),
                expired_connections: ConnectionCount(0),
                expired_sessions: SessionCount(0),
                ..old(self).spec_stats()
            }),
            final(self).connections() == old(self).connections(),
            final(self).sessions() == old(self).sessions(),
            final(self).spec_config() == old(self).spec_config(),
    {
        self.stats = StateStats {
            active_connections: self.stats.active_connections,
            active_sessions: self.stats.active_sessions,
            total_transitions: TransitionCount::new(0),
            invalid_transitions: TransitionCount::new(0),
            expired_connections: ConnectionCount::new(0),
            expired_sessions: SessionCount::new(0),
        };
        Ok(())
    }

    /// Every tracked connection, in no particular order: as many records as
    /// connections, each connection's among them.
    pub fn get_active_connections(&self) -> (r: Result<Vec<ConnectionStateInfo>, ProtocolError>)
        ensures
            r is Ok,
            r->Ok_0@.len() == self.connections().len(),
            forall|k: u64| #[trigger]
                self.connections().contains_key(k) ==> r->Ok_0@.contains(self.connections()[k]),
    {
        let mut out: Vec<ConnectionStateInfo> = Vec::new();
        let ghost m = self.connection_states@;
        for (k, v) in it: self.connection_states.iter()
            invariant
                m == self.connection_states@,
                out@.len() == it.index(),
                it.seq() == spec_hash_map_iter(&self.connection_states).remaining(),
                forall|j: int| 0 <= j < out@.len() ==> out@[j] == *it.seq()[j].1,
        {
            out.push(*v);
        }
        proof {
            let s = spec_hash_map_iter(&self.connection_states).remaining();
            assert(s.len() == m.dom().len());
            assert(out@.len() == s.len());
            let c = self.connections();
            assert forall|k: u64| #[trigger] c.contains_key(k) implies out@.contains(c[k]) by {
                assert(s.contains((&k, &m[k])));
                let j = choose|j: int| 0 <= j < s.len() && s[j] == (&k, &m[k]);
                assert(out@[j] == m[k]);
            }
        }
        Ok(out)
    }

    /// Every tracked session, in no particular order, as reported to callers:
    /// as many records as sessions, each session's among them, counted as one
    /// connection with default flags.
    pub fn get_active_sessions(&self) -> (r: Result<Vec<SessionInfo>, ProtocolError>)
        ensures
            r is Ok,
            r->Ok_0@.len() == self.sessions().len(),
            forall|k: u64| #[trigger]
                self.sessions().contains_key(k) ==> r->Ok_0@.contains(session_info_of(self.sessions()[k])),
    {
        let mut out: Vec<SessionInfo> = Vec::new();
        let ghost m = self.session_states@;
        for (k, v) in it: self.session_states.iter()
            invariant
                m == self.session_states@,
                out@.len() == it.index(),
                it.seq() == spec_hash_map_iter(&self.session_states).remaining(),
                forall|j: int| 0 <= j < out@.len() ==> out@[j] == session_info_of(*it.seq()[j].1),
        {
            out.push(SessionInfo {
                session_id: v.session_id,
                state: v.state,
                created_at: v.created_at,
                last_activity: v.last_activity,
                connection_count: ConnectionCount::new(1),
                flags: SessionFlags::default(),
                metrics: v.metrics,
            });
        }
        proof {
            let s = spec_hash_map_iter(&self.session_states).remaining();
            assert(s.len() == m.dom().len());
            let c = self.sessions();
            assert forall|k: u64| #[trigger] c.contains_key(k) implies out@.contains(session_info_of(c[k])) by {
                assert(s.contains((&k, &m[k])));
                let j = choose|j: int| 0 <= j < s.len() && s[j] == (&k, &m[k]);
                assert(out@[j] == session_info_of(m[k]));
            }
        }
        Ok(out)
    }

    /// Drops expired connections and sessions at the current time (see `cleanup_outcome`).
    pub fn cleanup_expired_states(&mut self) -> (r: Result<(), ProtocolError>)
        requires
            old(self).spec_stats().expired_connections.0 + old(self).connections().len() <= u32::MAX,
            old(self).spec_stats().expired_sessions.0 + old(self).sessions().len() <= u32::MAX,
        ensures
            r is Ok,
            exists|now: Timestamp| cleanup_outcome(*old(self), *final(self), now),
    {
        let now = Timestamp::now();
        self.cleanup_expired_states_at(now)
    }

    /// Drops, at time `now`, the connections and sessions that a cleanup does
    /// not keep, and counts them as expired (see `cleanup_outcome`).
    pub fn cleanup_expired_states_at(&mut self, now: Timestamp) -> (r: Result<(), ProtocolError>)
        requires
            old(self).spec_stats().expired_connections.0 + old(self).connections().len() <= u32::MAX,
            old(self).spec_stats().expired_sessions.0 + old(self).sessions().len() <= u32::MAX,
        ensures
            r is Ok,
            cleanup_outcome(*old(self), *final(self), now),
    {
        let timeout = self.config.connection_timeout;
        let ghost m = self.connection_states@;
        let mut fresh: HashMap<u64, ConnectionStateInfo> = HashMap::new();
        for (k, v) in it: self.connection_states.iter()
            invariant
                m == self.connection_states@,
                timeout == self.config.connection_timeout,
                it.seq() == spec_hash_map_iter(&self.connection_states).remaining(),
                fresh@ == Map::new(
                    |key: u64| m.contains_key(key) && connection_kept(m[key], now, timeout)
                        && exists|j: int| 0 <= j < it.index() && *it.seq()[j].0 == key,
                    |key: u64| m[key],
                ),
        {
            let ghost idx = it.index();
            proof {
                let s = spec_hash_map_iter(&self.connection_states).remaining();
                assert(m.contains_key(*s[idx].0) && m[*s[idx].0] == *s[idx].1);
            }
            if connection_is_kept(v, now, timeout) {
                fresh.insert(*k, *v);
            }
            proof {
                assert(fresh@ =~= Map::new(
                    |key: u64| m.contains_key(key) && connection_kept(m[key], now, timeout)
                        && exists|j: int| 0 <= j < idx + 1 && *it.seq()[j].0 == key,
                    |key: u64| m[key],
                ));
            }
        }
        proof {
            let s = spec_hash_map_iter(&self.connection_states).remaining();
            assert forall|key: u64| #[trigger] m.contains_key(key) implies exists|j: int|
                0 <= j < s.len() && *s[j].0 == key by {
                assert(s.contains((&key, &m[key])));
            }
            assert(fresh@ =~= kept_connections(m, now, timeout));
            vstd::set_lib::lemma_len_subset(fresh@.dom(), m.dom());
        }
        let before = self.connection_states.len();
        self.connection_states = fresh;
        let after = self.connection_states.len();
        self.stats.expired_connections = ConnectionCount::new(
            self.stats.expired_connections.as_u32() + (before - after) as u32,
        );
        self.stats.active_connections = ConnectionCount::new(after as u32);

        let stimeout = self.config.session_timeout;
        let ghost sm = self.session_states@;
        let mut sfresh: HashMap<u64, SessionStateInfo> = HashMap::new();
        for (k, v) in it: self.session_states.iter()
            invariant
                sm == self.session_states@,
                it.seq() == spec_hash_map_iter(&self.session_states).remaining(),
                sfresh@ == Map::new(
                    |key: u64| sm.contains_key(key) && session_kept(sm[key], now, stimeout)
                        && exists|j: int| 0 <= j < it.index() && *it.seq()[j].0 == key,
                    |key: u64| sm[key],
                ),
        {
            let ghost idx = it.index();
            proof {
                let s = spec_hash_map_iter(&self.session_states).remaining();
                assert(sm.contains_key(*s[idx].0) && sm[*s[idx].0] == *s[idx].1);
            }
            if (elapsed_nanos(v.last_activity, now) as u128) < (stimeout as u128) * 1_000_000 {
                sfresh.insert(*k, *v);
            }
            proof {
                assert(sfresh@ =~= Map::new(
                    |key: u64| sm.contains_key(key) && session_kept(sm[key], now, stimeout)
                        && exists|j: int| 0 <= j < idx + 1 && *it.seq()[j].0 == key,
                    |key: u64| sm[key],
                ));
            }
        }
        proof {
            let s = spec_hash_map_iter(&self.session_states).remaining();
            assert forall|key: u64| #[trigger] sm.contains_key(key) implies exists|j: int|
                0 <= j < s.len() && *s[j].0 == key by {
                assert(s.contains((&key, &sm[key])));
            }
            assert(sfresh@ =~= kept_sessions(sm, now, stimeout));
            vstd::set_lib::lemma_len_subset(sfresh@.dom(), sm.dom());
        }
        let sbefore = self.session_states.len();
        self.session_states = sfresh;
        let safter = self.session_states.len();
        self.stats.expired_sessions = SessionCount::new(
            self.stats.expired_sessions.as_u32() + (sbefore - safter) as u32,
        );
        self.stats.active_sessions = SessionCount::new(safter as u32);
        Ok(())
    }
}

/// How a session is reported to callers: one connection, default flags.
pub open spec fn session_info_of(s: SessionStateInfo) -> SessionInfo {
    SessionInfo {
        session_id: s.session_id,
        state: s.state,
        created_at: s.created_at,
        last_activity: s.last_activity,
        connection_count: ConnectionCount(1),
        flags: SessionFlags { authenticated: false, encrypted: false, recovery_enabled: true },
        metrics: s.metrics,
    }
}

/// The connections of `m` that a cleanup at `now` keeps.
pub open spec fn kept_connections(m: Map<u64, ConnectionStateInfo>, now: Timestamp, timeout_ms: u64) -> Map<u64, ConnectionStateInfo> {
    Map::new(|k: u64| m.contains_key(k) && connection_kept(m[k], now, timeout_ms), |k: u64| m[k])
}

/// The sessions of `m` that a cleanup at `now` keeps.
pub open spec fn kept_sessions(m: Map<u64, SessionStateInfo>, now: Timestamp, timeout_ms: u64) -> Map<u64, SessionStateInfo> {
    Map::new(|k: u64| m.contains_key(k) && session_kept(m[k], now, timeout_ms), |k: u64| m[k])
}

/// Whether a cleanup at `now` keeps connection `c`.
fn connection_is_kept(c: &ConnectionStateInfo, now: Timestamp, timeout_ms: u64) -> (r: bool)
    ensures
        r == connection_kept(*c, now, timeout_ms),
{
    let e = elapsed_nanos(c.last_activity, now);
    (e as u128) < (timeout_ms as u128) * 1_000_000 && !(c.state == ConnectionState::Closed && e > 60_000_000_000)
}

} // verus!
