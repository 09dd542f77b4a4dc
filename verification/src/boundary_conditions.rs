//! Boundary conditions: their kinds and severities, the recovery chosen for
//! each, the statistics and history kept of them, and the resource, sequence
//! and time boundaries watched.
use vstd::prelude::*;
use dashmap::DashMap;
use crate::edge_cases::{
    bump, edge_case_text, fresh_session, packet_edge_error, EdgeCaseError, EdgeCaseHandler,
};
use crate::text::{decimal, with_decimal};
use crate::error::ProtocolError;
use crate::packet::structures::{packet_header, Packet};
use crate::types::spec_tag_size;
use crate::values::{
    validation_text, ConnectionCount, IpAddress, PacketCount, SequenceNumber, SessionId, Timestamp,
    ValidationError,
};

verus! {

/// Kinds of boundary condition.
#[derive(Clone, Copy, Debug, PartialEq, Eq, Hash, Structural)]
pub enum BoundaryConditionType {
    SequenceNumberWrapAround,
    TimestampOverflow,
    SessionIdExhaustion,
    PortRangeExhaustion,
    MemoryExhaustion,
    ConnectionLimitReached,
    BufferOverflow,
    FileDescriptorLimit,
    MonthBoundaryTransition,
    DaylightSavingTransition,
    LeapSecondTransition,
    ClockSynchronizationFailure,
    AuthenticationFailureThreshold,
    RateLimitThreshold,
    AttackDetectionThreshold,
    CryptographicKeyExpiration,
    PacketSizeLimit,
    FragmentationLimit,
    ReassemblyTimeout,
    ConnectionTimeout,
    MTUDiscoveryFailure,
    PathMTUChange,
    NetworkPartition,
    AsymmetricRouting,
}

/// The number a kind is counted under: its position in the list of kinds.
pub open spec fn type_code(t: BoundaryConditionType) -> u8 {
    match t {
        BoundaryConditionType::SequenceNumberWrapAround => 0,
        BoundaryConditionType::TimestampOverflow => 1,
        BoundaryConditionType::SessionIdExhaustion => 2,
        BoundaryConditionType::PortRangeExhaustion => 3,
        BoundaryConditionType::MemoryExhaustion => 4,
        BoundaryConditionType::ConnectionLimitReached => 5,
        BoundaryConditionType::BufferOverflow => 6,
        BoundaryConditionType::FileDescriptorLimit => 7,
        BoundaryConditionType::MonthBoundaryTransition => 8,
        BoundaryConditionType::DaylightSavingTransition => 9,
        BoundaryConditionType::LeapSecondTransition => 10,
        BoundaryConditionType::ClockSynchronizationFailure => 11,
        BoundaryConditionType::AuthenticationFailureThreshold => 12,
        BoundaryConditionType::RateLimitThreshold => 13,
        BoundaryConditionType::AttackDetectionThreshold => 14,
        BoundaryConditionType::CryptographicKeyExpiration => 15,
        BoundaryConditionType::PacketSizeLimit => 16,
        BoundaryConditionType::FragmentationLimit => 17,
        BoundaryConditionType::ReassemblyTimeout => 18,
        BoundaryConditionType::ConnectionTimeout => 19,
        BoundaryConditionType::MTUDiscoveryFailure => 20,
        BoundaryConditionType::PathMTUChange => 21,
        BoundaryConditionType::NetworkPartition => 22,
        BoundaryConditionType::AsymmetricRouting => 23,
    }
}

/// The human-readable text of a value of `BoundaryConditionType`.
pub open spec fn condition_text(v: BoundaryConditionType) -> Seq<char> {
    match v {
        BoundaryConditionType::SequenceNumberWrapAround => "Sequence number wrap-around"@,
        BoundaryConditionType::TimestampOverflow => "Timestamp overflow"@,
        BoundaryConditionType::SessionIdExhaustion => "Session ID exhaustion"@,
        BoundaryConditionType::PortRangeExhaustion => "Port range exhaustion"@,
        BoundaryConditionType::MemoryExhaustion => "Memory exhaustion"@,
        BoundaryConditionType::ConnectionLimitReached => "Connection limit reached"@,
        BoundaryConditionType::BufferOverflow => "Buffer overflow"@,
        BoundaryConditionType::FileDescriptorLimit => "File descriptor limit"@,
        BoundaryConditionType::MonthBoundaryTransition => "Month boundary transition"@,
        BoundaryConditionType::DaylightSavingTransition => "Daylight saving transition"@,
        BoundaryConditionType::LeapSecondTransition => "Leap second transition"@,
        BoundaryConditionType::ClockSynchronizationFailure => "Clock synchronization failure"@,
        BoundaryConditionType::AuthenticationFailureThreshold => "Authentication failure threshold"@,
        BoundaryConditionType::RateLimitThreshold => "Rate limit threshold"@,
        BoundaryConditionType::AttackDetectionThreshold => "Attack detection threshold"@,
        BoundaryConditionType::CryptographicKeyExpiration => "Cryptographic key expiration"@,
        BoundaryConditionType::PacketSizeLimit => "Packet size limit"@,
        BoundaryConditionType::FragmentationLimit => "Fragmentation limit"@,
        BoundaryConditionType::ReassemblyTimeout => "Reassembly timeout"@,
        BoundaryConditionType::ConnectionTimeout => "Connection timeout"@,
        BoundaryConditionType::MTUDiscoveryFailure => "MTU discovery failure"@,
        BoundaryConditionType::PathMTUChange => "Path MTU change"@,
        BoundaryConditionType::NetworkPartition => "Network partition"@,
        BoundaryConditionType::AsymmetricRouting => "Asymmetric routing"@,
    }
}

impl BoundaryConditionType {
    pub fn code(&self) -> (r: u8)
        ensures
            r == type_code(*self),
    {
        match self {
            BoundaryConditionType::SequenceNumberWrapAround => 0,
            BoundaryConditionType::TimestampOverflow => 1,
            BoundaryConditionType::SessionIdExhaustion => 2,
            BoundaryConditionType::PortRangeExhaustion => 3,
            BoundaryConditionType::MemoryExhaustion => 4,
            BoundaryConditionType::ConnectionLimitReached => 5,
            BoundaryConditionType::BufferOverflow => 6,
            BoundaryConditionType::FileDescriptorLimit => 7,
            BoundaryConditionType::MonthBoundaryTransition => 8,
            BoundaryConditionType::DaylightSavingTransition => 9,
            BoundaryConditionType::LeapSecondTransition => 10,
            BoundaryConditionType::ClockSynchronizationFailure => 11,
            BoundaryConditionType::AuthenticationFailureThreshold => 12,
            BoundaryConditionType::RateLimitThreshold => 13,
            BoundaryConditionType::AttackDetectionThreshold => 14,
            BoundaryConditionType::CryptographicKeyExpiration => 15,
            BoundaryConditionType::PacketSizeLimit => 16,
            BoundaryConditionType::FragmentationLimit => 17,
            BoundaryConditionType::ReassemblyTimeout => 18,
            BoundaryConditionType::ConnectionTimeout => 19,
            BoundaryConditionType::MTUDiscoveryFailure => 20,
            BoundaryConditionType::PathMTUChange => 21,
            BoundaryConditionType::NetworkPartition => 22,
            BoundaryConditionType::AsymmetricRouting => 23,
        }
    }

    /// A human-readable name of the kind.
    pub fn description(&self) -> (r: &'static str)
        ensures
            r@ == condition_text(*self),
    {
        match self {
            BoundaryConditionType::SequenceNumberWrapAround => "Sequence number wrap-around",
            BoundaryConditionType::TimestampOverflow => "Timestamp overflow",
            BoundaryConditionType::SessionIdExhaustion => "Session ID exhaustion",
            BoundaryConditionType::PortRangeExhaustion => "Port range exhaustion",
            BoundaryConditionType::MemoryExhaustion => "Memory exhaustion",
            BoundaryConditionType::ConnectionLimitReached => "Connection limit reached",
            BoundaryConditionType::BufferOverflow => "Buffer overflow",
            BoundaryConditionType::FileDescriptorLimit => "File descriptor limit",
            BoundaryConditionType::MonthBoundaryTransition => "Month boundary transition",
            BoundaryConditionType::DaylightSavingTransition => "Daylight saving transition",
            BoundaryConditionType::LeapSecondTransition => "Leap second transition",
            BoundaryConditionType::ClockSynchronizationFailure => "Clock synchronization failure",
            BoundaryConditionType::AuthenticationFailureThreshold => "Authentication failure threshold",
            BoundaryConditionType::RateLimitThreshold => "Rate limit threshold",
            BoundaryConditionType::AttackDetectionThreshold => "Attack detection threshold",
            BoundaryConditionType::CryptographicKeyExpiration => "Cryptographic key expiration",
            BoundaryConditionType::PacketSizeLimit => "Packet size limit",
            BoundaryConditionType::FragmentationLimit => "Fragmentation limit",
            BoundaryConditionType::ReassemblyTimeout => "Reassembly timeout",
            BoundaryConditionType::ConnectionTimeout => "Connection timeout",
            BoundaryConditionType::MTUDiscoveryFailure => "MTU discovery failure",
            BoundaryConditionType::PathMTUChange => "Path MTU change",
            BoundaryConditionType::NetworkPartition => "Network partition",
            BoundaryConditionType::AsymmetricRouting => "Asymmetric routing",
        }
    }
}

/// How grave a boundary condition is, from least to most.
#[derive(Clone, Copy, Debug, PartialEq, Eq, Hash, Structural)]
pub enum BoundaryConditionSeverity {
    Info,
    Warning,
    Error,
    Critical,
    Fatal,
}

/// The rank of a severity, from 0 for information to 4 for fatal.
pub open spec fn severity_rank(s: BoundaryConditionSeverity) -> u8 {
    match s {
        BoundaryConditionSeverity::Info => 0,
        BoundaryConditionSeverity::Warning => 1,
        BoundaryConditionSeverity::Error => 2,
        BoundaryConditionSeverity::Critical => 3,
        BoundaryConditionSeverity::Fatal => 4,
    }
}

/// The name of a severity.
pub open spec fn severity_text(s: BoundaryConditionSeverity) -> Seq<char> {
    match s {
        BoundaryConditionSeverity::Info => "INFO"@,
        BoundaryConditionSeverity::Warning => "WARNING"@,
        BoundaryConditionSeverity::Error => "ERROR"@,
        BoundaryConditionSeverity::Critical => "CRITICAL"@,
        BoundaryConditionSeverity::Fatal => "FATAL"@,
    }
}

impl BoundaryConditionSeverity {
    pub fn rank(&self) -> (r: u8)
        ensures
            r == severity_rank(*self),
    {
        match self {
            BoundaryConditionSeverity::Info => 0,
            BoundaryConditionSeverity::Warning => 1,
            BoundaryConditionSeverity::Error => 2,
            BoundaryConditionSeverity::Critical => 3,
            BoundaryConditionSeverity::Fatal => 4,
        }
    }

    pub fn description(&self) -> (r: &'static str)
        ensures
            r@ == severity_text(*self),
    {
        match self {
            BoundaryConditionSeverity::Info => "INFO",
            BoundaryConditionSeverity::Warning => "WARNING",
            BoundaryConditionSeverity::Error => "ERROR",
            BoundaryConditionSeverity::Critical => "CRITICAL",
            BoundaryConditionSeverity::Fatal => "FATAL",
        }
    }
}

/// What is done about a boundary condition.
#[derive(Clone, Copy, Debug, PartialEq, Eq, Structural)]
pub enum BoundaryConditionRecovery {
    GracefulDegradation,
    ResourceCleanup,
    ConnectionTermination,
    SessionReset,
    SystemRestart,
    ConfigurationUpdate,
    SecurityResponse,
    NetworkReconfiguration,
    FatalError,
}

/// The human-readable text of a value of `BoundaryConditionRecovery`.
pub open spec fn recovery_text(v: BoundaryConditionRecovery) -> Seq<char> {
    match v {
        BoundaryConditionRecovery::GracefulDegradation => "Graceful degradation"@,
        BoundaryConditionRecovery::ResourceCleanup => "Resource cleanup"@,
        BoundaryConditionRecovery::ConnectionTermination => "Connection termination"@,
        BoundaryConditionRecovery::SessionReset => "Session reset"@,
        BoundaryConditionRecovery::SystemRestart => "System restart required"@,
        BoundaryConditionRecovery::ConfigurationUpdate => "Configuration update required"@,
        BoundaryConditionRecovery::SecurityResponse => "Security response required"@,
        BoundaryConditionRecovery::NetworkReconfiguration => "Network reconfiguration required"@,
        BoundaryConditionRecovery::FatalError => "Fatal error - no recovery possible"@,
    }
}

impl BoundaryConditionRecovery {
    pub fn description(&self) -> (r: &'static str)
        ensures
            r@ == recovery_text(*self),
    {
        match self {
            BoundaryConditionRecovery::GracefulDegradation => "Graceful degradation",
            BoundaryConditionRecovery::ResourceCleanup => "Resource cleanup",
            BoundaryConditionRecovery::ConnectionTermination => "Connection termination",
            BoundaryConditionRecovery::SessionReset => "Session reset",
            BoundaryConditionRecovery::SystemRestart => "System restart required",
            BoundaryConditionRecovery::ConfigurationUpdate => "Configuration update required",
            BoundaryConditionRecovery::SecurityResponse => "Security response required",
            BoundaryConditionRecovery::NetworkReconfiguration => "Network reconfiguration required",
            BoundaryConditionRecovery::FatalError => "Fatal error - no recovery possible",
        }
    }
}

/// A boundary condition that happened.
#[derive(Clone, Debug)]
pub struct BoundaryConditionEvent {
    pub condition_type: BoundaryConditionType,
    pub session_id: Option<SessionId>,
    pub timestamp: Timestamp,
    pub severity: BoundaryConditionSeverity,
    pub context: String,
    pub recovery_action: Option<BoundaryConditionRecovery>,
}

/// Why handling a boundary condition, or a packet's boundary checks, failed.
#[derive(Clone, Debug, PartialEq, Eq)]
pub enum BoundaryError {
    /// No recovery is possible.
    Internal(String),
    /// The packet's size or structure is invalid.
    Validation(String),
    /// The packet's timestamp or session identifier was refused.
    Security(SecurityError),
    /// The packet is an edge case the protocol does not handle.
    Protocol(ProtocolError),
}

/// Why the security checks refused a packet's timestamp or session identifier.
#[derive(Clone, Debug, PartialEq, Eq)]
pub enum SecurityError {
    /// The timestamp lies outside the accepted window.
    TimestampValidationFailed { reason: String },
    /// The packet was seen before.
    DuplicatePacket { reason: String },
    /// The packet replays an earlier one.
    ReplayAttack { reason: String },
    /// The session identifier is not acceptable.
    InvalidSessionId { reason: String },
}

/// The reason a security error gives.
pub open spec fn security_text(e: SecurityError) -> Seq<char> {
    match e {
        SecurityError::TimestampValidationFailed { reason } => reason@,
        SecurityError::DuplicatePacket { reason } => reason@,
        SecurityError::ReplayAttack { reason } => reason@,
        SecurityError::InvalidSessionId { reason } => reason@,
    }
}

impl SecurityError {
    /// The reason the error gives.
    pub fn description(&self) -> (r: String)
        ensures
            r@ == security_text(*self),
    {
        match self {
            SecurityError::TimestampValidationFailed { reason } => reason.clone(),
            SecurityError::DuplicatePacket { reason } => reason.clone(),
            SecurityError::ReplayAttack { reason } => reason.clone(),
            SecurityError::InvalidSessionId { reason } => reason.clone(),
        }
    }
}

/// The recovery chosen for a kind and severity: cleanup, degradation or a
/// fatal error for memory exhaustion by severity, degradation at the
/// connection limit and at a month boundary, a security response to a
/// critical attack, a session reset at sequence wrap-around, a fatal error
/// for anything else fatal, and nothing otherwise.
pub open spec fn recovery_for(t: BoundaryConditionType, s: BoundaryConditionSeverity) -> Option<BoundaryConditionRecovery> {
    if t == BoundaryConditionType::MemoryExhaustion && s == BoundaryConditionSeverity::Warning {
        Some(BoundaryConditionRecovery::ResourceCleanup)
    } else if t == BoundaryConditionType::MemoryExhaustion && s == BoundaryConditionSeverity::Critical {
        Some(BoundaryConditionRecovery::GracefulDegradation)
    } else if t == BoundaryConditionType::MemoryExhaustion && s == BoundaryConditionSeverity::Fatal {
        Some(BoundaryConditionRecovery::FatalError)
    } else if t == BoundaryConditionType::ConnectionLimitReached {
        Some(BoundaryConditionRecovery::GracefulDegradation)
    } else if t == BoundaryConditionType::AttackDetectionThreshold && s == BoundaryConditionSeverity::Critical {
        Some(BoundaryConditionRecovery::SecurityResponse)
    } else if t == BoundaryConditionType::SequenceNumberWrapAround {
        Some(BoundaryConditionRecovery::SessionReset)
    } else if t == BoundaryConditionType::MonthBoundaryTransition {
        Some(BoundaryConditionRecovery::GracefulDegradation)
    } else if s == BoundaryConditionSeverity::Fatal {
        Some(BoundaryConditionRecovery::FatalError)
    } else {
        None
    }
}

// ---------------------------------------------------------------------------
// Counters by kind and severity
// ---------------------------------------------------------------------------

/// What a counter table holds, by kind or severity number.
pub uninterp spec fn count_table(m: DashMap<u8, u64>) -> Map<u8, u64>;

/// Calls `DashMap::new`: an empty map.
#[verifier::external_body]
fn counts_new() -> (r: DashMap<u8, u64>)
    ensures
        count_table(r).is_empty(),
{
    DashMap::new()
}

/// Calls `DashMap::get` and copies the count out: the count under `key`, if any.
#[verifier::external_body]
fn counts_get(m: &DashMap<u8, u64>, key: u8) -> (r: Option<u64>)
    ensures
        r == (if count_table(*m).contains_key(key) {
            Some(count_table(*m)[key])
        } else {
            None
        }),
{
    m.get(&key).map(|e| *e.value())
}

/// Calls `DashMap::insert`, which puts `value` under `key`, replacing what was there.
#[verifier::external_body]
fn counts_insert(m: &mut DashMap<u8, u64>, key: u8, value: u64)
    ensures
        count_table(*final(m)) == count_table(*old(m)).insert(key, value),
{
    m.insert(key, value);
}

/// The table after one more condition counted under `key` (wrapping).
pub open spec fn counted(m: Map<u8, u64>, key: u8) -> Map<u8, u64> {
    m.insert(key, vstd::wrapping::u64_specs::wrapping_add(if m.contains_key(key) { m[key] } else { 0 }, 1))
}

/// Counts one more condition under `key`.
fn count_one(m: &mut DashMap<u8, u64>, key: u8)
    ensures
        count_table(*final(m)) == counted(count_table(*old(m)), key),
{
    let current = match counts_get(m, key) {
        Some(c) => c,
        None => 0,
    };
    counts_insert(m, key, current.wrapping_add(1));
}

/// Counters of boundary conditions and their recoveries; they wrap around.
#[derive(Debug)]
pub struct BoundaryConditionStats {
    pub total_conditions_detected: PacketCount,
    pub conditions_by_type: DashMap<u8, u64>,
    pub conditions_by_severity: DashMap<u8, u64>,
    pub successful_recoveries: PacketCount,
    pub failed_recoveries: PacketCount,
    pub fatal_conditions: PacketCount,
}

/// Adds one to a count, wrapping around.
pub open spec fn plus_one(c: PacketCount) -> PacketCount {
    PacketCount(vstd::wrapping::u64_specs::wrapping_add(c.0, 1))
}

impl BoundaryConditionStats {
    /// Nothing counted.
    pub fn new() -> (r: BoundaryConditionStats)
        ensures
            r.total_conditions_detected.0 == 0,
            count_table(r.conditions_by_type).is_empty(),
            count_table(r.conditions_by_severity).is_empty(),
            r.successful_recoveries.0 == 0,
            r.failed_recoveries.0 == 0,
            r.fatal_conditions.0 == 0,
    {
        BoundaryConditionStats {
            total_conditions_detected: PacketCount::new(0),
            conditions_by_type: counts_new(),
            conditions_by_severity: counts_new(),
            successful_recoveries: PacketCount::new(0),
            failed_recoveries: PacketCount::new(0),
            fatal_conditions: PacketCount::new(0),
        }
    }

    /// Counts a condition: in all, by kind, by severity, and as fatal when it is.
    pub fn record_condition(&mut self, condition_type: BoundaryConditionType, severity: BoundaryConditionSeverity)
        ensures
            final(self).total_conditions_detected == plus_one(old(self).total_conditions_detected),
            count_table(final(self).conditions_by_type) == counted(count_table(old(self).conditions_by_type), type_code(condition_type)),
            count_table(final(self).conditions_by_severity) == counted(count_table(old(self).conditions_by_severity), severity_rank(severity)),
            final(self).fatal_conditions == (if severity == BoundaryConditionSeverity::Fatal {
                plus_one(old(self).fatal_conditions)
            } else {
                old(self).fatal_conditions
            }),
            final(self).successful_recoveries == old(self).successful_recoveries,
            final(self).failed_recoveries == old(self).failed_recoveries,
    {
        self.total_conditions_detected = PacketCount::new(self.total_conditions_detected.0.wrapping_add(1));
        count_one(&mut self.conditions_by_type, condition_type.code());
        count_one(&mut self.conditions_by_severity, severity.rank());
        if severity == BoundaryConditionSeverity::Fatal {
            self.fatal_conditions = PacketCount::new(self.fatal_conditions.0.wrapping_add(1));
        }
    }

    pub fn record_recovery_success(&mut self)
        ensures
            final(self).successful_recoveries == plus_one(old(self).successful_recoveries),
            final(self).failed_recoveries == old(self).failed_recoveries,
            final(self).total_conditions_detected == old(self).total_conditions_detected,
            final(self).fatal_conditions == old(self).fatal_conditions,
            count_table(final(self).conditions_by_type) == count_table(old(self).conditions_by_type),
            count_table(final(self).conditions_by_severity) == count_table(old(self).conditions_by_severity),
    {
        self.successful_recoveries = PacketCount::new(self.successful_recoveries.0.wrapping_add(1));
    }

    pub fn record_recovery_failure(&mut self)
        ensures
            final(self).failed_recoveries == plus_one(old(self).failed_recoveries),
            final(self).successful_recoveries == old(self).successful_recoveries,
            final(self).total_conditions_detected == old(self).total_conditions_detected,
            final(self).fatal_conditions == old(self).fatal_conditions,
            count_table(final(self).conditions_by_type) == count_table(old(self).conditions_by_type),
            count_table(final(self).conditions_by_severity) == count_table(old(self).conditions_by_severity),
    {
        self.failed_recoveries = PacketCount::new(self.failed_recoveries.0.wrapping_add(1));
    }
}

impl Default for BoundaryConditionStats {
    fn default() -> (r: BoundaryConditionStats)
        ensures
            r.total_conditions_detected.0 == 0,
            count_table(r.conditions_by_type).is_empty(),
    {
        BoundaryConditionStats::new()
    }
}

// ---------------------------------------------------------------------------
// The manager
// ---------------------------------------------------------------------------

/// What is known of an event: kind, session, time, severity, context and recovery.
pub type EventView = (
    BoundaryConditionType,
    Option<SessionId>,
    Timestamp,
    BoundaryConditionSeverity,
    Seq<char>,
    Option<BoundaryConditionRecovery>,
);

pub open spec fn event_view(e: BoundaryConditionEvent) -> EventView {
    (e.condition_type, e.session_id, e.timestamp, e.severity, e.context@, e.recovery_action)
}

/// The history kept after `e` was added to `h`: past 10000 events, the
/// oldest thousand are dropped.
pub open spec fn history_after(h: Seq<EventView>, e: EventView) -> Seq<EventView> {
    let h2 = h.push(e);
    if h2.len() > 10000 {
        h2.subrange(1000, h2.len() as int)
    } else {
        h2
    }
}

/// The edge case handler `h1` after a cleanup of `h0` at `now`: expired
/// buffers dropped and error answers forgotten.
pub open spec fn cleaned_up(h0: EdgeCaseHandler, h1: EdgeCaseHandler, now: Timestamp) -> bool {
    &&& forall|k: u32| #[trigger] h1.buffers().contains_key(k) <==> h0.buffers().contains_key(k)
        && now.0 / 1_000_000 < h0.buffers()[k].timeout.0
    &&& forall|k: u32| #[trigger] h1.buffers().contains_key(k) ==> h1.buffers()[k] == h0.buffers()[k]
    &&& h1.error_responses() == 0
    &&& h1.sessions() == h0.sessions()
    &&& h1.connections() == h0.connections()
}

/// The edge case handler `h1` after the session `sid`, if any, was dropped from `h0`.
pub open spec fn terminated(h0: EdgeCaseHandler, h1: EdgeCaseHandler, sid: Option<SessionId>) -> bool {
    match sid {
        Some(s) => {
            &&& h1.sessions() == h0.sessions().remove(s.0)
            &&& h1.connections() == (if h0.sessions().contains_key(s.0) {
                vstd::wrapping::usize_specs::wrapping_sub(h0.connections(), 1)
            } else {
                h0.connections()
            })
            &&& h1.buffers() == h0.buffers()
        },
        None => h1 == h0,
    }
}

/// The edge case handler `h1` after the session `sid`, if any, was started afresh in `h0`.
pub open spec fn reset(h0: EdgeCaseHandler, h1: EdgeCaseHandler, sid: Option<SessionId>) -> bool {
    match sid {
        Some(s) => {
            &&& h1.sessions() == h0.sessions().remove(s.0).insert(s.0, fresh_session(s))
            &&& h1.connections() == vstd::wrapping::usize_specs::wrapping_add(
                if h0.sessions().contains_key(s.0) {
                    vstd::wrapping::usize_specs::wrapping_sub(h0.connections(), 1)
                } else {
                    h0.connections()
                },
                1,
            )
            &&& h1.buffers() == h0.buffers()
        },
        None => h1 == h0,
    }
}

/// The edge case handler `h1` after the recovery `action` was applied to `h0`
/// for an event of session `sid` at `now`.
pub open spec fn recovery_applied(
    h0: EdgeCaseHandler,
    h1: EdgeCaseHandler,
    action: Option<BoundaryConditionRecovery>,
    sid: Option<SessionId>,
    now: Timestamp,
) -> bool {
    match action {
        Some(BoundaryConditionRecovery::ResourceCleanup) => cleaned_up(h0, h1, now),
        Some(BoundaryConditionRecovery::ConnectionTermination) => terminated(h0, h1, sid),
        Some(BoundaryConditionRecovery::SessionReset) => reset(h0, h1, sid),
        _ => h1 == h0,
    }
}

/// The history after the events `es` were added to `h` in order.
pub open spec fn with_events(h: Seq<EventView>, es: Seq<EventView>) -> Seq<EventView>
    decreases es.len(),
{
    if es.len() == 0 {
        h
    } else {
        history_after(with_events(h, es.drop_last()), es.last())
    }
}

proof fn lemma_with_events_concat(h: Seq<EventView>, a: Seq<EventView>, b: Seq<EventView>)
    ensures
        with_events(h, a + b) == with_events(with_events(h, a), b),
    decreases b.len(),
{
    if b.len() > 0 {
        assert((a + b).drop_last() =~= a + b.drop_last());
        lemma_with_events_concat(h, a, b.drop_last());
    } else {
        assert(a + b =~= a);
    }
}

/// The memory condition met with `conn` connections under thresholds `t`, if any.
pub open spec fn memory_event(conn: usize, t: (u32, usize, usize, usize, usize), now: Timestamp) -> Seq<EventView> {
    let mem = conn * 1024;
    let context = "Memory usage: "@ + decimal(mem as nat) + " bytes"@;
    if mem >= t.2 {
        seq![(BoundaryConditionType::MemoryExhaustion, None, now, BoundaryConditionSeverity::Critical, context, Some(BoundaryConditionRecovery::GracefulDegradation))]
    } else if mem >= t.1 {
        seq![(BoundaryConditionType::MemoryExhaustion, None, now, BoundaryConditionSeverity::Warning, context, Some(BoundaryConditionRecovery::ResourceCleanup))]
    } else {
        Seq::empty()
    }
}

/// The connection condition met with `conn` connections under thresholds `t`, if any.
pub open spec fn connection_event(conn: usize, t: (u32, usize, usize, usize, usize), now: Timestamp) -> Seq<EventView> {
    let context = "Active connections: "@ + decimal(conn as nat);
    if conn >= t.4 {
        seq![(BoundaryConditionType::ConnectionLimitReached, None, now, BoundaryConditionSeverity::Critical, context, Some(BoundaryConditionRecovery::GracefulDegradation))]
    } else if conn >= t.3 {
        seq![(BoundaryConditionType::ConnectionLimitReached, None, now, BoundaryConditionSeverity::Warning, context, Some(BoundaryConditionRecovery::GracefulDegradation))]
    } else {
        Seq::empty()
    }
}

/// The conditions a resource check records, memory first.
pub open spec fn resource_events(conn: usize, t: (u32, usize, usize, usize, usize), now: Timestamp) -> Seq<EventView> {
    memory_event(conn, t, now) + connection_event(conn, t, now)
}

/// Seconds from `now` to the end of its 30-day month.
pub open spec fn month_seconds_left(now: Timestamp) -> nat {
    (2592000 - ((now.0 / 1_000_000_000) as nat % 2592000)) as nat
}

/// A copy of an event.
fn copy_event(e: &BoundaryConditionEvent) -> (r: BoundaryConditionEvent)
    ensures
        event_view(r) == event_view(*e),
{
    BoundaryConditionEvent {
        condition_type: e.condition_type,
        session_id: e.session_id,
        timestamp: e.timestamp,
        severity: e.severity,
        context: e.context.clone(),
        recovery_action: e.recovery_action,
    }
}

/// The manager `s1` and answer `r` after a boundary condition of kind
/// `condition_type` and severity `severity`, for the session `session_id`, with
/// `context`, was met at `now` by the manager `s0`.
pub open spec fn condition_outcome(
    s0: BoundaryConditionManager,
    s1: BoundaryConditionManager,
    condition_type: BoundaryConditionType,
    session_id: Option<SessionId>,
    severity: BoundaryConditionSeverity,
    context: Seq<char>,
    now: Timestamp,
    r: Result<(), BoundaryError>,
) -> bool {
    let action = recovery_for(condition_type, severity);
    let e = (condition_type, session_id, now, severity, context, action);
    let h0 = s0.handler();
    let h1 = s1.handler();
    let st0 = s0.spec_stats();
    let st1 = s1.spec_stats();
    &&& s1.history() == history_after(s0.history(), e)
    &&& s1.thresholds() == s0.thresholds()
    &&& st1.total_conditions_detected == plus_one(st0.total_conditions_detected)
    &&& count_table(st1.conditions_by_type) == counted(count_table(st0.conditions_by_type), type_code(condition_type))
    &&& count_table(st1.conditions_by_severity) == counted(count_table(st0.conditions_by_severity), severity_rank(severity))
    &&& st1.fatal_conditions == (if severity == BoundaryConditionSeverity::Fatal {
        plus_one(st0.fatal_conditions)
    } else {
        st0.fatal_conditions
    })
    &&& st1.successful_recoveries == (if action is Some && action != Some(BoundaryConditionRecovery::FatalError) {
        plus_one(st0.successful_recoveries)
    } else {
        st0.successful_recoveries
    })
    &&& st1.failed_recoveries == (if action == Some(BoundaryConditionRecovery::FatalError) {
        plus_one(st0.failed_recoveries)
    } else {
        st0.failed_recoveries
    })
    &&& recovery_applied(h0, h1, action, session_id, now)
    &&& (r is Err <==> action == Some(BoundaryConditionRecovery::FatalError))
    &&& r matches Err(BoundaryError::Internal(m)) ==> m@ == "Fatal boundary condition: "@ + condition_text(
        condition_type,
    ) + " - "@ + context
}

/// The kind and severity a refused timestamp is recorded with: a clock
/// synchronisation failure for a timestamp out of its window, and otherwise an
/// attack, a warning for a duplicate and critical for a replay.
pub open spec fn timestamp_condition(e: SecurityError) -> (BoundaryConditionType, BoundaryConditionSeverity) {
    match e {
        SecurityError::TimestampValidationFailed { .. } => (
            BoundaryConditionType::ClockSynchronizationFailure,
            BoundaryConditionSeverity::Error,
        ),
        SecurityError::DuplicatePacket { .. } => (
            BoundaryConditionType::AttackDetectionThreshold,
            BoundaryConditionSeverity::Warning,
        ),
        SecurityError::ReplayAttack { .. } => (
            BoundaryConditionType::AttackDetectionThreshold,
            BoundaryConditionSeverity::Critical,
        ),
        _ => (BoundaryConditionType::AttackDetectionThreshold, BoundaryConditionSeverity::Error),
    }
}

/// The kind an invalid packet structure is recorded with.
pub open spec fn structure_condition(e: ValidationError) -> BoundaryConditionType {
    match e {
        ValidationError::InvalidSequenceNumber => BoundaryConditionType::SequenceNumberWrapAround,
        _ => BoundaryConditionType::PacketSizeLimit,
    }
}

/// The kind an edge case is recorded with.
pub open spec fn edge_condition(e: EdgeCaseError) -> BoundaryConditionType {
    match e {
        EdgeCaseError::SequenceWraparoundNotReady => BoundaryConditionType::SequenceNumberWrapAround,
        EdgeCaseError::MemoryExhausted => BoundaryConditionType::MemoryExhaustion,
        _ => BoundaryConditionType::PacketSizeLimit,
    }
}

/// The size a packet announces: header and tag plus the payload length of its header.
pub open spec fn announced_size(p: Packet) -> nat {
    let h = packet_header(p);
    (h.spec_header_size() + spec_tag_size(h.hmac_policy) + h.payload_length.0) as nat
}

/// `s1` and `r` after a check failed at `now` and the manager `s0` met a
/// boundary condition of kind `t` and severity `severity` for `session_id`
/// with `context`: the condition's own failure when its recovery is fatal,
/// and otherwise an error that `fails_with` accepts.
pub open spec fn failed_check(
    s0: BoundaryConditionManager,
    s1: BoundaryConditionManager,
    t: BoundaryConditionType,
    session_id: Option<SessionId>,
    severity: BoundaryConditionSeverity,
    context: Seq<char>,
    now: Timestamp,
    r: Result<(), BoundaryError>,
    fails_with: spec_fn(BoundaryError) -> bool,
) -> bool {
    if recovery_for(t, severity) == Some(BoundaryConditionRecovery::FatalError) {
        condition_outcome(s0, s1, t, session_id, severity, context, now, r)
    } else {
        &&& condition_outcome(s0, s1, t, session_id, severity, context, now, Ok(()))
        &&& r matches Err(e) && fails_with(e)
    }
}

/// `s1` is `s0` after its edge case handler checked a packet.
pub open spec fn edge_checked(s0: BoundaryConditionManager, s1: BoundaryConditionManager) -> bool {
    &&& s1.history() == s0.history()
    &&& s1.thresholds() == s0.thresholds()
    &&& s1.spec_stats() == s0.spec_stats()
    &&& s1.handler().handled() == bump(s0.handler().handled())
    &&& s1.handler().same_but_handled(&s0.handler())
}

/// The manager `s1` and answer `r` after the manager `s0` checked packet `p` at
/// `now`, given the verdicts of the size check and of the timestamp and
/// session identifier checks. The first check that fails records its boundary
/// condition and decides the answer: the size, then the packet's structure
/// (which every packet passes), the timestamp, the session identifier, and
/// last the edge cases, which the handler counts whatever it finds.
pub open spec fn packet_checks_outcome(
    s0: BoundaryConditionManager,
    s1: BoundaryConditionManager,
    p: Packet,
    size_valid: bool,
    timestamp_check: Result<(), SecurityError>,
    session_check: Result<(), SecurityError>,
    now: Timestamp,
    r: Result<(), BoundaryError>,
) -> bool {
    let sid = Some(packet_header(p).session_id);
    let n = announced_size(p);
    if !size_valid {
        failed_check(
            s0,
            s1,
            BoundaryConditionType::PacketSizeLimit,
            sid,
            BoundaryConditionSeverity::Error,
            "Packet size "@ + decimal(n) + " outside valid range"@,
            now,
            r,
            |e: BoundaryError| e matches BoundaryError::Validation(m) && m@ == "Invalid packet size: "@ + decimal(n),
        )
    } else {
        match (timestamp_check, session_check) {
            (Err(se), _) => failed_check(
                s0,
                s1,
                timestamp_condition(se).0,
                sid,
                timestamp_condition(se).1,
                "Security validation failed: "@ + security_text(se),
                now,
                r,
                |e: BoundaryError| e == BoundaryError::Security(se),
            ),
            (Ok(()), Err(se)) => failed_check(
                s0,
                s1,
                BoundaryConditionType::SessionIdExhaustion,
                sid,
                BoundaryConditionSeverity::Error,
                "Session ID validation failed: "@ + security_text(se),
                now,
                r,
                |e: BoundaryError| e == BoundaryError::Security(se),
            ),
            (Ok(()), Ok(())) => edge_outcome(s0, s1, p, now, r),
        }
    }
}

/// The manager `s1` and answer `r` after the manager `s0` checked the edge
/// cases of packet `p` at `now`.
pub open spec fn edge_outcome(
    s0: BoundaryConditionManager,
    s1: BoundaryConditionManager,
    p: Packet,
    now: Timestamp,
    r: Result<(), BoundaryError>,
) -> bool {
    let sid = Some(packet_header(p).session_id);
    match packet_edge_error(s0.handler().sessions(), p) {
        None => edge_checked(s0, s1) && r == Ok::<(), BoundaryError>(()),
        Some(ee) => exists|mid: BoundaryConditionManager| #[trigger] edge_checked(s0, mid) && failed_check(
            mid,
            s1,
            edge_condition(ee),
            sid,
            BoundaryConditionSeverity::Error,
            "Edge case detected: "@ + edge_case_text(ee),
            now,
            r,
            |e: BoundaryError| e matches BoundaryError::Protocol(ProtocolError::InvalidFormat(m)) && m@ == edge_case_text(ee),
        ),
    }
}

/// Watches boundary conditions, keeps their history and statistics, and
/// applies their recoveries to the edge case handler.
pub struct BoundaryConditionManager {
    edge_case_handler: EdgeCaseHandler,
    event_history: Vec<BoundaryConditionEvent>,
    stats: BoundaryConditionStats,
    sequence_wrap_threshold: u32,
    memory_warning_threshold: usize,
    memory_critical_threshold: usize,
    connection_warning_threshold: usize,
    connection_critical_threshold: usize,
}

/// The manager `s1` after `s0` met, at `now`, the condition that `es` holds,
/// if any (a condition whose recovery succeeds), and otherwise `s0` itself.
pub open spec fn met_if_any(s0: BoundaryConditionManager, s1: BoundaryConditionManager, es: Seq<EventView>, now: Timestamp) -> bool {
    if es.len() == 0 {
        s1 == s0
    } else {
        condition_outcome(s0, s1, es[0].0, es[0].1, es[0].3, es[0].4, now, Ok(()))
    }
}

/// The manager `s1` and answer `r` after `s0` checked memory (estimated at
/// 1 KiB per connection) and then connections against their critical and
/// warning thresholds at `now`, meeting a condition for each threshold reached.
pub open spec fn resource_check_outcome(
    s0: BoundaryConditionManager,
    s1: BoundaryConditionManager,
    now: Timestamp,
    r: Result<(), BoundaryError>,
) -> bool {
    let conn = s0.handler().connections();
    &&& r is Ok
    &&& exists|mid: BoundaryConditionManager|
        #[trigger] met_if_any(s0, mid, memory_event(conn, s0.thresholds(), now), now)
            && met_if_any(mid, s1, connection_event(conn, s0.thresholds(), now), now)
    &&& s1.history() =~= with_events(s0.history(), resource_events(conn, s0.thresholds(), now))
}

/// The manager `s1` and answer `r` after `s0` checked, at `now`, a sequence
/// number of session `session_id`: at or above the wrap-around threshold a
/// warning is met, which resets the session; below it nothing changes.
pub open spec fn wraparound_check_outcome(
    s0: BoundaryConditionManager,
    s1: BoundaryConditionManager,
    session_id: SessionId,
    sequence_number: SequenceNumber,
    now: Timestamp,
    r: Result<(), BoundaryError>,
) -> bool {
    &&& r is Ok
    &&& if sequence_number.0 >= s0.thresholds().0 {
        condition_outcome(
            s0,
            s1,
            BoundaryConditionType::SequenceNumberWrapAround,
            Some(session_id),
            BoundaryConditionSeverity::Warning,
            "Sequence number "@ + decimal(sequence_number.0 as nat) + " approaching wraparound"@,
            now,
            Ok(()),
        )
    } else {
        s1 == s0
    }
}

/// The manager `s1` and answer `r` after `s0` checked the month boundary at
/// `now`: with an hour or less left in the 30-day month a warning is met;
/// otherwise nothing changes.
pub open spec fn time_check_outcome(
    s0: BoundaryConditionManager,
    s1: BoundaryConditionManager,
    now: Timestamp,
    r: Result<(), BoundaryError>,
) -> bool {
    let left = month_seconds_left(now);
    &&& r is Ok
    &&& if left <= 3600 {
        condition_outcome(
            s0,
            s1,
            BoundaryConditionType::MonthBoundaryTransition,
            None,
            BoundaryConditionSeverity::Warning,
            "Month boundary in "@ + decimal(left) + " seconds"@,
            now,
            Ok(()),
        )
    } else {
        s1 == s0
    }
}

/// The manager `s1` after `s0` swept its edge case handler at `now` and, past
/// 5000 events, dropped the oldest thousand.
pub open spec fn maintenance_outcome(
    s0: BoundaryConditionManager,
    s1: BoundaryConditionManager,
    now: Timestamp,
) -> bool {
    &&& cleaned_up(s0.handler(), s1.handler(), now)
    &&& s1.history() =~= (if s0.history().len() > 5000 {
        s0.history().subrange(1000, s0.history().len() as int)
    } else {
        s0.history()
    })
    &&& s1.thresholds() == s0.thresholds()
    &&& s1.spec_stats() == s0.spec_stats()
}

impl BoundaryConditionManager {
    pub closed spec fn handler(&self) -> EdgeCaseHandler {
        self.edge_case_handler
    }

    /// The events kept, oldest first.
    pub closed spec fn history(&self) -> Seq<EventView> {
        self.event_history@.map_values(|e: BoundaryConditionEvent| event_view(e))
    }

    pub closed spec fn spec_stats(&self) -> BoundaryConditionStats {
        self.stats
    }

    /// The sequence wrap-around threshold and the memory and connection
    /// warning and critical thresholds.
    pub closed spec fn thresholds(&self) -> (u32, usize, usize, usize, usize) {
        (
            self.sequence_wrap_threshold,
            self.memory_warning_threshold,
            self.memory_critical_threshold,
            self.connection_warning_threshold,
            self.connection_critical_threshold,
        )
    }

    /// A fresh edge case handler, no history, nothing counted; wrap-around
    /// watched from half the sequence space, memory warnings at 8 MiB and
    /// critical at 16 MiB, connections at 8000 and 9000.
    pub fn new() -> (r: BoundaryConditionManager)
        ensures
            r.history().len() == 0,
            r.thresholds() == (0x8000_0000u32, 8388608usize, 16777216usize, 8000usize, 9000usize),
            r.handler().sessions().is_empty(),
            r.handler().connections() == 0,
    {
        BoundaryConditionManager {
            edge_case_handler: EdgeCaseHandler::new(),
            event_history: Vec::new(),
            stats: BoundaryConditionStats::new(),
            sequence_wrap_threshold: crate::edge_cases::EdgeCaseConstants::SEQUENCE_WRAP_THRESHOLD,
            memory_warning_threshold: crate::edge_cases::EdgeCaseConstants::MIN_REQUIRED_MEMORY * 8,
            memory_critical_threshold: crate::edge_cases::EdgeCaseConstants::MIN_REQUIRED_MEMORY * 16,
            connection_warning_threshold: crate::edge_cases::EdgeCaseConstants::MAX_CONCURRENT_CONNECTIONS * 8 / 10,
            connection_critical_threshold: crate::edge_cases::EdgeCaseConstants::MAX_CONCURRENT_CONNECTIONS * 9 / 10,
        }
    }

    /// The recovery chosen for a kind and severity.
    fn determine_recovery_action(&self, condition_type: BoundaryConditionType, severity: BoundaryConditionSeverity) -> (r: Option<BoundaryConditionRecovery>)
        ensures
            r == recovery_for(condition_type, severity),
    {
        match (condition_type, severity) {
            (BoundaryConditionType::MemoryExhaustion, BoundaryConditionSeverity::Warning) => Some(BoundaryConditionRecovery::ResourceCleanup),
            (BoundaryConditionType::MemoryExhaustion, BoundaryConditionSeverity::Critical) => Some(BoundaryConditionRecovery::GracefulDegradation),
            (BoundaryConditionType::MemoryExhaustion, BoundaryConditionSeverity::Fatal) => Some(BoundaryConditionRecovery::FatalError),
            (BoundaryConditionType::ConnectionLimitReached, _) => Some(BoundaryConditionRecovery::GracefulDegradation),
            (BoundaryConditionType::AttackDetectionThreshold, BoundaryConditionSeverity::Critical) => Some(BoundaryConditionRecovery::SecurityResponse),
            (BoundaryConditionType::SequenceNumberWrapAround, _) => Some(BoundaryConditionRecovery::SessionReset),
            (BoundaryConditionType::MonthBoundaryTransition, _) => Some(BoundaryConditionRecovery::GracefulDegradation),
            (_, BoundaryConditionSeverity::Fatal) => Some(BoundaryConditionRecovery::FatalError),
            _ => None,
        }
    }

    /// Records a boundary condition met at `now` and applies its recovery: the
    /// event joins the history, the statistics count it and the recovery's
    /// outcome, and a fatal recovery of a critical or fatal condition fails.
    pub fn handle_boundary_condition_at(
        &mut self,
        condition_type: BoundaryConditionType,
        session_id: Option<SessionId>,
        severity: BoundaryConditionSeverity,
        context: String,
        now: Timestamp,
    ) -> (r: Result<(), BoundaryError>)
        ensures
            condition_outcome(*old(self), *final(self), condition_type, session_id, severity, context@, now, r),
    {
        let recovery_action = self.determine_recovery_action(condition_type, severity);
        let event = BoundaryConditionEvent {
            condition_type,
            session_id,
            timestamp: now,
            severity,
            context,
            recovery_action,
        };
        self.stats.record_condition(condition_type, severity);
        let copy = copy_event(&event);
        let ghost before = self.history();
        self.event_history.push(copy);
        proof {
            assert(self.history() =~= before.push(event_view(event)));
        }
        if self.event_history.len() > 10000 {
            self.drop_oldest_events(1000);
        }
        if let Some(recovery) = recovery_action {
            match self.execute_recovery_action(&event, recovery, now) {
                Ok(()) => {
                    self.stats.record_recovery_success();
                },
                Err(e) => {
                    self.stats.record_recovery_failure();
                    if severity.rank() >= 3 {
                        return Err(e);
                    }
                },
            }
        }
        Ok(())
    }

    /// Records a boundary condition met now, as `handle_boundary_condition_at` does.
    pub fn handle_boundary_condition(
        &mut self,
        condition_type: BoundaryConditionType,
        session_id: Option<SessionId>,
        severity: BoundaryConditionSeverity,
        context: String,
    ) -> (r: Result<(), BoundaryError>)
        ensures
            exists|now: Timestamp|
                condition_outcome(*old(self), *final(self), condition_type, session_id, severity, context@, now, r),
    {
        let now = Timestamp::now();
        self.handle_boundary_condition_at(condition_type, session_id, severity, context, now)
    }

    /// Checks a packet at `now` (see `packet_checks_outcome`), given the
    /// verdicts of the size check and of the timestamp and session identifier
    /// checks.
    pub fn validate_packet_with_boundary_checks_at(
        &mut self,
        packet: &Packet,
        _source_ip: IpAddress,
        size_valid: bool,
        timestamp_check: Result<(), SecurityError>,
        session_check: Result<(), SecurityError>,
        now: Timestamp,
    ) -> (r: Result<(), BoundaryError>)
        ensures
            packet_checks_outcome(*old(self), *final(self), *packet, size_valid, timestamp_check, session_check, now, r),
    {
        let packet_size = packet.total_size();
        let session = Some(packet.session_id());
        if !size_valid {
            let context = with_decimal("Packet size ", packet_size as u64).concat(" outside valid range");
            match self.handle_boundary_condition_at(
                BoundaryConditionType::PacketSizeLimit,
                session,
                BoundaryConditionSeverity::Error,
                context,
                now,
            ) {
                Err(e) => return Err(e),
                Ok(()) => {},
            }
            return Err(BoundaryError::Validation(with_decimal("Invalid packet size: ", packet_size as u64)));
        }
        if let Err(validation_error) = packet.validate() {
            let boundary_type = match &validation_error {
                ValidationError::InvalidLength | ValidationError::BufferTooSmall => BoundaryConditionType::PacketSizeLimit,
                ValidationError::InvalidSequenceNumber => BoundaryConditionType::SequenceNumberWrapAround,
                _ => BoundaryConditionType::PacketSizeLimit,
            };
            let context = "Packet validation failed: ".to_owned().concat(validation_error.description().as_str());
            match self.handle_boundary_condition_at(boundary_type, session, BoundaryConditionSeverity::Error, context, now) {
                Err(e) => return Err(e),
                Ok(()) => {},
            }
            return Err(BoundaryError::Validation(validation_error.description()));
        }
        if let Err(security_error) = timestamp_check {
            let (boundary_type, severity) = match &security_error {
                SecurityError::TimestampValidationFailed { .. } => (
                    BoundaryConditionType::ClockSynchronizationFailure,
                    BoundaryConditionSeverity::Error,
                ),
                SecurityError::DuplicatePacket { .. } => (
                    BoundaryConditionType::AttackDetectionThreshold,
                    BoundaryConditionSeverity::Warning,
                ),
                SecurityError::ReplayAttack { .. } => (
                    BoundaryConditionType::AttackDetectionThreshold,
                    BoundaryConditionSeverity::Critical,
                ),
                _ => (BoundaryConditionType::AttackDetectionThreshold, BoundaryConditionSeverity::Error),
            };
            let context = "Security validation failed: ".to_owned().concat(security_error.description().as_str());
            match self.handle_boundary_condition_at(boundary_type, session, severity, context, now) {
                Err(e) => return Err(e),
                Ok(()) => {},
            }
            return Err(BoundaryError::Security(security_error));
        }
        if let Err(security_error) = session_check {
            let context = "Session ID validation failed: ".to_owned().concat(security_error.description().as_str());
            match self.handle_boundary_condition_at(
                BoundaryConditionType::SessionIdExhaustion,
                session,
                BoundaryConditionSeverity::Error,
                context,
                now,
            ) {
                Err(e) => return Err(e),
                Ok(()) => {},
            }
            return Err(BoundaryError::Security(security_error));
        }
        let ghost s0 = *self;
        let edge = self.edge_case_handler.handle_packet_edge_cases(packet);
        let ghost mid = *self;
        proof {
            assert(edge_checked(s0, mid));
        }
        if let Err(edge_case_error) = edge {
            let boundary_type = match edge_case_error {
                EdgeCaseError::SequenceWraparoundNotReady => BoundaryConditionType::SequenceNumberWrapAround,
                EdgeCaseError::PayloadTooLarge => BoundaryConditionType::PacketSizeLimit,
                EdgeCaseError::MemoryExhausted => BoundaryConditionType::MemoryExhaustion,
                _ => BoundaryConditionType::PacketSizeLimit,
            };
            let context = "Edge case detected: ".to_owned().concat(edge_case_error.description());
            match self.handle_boundary_condition_at(boundary_type, session, BoundaryConditionSeverity::Error, context, now) {
                Err(e) => return Err(e),
                Ok(()) => {},
            }
            return Err(BoundaryError::Protocol(ProtocolError::InvalidFormat(edge_case_error.description().to_owned())));
        }
        Ok(())
    }

    /// Checks a packet at the current time (see `packet_checks_outcome`).
    pub fn validate_packet_with_boundary_checks(
        &mut self,
        packet: &Packet,
        source_ip: IpAddress,
        size_valid: bool,
        timestamp_check: Result<(), SecurityError>,
        session_check: Result<(), SecurityError>,
    ) -> (r: Result<(), BoundaryError>)
        ensures
            exists|now: Timestamp| packet_checks_outcome(
                *old(self),
                *final(self),
                *packet,
                size_valid,
                timestamp_check,
                session_check,
                now,
                r,
            ),
    {
        let now = Timestamp::now();
        self.validate_packet_with_boundary_checks_at(packet, source_ip, size_valid, timestamp_check, session_check, now)
    }

    /// Drops the `count` oldest events.
    fn drop_oldest_events(&mut self, count: usize)
        requires
            count <= old(self).history().len(),
        ensures
            final(self).history() == old(self).history().subrange(count as int, old(self).history().len() as int),
            final(self).handler() == old(self).handler(),
            final(self).spec_stats() == old(self).spec_stats(),
            final(self).thresholds() == old(self).thresholds(),
    {
        let ghost h = self.history();
        let mut k: usize = 0;
        while k < count
            invariant
                k <= count,
                count <= h.len(),
                self.history() == h.subrange(k as int, h.len() as int),
                self.event_history@.len() == h.len() - k,
                self.edge_case_handler == old(self).edge_case_handler,
                self.stats == old(self).stats,
                self.thresholds() == old(self).thresholds(),
            decreases count - k,
        {
            let ghost before = self.event_history@;
            let ghost before_view = self.history();
            self.event_history.remove(0);
            proof {
                assert(self.event_history@ =~= before.subrange(1, before.len() as int));
                assert(self.history() =~= before_view.subrange(1, before_view.len() as int));
                assert(self.history() =~= h.subrange(k + 1, h.len() as int));
            }
            k = k + 1;
        }
    }

    /// Applies a recovery: cleanup sweeps the edge case handler at `now`,
    /// termination drops the event's session, a reset starts it afresh, a
    /// fatal error fails; the other recoveries need no action here.
    fn execute_recovery_action(&mut self, event: &BoundaryConditionEvent, recovery: BoundaryConditionRecovery, now: Timestamp) -> (r: Result<(), BoundaryError>)
        ensures
            recovery_applied(old(self).handler(), final(self).handler(), Some(recovery), event.session_id, now),
            r is Err <==> recovery == BoundaryConditionRecovery::FatalError,
            r matches Err(BoundaryError::Internal(m)) ==> m@ == "Fatal boundary condition: "@ + condition_text(
                event.condition_type,
            ) + " - "@ + event.context@,
            final(self).history() == old(self).history(),
            final(self).spec_stats() == old(self).spec_stats(),
            final(self).thresholds() == old(self).thresholds(),
    {
        match recovery {
            BoundaryConditionRecovery::GracefulDegradation => self.execute_graceful_degradation(event),
            BoundaryConditionRecovery::ResourceCleanup => self.execute_resource_cleanup(event, now),
            BoundaryConditionRecovery::ConnectionTermination => self.execute_connection_termination(event),
            BoundaryConditionRecovery::SessionReset => self.execute_session_reset(event),
            BoundaryConditionRecovery::SecurityResponse => self.execute_security_response(event),
            BoundaryConditionRecovery::FatalError => {
                proof {
                    reveal_strlit("Fatal boundary condition: ");
                    reveal_strlit(" - ");
                }
                let message = "Fatal boundary condition: ".to_owned().concat(event.condition_type.description()).concat(" - ").concat(
                    event.context.as_str(),
                );
                Err(BoundaryError::Internal(message))
            },
            _ => Ok(()),
        }
    }

    fn execute_graceful_degradation(&mut self, event: &BoundaryConditionEvent) -> (r: Result<(), BoundaryError>)
        ensures
            r is Ok,
            final(self).handler() == old(self).handler(),
            final(self).history() == old(self).history(),
            final(self).spec_stats() == old(self).spec_stats(),
            final(self).thresholds() == old(self).thresholds(),
    {
        Ok(())
    }

    fn execute_resource_cleanup(&mut self, event: &BoundaryConditionEvent, now: Timestamp) -> (r: Result<(), BoundaryError>)
        ensures
            r is Ok,
            cleaned_up(old(self).handler(), final(self).handler(), now),
            final(self).history() == old(self).history(),
            final(self).spec_stats() == old(self).spec_stats(),
            final(self).thresholds() == old(self).thresholds(),
    {
        self.edge_case_handler.cleanup_expired_entries_at(now.as_millis());
        Ok(())
    }

    fn execute_connection_termination(&mut self, event: &BoundaryConditionEvent) -> (r: Result<(), BoundaryError>)
        ensures
            r is Ok,
            terminated(old(self).handler(), final(self).handler(), event.session_id),
            final(self).history() == old(self).history(),
            final(self).spec_stats() == old(self).spec_stats(),
            final(self).thresholds() == old(self).thresholds(),
    {
        if let Some(session_id) = event.session_id {
            self.edge_case_handler.remove_session(session_id);
        }
        Ok(())
    }

    fn execute_session_reset(&mut self, event: &BoundaryConditionEvent) -> (r: Result<(), BoundaryError>)
        ensures
            r is Ok,
            reset(old(self).handler(), final(self).handler(), event.session_id),
            final(self).history() == old(self).history(),
            final(self).spec_stats() == old(self).spec_stats(),
            final(self).thresholds() == old(self).thresholds(),
    {
        if let Some(session_id) = event.session_id {
            self.edge_case_handler.remove_session(session_id);
            self.edge_case_handler.add_session(session_id);
        }
        Ok(())
    }

    fn execute_security_response(&mut self, event: &BoundaryConditionEvent) -> (r: Result<(), BoundaryError>)
        ensures
            r is Ok,
            final(self).handler() == old(self).handler(),
            final(self).history() == old(self).history(),
            final(self).spec_stats() == old(self).spec_stats(),
            final(self).thresholds() == old(self).thresholds(),
    {
        Ok(())
    }

    /// Checks memory (estimated at 1 KiB per connection) and connections
    /// against their critical and warning thresholds at `now`, recording a
    /// condition for each threshold reached.
    pub fn check_resource_boundaries_at(&mut self, now: Timestamp) -> (r: Result<(), BoundaryError>)
        requires
            old(self).handler().connections() * 1024 <= usize::MAX,
        ensures
            resource_check_outcome(*old(self), *final(self), now, r),
    {
        let memory_usage = self.edge_case_handler.get_active_connections() * 1024;
        let ghost h0 = self.history();
        let ghost t = self.thresholds();
        let ghost conn = self.handler().connections();
        proof {
            reveal_strlit("Memory usage: ");
            reveal_strlit(" bytes");
            reveal_strlit("Active connections: ");
        }
        if memory_usage >= self.memory_critical_threshold {
            let context = with_decimal("Memory usage: ", memory_usage as u64).concat(" bytes");
            match self.handle_boundary_condition_at(BoundaryConditionType::MemoryExhaustion, None, BoundaryConditionSeverity::Critical, context, now) {
                Ok(()) => {},
                Err(e) => return Err(e),
            }
        } else if memory_usage >= self.memory_warning_threshold {
            let context = with_decimal("Memory usage: ", memory_usage as u64).concat(" bytes");
            match self.handle_boundary_condition_at(BoundaryConditionType::MemoryExhaustion, None, BoundaryConditionSeverity::Warning, context, now) {
                Ok(()) => {},
                Err(e) => return Err(e),
            }
        }
        let ghost h1 = self.history();
        let ghost mid = *self;
        proof {
            let me = memory_event(conn, t, now);
            if me.len() == 1 {
                assert(me.drop_last() =~= Seq::<EventView>::empty());
                assert(with_events(h0, me.drop_last()) == h0);
            } else {
                assert(me =~= Seq::<EventView>::empty());
            }
            assert(h1 == with_events(h0, me));
        }
        let connection_count = self.edge_case_handler.get_active_connections();
        if connection_count >= self.connection_critical_threshold {
            let context = with_decimal("Active connections: ", connection_count as u64);
            match self.handle_boundary_condition_at(BoundaryConditionType::ConnectionLimitReached, None, BoundaryConditionSeverity::Critical, context, now) {
                Ok(()) => {},
                Err(e) => return Err(e),
            }
        } else if connection_count >= self.connection_warning_threshold {
            let context = with_decimal("Active connections: ", connection_count as u64);
            match self.handle_boundary_condition_at(BoundaryConditionType::ConnectionLimitReached, None, BoundaryConditionSeverity::Warning, context, now) {
                Ok(()) => {},
                Err(e) => return Err(e),
            }
        }
        proof {
            let es = resource_events(conn, t, now);
            let ce = connection_event(conn, t, now);
            if ce.len() == 1 {
                assert(ce.drop_last() =~= Seq::<EventView>::empty());
                assert(with_events(h1, ce.drop_last()) == h1);
            } else {
                assert(ce =~= Seq::<EventView>::empty());
            }
            assert(self.history() == with_events(h1, ce));
            assert(with_events(h0, es) == self.history()) by {
                let me = memory_event(conn, t, now);
                let ce = connection_event(conn, t, now);
                assert(es == me + ce);
                lemma_with_events_concat(h0, me, ce);
            }
        }
        proof {
            assert(met_if_any(*old(self), mid, memory_event(conn, t, now), now));
            assert(met_if_any(mid, *self, connection_event(conn, t, now), now));
        }
        Ok(())
    }

    /// Checks resources now, as `check_resource_boundaries_at` does.
    pub fn check_resource_boundaries(&mut self) -> (r: Result<(), BoundaryError>)
        requires
            old(self).handler().connections() * 1024 <= usize::MAX,
        ensures
            r is Ok,
            exists|now: Timestamp| resource_check_outcome(*old(self), *final(self), now, r),
    {
        let now = Timestamp::now();
        self.check_resource_boundaries_at(now)
    }

    /// Records, at `now`, a warning of sequence wrap-around for a sequence
    /// number at or above the threshold, which resets the session.
    pub fn check_sequence_wraparound_at(&mut self, session_id: SessionId, sequence_number: SequenceNumber, now: Timestamp) -> (r: Result<(), BoundaryError>)
        ensures
            wraparound_check_outcome(*old(self), *final(self), session_id, sequence_number, now, r),
    {
        let threshold = self.sequence_wrap_threshold;
        if sequence_number.as_u32() >= threshold {
            proof {
                reveal_strlit("Sequence number ");
                reveal_strlit(" approaching wraparound");
            }
            let context = with_decimal("Sequence number ", sequence_number.as_u32() as u64).concat(" approaching wraparound");
            match self.handle_boundary_condition_at(
                BoundaryConditionType::SequenceNumberWrapAround,
                Some(session_id),
                BoundaryConditionSeverity::Warning,
                context,
                now,
            ) {
                Ok(()) => {},
                Err(e) => return Err(e),
            }
        }
        Ok(())
    }

    /// Checks the sequence number now, as `check_sequence_wraparound_at` does.
    pub fn check_sequence_wraparound(&mut self, session_id: SessionId, sequence_number: SequenceNumber) -> (r: Result<(), BoundaryError>)
        ensures
            r is Ok,
            exists|now: Timestamp| wraparound_check_outcome(*old(self), *final(self), session_id, sequence_number, now, r),
    {
        let now = Timestamp::now();
        self.check_sequence_wraparound_at(session_id, sequence_number, now)
    }

    /// Records, at `now`, a warning when the end of the current 30-day month
    /// is an hour away or less.
    pub fn check_time_boundaries_at(&mut self, now: Timestamp) -> (r: Result<(), BoundaryError>)
        ensures
            time_check_outcome(*old(self), *final(self), now, r),
    {
        let current_time = now.as_u64() / 1_000_000_000;
        let seconds_in_month: u64 = 30 * 24 * 60 * 60;
        let seconds_until_month_end = seconds_in_month - (current_time % seconds_in_month);
        if seconds_until_month_end <= 3600 {
            proof {
                reveal_strlit("Month boundary in ");
                reveal_strlit(" seconds");
            }
            let context = with_decimal("Month boundary in ", seconds_until_month_end).concat(" seconds");
            match self.handle_boundary_condition_at(BoundaryConditionType::MonthBoundaryTransition, None, BoundaryConditionSeverity::Warning, context, now) {
                Ok(()) => {},
                Err(e) => return Err(e),
            }
        }
        Ok(())
    }

    /// Checks the month boundary now, as `check_time_boundaries_at` does.
    pub fn check_time_boundaries(&mut self) -> (r: Result<(), BoundaryError>)
        ensures
            r is Ok,
            exists|now: Timestamp| time_check_outcome(*old(self), *final(self), now, r),
    {
        let now = Timestamp::now();
        self.check_time_boundaries_at(now)
    }

    pub fn get_stats(&self) -> (r: &BoundaryConditionStats)
        ensures
            *r == self.spec_stats(),
    {
        &self.stats
    }

    /// Copies of the last `limit` events, oldest first (all when there are fewer).
    pub fn get_recent_events(&self, limit: usize) -> (r: Vec<BoundaryConditionEvent>)
        ensures
            r@.map_values(|e: BoundaryConditionEvent| event_view(e)) == self.history().subrange(
                if self.history().len() > limit { self.history().len() - limit } else { 0 },
                self.history().len() as int,
            ),
    {
        let len = self.event_history.len();
        let start = if len > limit { len - limit } else { 0 };
        let mut out: Vec<BoundaryConditionEvent> = Vec::new();
        let mut i: usize = start;
        while i < len
            invariant
                start <= i <= len,
                len == self.event_history@.len(),
                self.history().len() == len,
                out@.map_values(|e: BoundaryConditionEvent| event_view(e)) == self.history().subrange(start as int, i as int),
            decreases len - i,
        {
            let ghost before = out@.map_values(|e: BoundaryConditionEvent| event_view(e));
            out.push(copy_event(&self.event_history[i]));
            proof {
                assert(out@.map_values(|e: BoundaryConditionEvent| event_view(e)) =~= before.push(self.history()[i as int]));
                assert(self.history().subrange(start as int, i + 1) =~= self.history().subrange(start as int, i as int).push(self.history()[i as int]));
            }
            i = i + 1;
        }
        out
    }

    /// Sets the memory thresholds, in bytes.
    pub fn set_memory_thresholds(&mut self, warning: usize, critical: usize)
        ensures
            final(self).thresholds() == (old(self).thresholds().0, warning, critical, old(self).thresholds().3, old(self).thresholds().4),
            final(self).history() == old(self).history(),
            final(self).handler() == old(self).handler(),
    {
        self.memory_warning_threshold = warning;
        self.memory_critical_threshold = critical;
    }

    pub fn set_connection_thresholds(&mut self, warning: ConnectionCount, critical: ConnectionCount)
        ensures
            final(self).thresholds() == (
                old(self).thresholds().0,
                old(self).thresholds().1,
                old(self).thresholds().2,
                warning.0 as usize,
                critical.0 as usize,
            ),
            final(self).history() == old(self).history(),
            final(self).handler() == old(self).handler(),
    {
        self.connection_warning_threshold = warning.as_u32() as usize;
        self.connection_critical_threshold = critical.as_u32() as usize;
    }

    pub fn set_sequence_wrap_threshold(&mut self, threshold: SequenceNumber)
        ensures
            final(self).thresholds() == (
                threshold.0,
                old(self).thresholds().1,
                old(self).thresholds().2,
                old(self).thresholds().3,
                old(self).thresholds().4,
            ),
            final(self).history() == old(self).history(),
            final(self).handler() == old(self).handler(),
    {
        self.sequence_wrap_threshold = threshold.as_u32();
    }

    /// Sweeps the edge case handler at `now` and, past 5000 events, drops the
    /// oldest thousand.
    pub fn cleanup_and_maintenance_at(&mut self, now: Timestamp)
        ensures
            maintenance_outcome(*old(self), *final(self), now),
    {
        self.edge_case_handler.cleanup_expired_entries_at(now.as_millis());
        if self.event_history.len() > 5000 {
            self.drop_oldest_events(1000);
        }
    }

    /// The same maintenance now.
    pub fn cleanup_and_maintenance(&mut self)
        ensures
            final(self).thresholds() == old(self).thresholds(),
            exists|now: Timestamp| maintenance_outcome(*old(self), *final(self), now),
    {
        let now = Timestamp::now();
        self.cleanup_and_maintenance_at(now);
    }
}


impl Default for BoundaryConditionManager {
    /// The same manager as `new` gives.
    fn default() -> (r: BoundaryConditionManager)
        ensures
            r.history().len() == 0,
    {
        BoundaryConditionManager::new()
    }
}

} // verus!
