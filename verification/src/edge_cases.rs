//! Edge cases of packet processing, fragmentation, time synchronization, flow
//! control, recovery, connection management, resources, security and error
//! handling, with the per-session state they read.
use vstd::prelude::*;
use std::collections::HashMap;
use dashmap::DashMap;
use crate::codec::read_bytes;
use crate::packet::structures::{packet_header, Packet};
use crate::types::{ConnectionState, PacketFlags, PacketType};
use crate::values::{FragmentCount, FragmentId, FragmentTimeout, SequenceNumber, SessionId, Timestamp};

verus! {

broadcast use vstd::std_specs::hash::group_hash_axioms;

/// A concurrent map of the dashmap crate.
#[verifier::external_type_specification]
#[verifier::external_body]
#[verifier::reject_recursive_types(K)]
#[verifier::reject_recursive_types(V)]
#[verifier::reject_recursive_types(S)]
pub struct ExDashMap<K, V, S>(DashMap<K, V, S>);

/// Why an edge case refused an operation.
#[derive(Clone, Copy, Debug, PartialEq, Eq)]
pub enum EdgeCaseError {
    InvalidVersion,
    UnsupportedVersion,
    InvalidPacketType,
    UnknownPacketType,
    InvalidSubType,
    PayloadTooLarge,
    EmptyDataPacket,
    InvalidSessionId,
    SequenceWraparoundNotReady,
    PacketTooShort,
    PayloadLengthMismatch,
    ReservedFieldsNotZero,
    InvalidFlagCombination,
    FragmentIndexOutOfBounds,
    TooManyFragments,
    FragmentIdCollision,
    FragmentDataMismatch,
    EmptyFinalFragment,
    FragmentTimeout,
    MemoryExhausted,
    ClockRegressionDetected,
    ConnectionTerminate,
    DstTransition,
    LeapSecondActive,
    WindowDeadlock,
    WindowUpdateTimeout,
    RecoveryInProgress,
    RecoveryDuringTermination,
    SessionUnrecoverable,
    RecoveryAttemptsExhausted,
    CriticalOperationInterrupted,
    PortRangeExhausted,
    NoAvailablePorts,
    SimultaneousConnection,
    SessionIdCollision,
    SystemShuttingDown,
    VersionTooOld,
    VersionTooNew,
    ConnectionStateCorruption,
    ConnectionLimitExceeded,
    SendBufferOverflow,
    ReceiveBufferOverflow,
    ResourceExhausted,
    BufferFull,
    BufferEmpty,
    TimestampAttackDetected,
    RateLimited,
    SequencePredictionAttack,
    PortEnumerationDetected,
    InvalidCryptoParameters,
    AuthLockout,
    ErrorLoop,
    UnknownError,
    ErrorProcessingTimeout,
    CascadingErrors,
    LogBufferOverflow,
    LogFilesystemFull,
}

/// The human-readable text of a value of `EdgeCaseError`.
pub open spec fn edge_case_text(v: EdgeCaseError) -> Seq<char> {
    match v {
        EdgeCaseError::InvalidVersion => "Invalid protocol version"@,
        EdgeCaseError::UnsupportedVersion => "Unsupported protocol version"@,
        EdgeCaseError::InvalidPacketType => "Invalid packet type"@,
        EdgeCaseError::UnknownPacketType => "Unknown packet type"@,
        EdgeCaseError::InvalidSubType => "Invalid sub-type for packet type"@,
        EdgeCaseError::PayloadTooLarge => "Payload too large"@,
        EdgeCaseError::EmptyDataPacket => "DATA packets must have payload"@,
        EdgeCaseError::InvalidSessionId => "Invalid session ID for packet type"@,
        EdgeCaseError::SequenceWraparoundNotReady => "Sequence wraparound not ready"@,
        EdgeCaseError::PacketTooShort => "Packet too short to contain header"@,
        EdgeCaseError::PayloadLengthMismatch => "Payload length mismatch"@,
        EdgeCaseError::ReservedFieldsNotZero => "Reserved fields must be zero"@,
        EdgeCaseError::InvalidFlagCombination => "Invalid flag combination"@,
        EdgeCaseError::FragmentIndexOutOfBounds => "Fragment index out of bounds"@,
        EdgeCaseError::TooManyFragments => "Too many fragments"@,
        EdgeCaseError::FragmentIdCollision => "Fragment ID collision"@,
        EdgeCaseError::FragmentDataMismatch => "Fragment data mismatch"@,
        EdgeCaseError::EmptyFinalFragment => "Empty final fragment"@,
        EdgeCaseError::FragmentTimeout => "Fragment timeout"@,
        EdgeCaseError::MemoryExhausted => "Memory exhausted"@,
        EdgeCaseError::ClockRegressionDetected => "Clock regression detected"@,
        EdgeCaseError::ConnectionTerminate => "Connection must terminate"@,
        EdgeCaseError::DstTransition => "Daylight saving time transition"@,
        EdgeCaseError::LeapSecondActive => "Leap second active"@,
        EdgeCaseError::WindowDeadlock => "Window deadlock detected"@,
        EdgeCaseError::WindowUpdateTimeout => "Window update timeout"@,
        EdgeCaseError::RecoveryInProgress => "Recovery already in progress"@,
        EdgeCaseError::RecoveryDuringTermination => "Recovery during termination"@,
        EdgeCaseError::SessionUnrecoverable => "Session unrecoverable"@,
        EdgeCaseError::RecoveryAttemptsExhausted => "Recovery attempts exhausted"@,
        EdgeCaseError::CriticalOperationInterrupted => "Critical operation interrupted"@,
        EdgeCaseError::PortRangeExhausted => "Port range exhausted"@,
        EdgeCaseError::NoAvailablePorts => "No available ports"@,
        EdgeCaseError::SimultaneousConnection => "Simultaneous connection detected"@,
        EdgeCaseError::SessionIdCollision => "Session ID collision"@,
        EdgeCaseError::SystemShuttingDown => "System shutting down"@,
        EdgeCaseError::VersionTooOld => "Protocol version too old"@,
        EdgeCaseError::VersionTooNew => "Protocol version too new"@,
        EdgeCaseError::ConnectionStateCorruption => "Connection state corruption"@,
        EdgeCaseError::ConnectionLimitExceeded => "Connection limit exceeded"@,
        EdgeCaseError::SendBufferOverflow => "Send buffer overflow"@,
        EdgeCaseError::ReceiveBufferOverflow => "Receive buffer overflow"@,
        EdgeCaseError::ResourceExhausted => "Resource exhausted"@,
        EdgeCaseError::BufferFull => "Buffer full"@,
        EdgeCaseError::BufferEmpty => "Buffer empty"@,
        EdgeCaseError::TimestampAttackDetected => "Timestamp attack detected"@,
        EdgeCaseError::RateLimited => "Rate limited"@,
        EdgeCaseError::SequencePredictionAttack => "Sequence prediction attack"@,
        EdgeCaseError::PortEnumerationDetected => "Port enumeration detected"@,
        EdgeCaseError::InvalidCryptoParameters => "Invalid cryptographic parameters"@,
        EdgeCaseError::AuthLockout => "Authentication lockout"@,
        EdgeCaseError::ErrorLoop => "Error loop detected"@,
        EdgeCaseError::UnknownError => "Unknown error"@,
        EdgeCaseError::ErrorProcessingTimeout => "Error processing timeout"@,
        EdgeCaseError::CascadingErrors => "Cascading errors detected"@,
        EdgeCaseError::LogBufferOverflow => "Log buffer overflow"@,
        EdgeCaseError::LogFilesystemFull => "Log filesystem full"@,
    }
}

impl EdgeCaseError {
    /// A human-readable description of the error.
    pub fn description(&self) -> (r: &'static str)
        ensures
            r@ == edge_case_text(*self),
    {
        match self {
            EdgeCaseError::InvalidVersion => "Invalid protocol version",
            EdgeCaseError::UnsupportedVersion => "Unsupported protocol version",
            EdgeCaseError::InvalidPacketType => "Invalid packet type",
            EdgeCaseError::UnknownPacketType => "Unknown packet type",
            EdgeCaseError::InvalidSubType => "Invalid sub-type for packet type",
            EdgeCaseError::PayloadTooLarge => "Payload too large",
            EdgeCaseError::EmptyDataPacket => "DATA packets must have payload",
            EdgeCaseError::InvalidSessionId => "Invalid session ID for packet type",
            EdgeCaseError::SequenceWraparoundNotReady => "Sequence wraparound not ready",
            EdgeCaseError::PacketTooShort => "Packet too short to contain header",
            EdgeCaseError::PayloadLengthMismatch => "Payload length mismatch",
            EdgeCaseError::ReservedFieldsNotZero => "Reserved fields must be zero",
            EdgeCaseError::InvalidFlagCombination => "Invalid flag combination",
            EdgeCaseError::FragmentIndexOutOfBounds => "Fragment index out of bounds",
            EdgeCaseError::TooManyFragments => "Too many fragments",
            EdgeCaseError::FragmentIdCollision => "Fragment ID collision",
            EdgeCaseError::FragmentDataMismatch => "Fragment data mismatch",
            EdgeCaseError::EmptyFinalFragment => "Empty final fragment",
            EdgeCaseError::FragmentTimeout => "Fragment timeout",
            EdgeCaseError::MemoryExhausted => "Memory exhausted",
            EdgeCaseError::ClockRegressionDetected => "Clock regression detected",
            EdgeCaseError::ConnectionTerminate => "Connection must terminate",
            EdgeCaseError::DstTransition => "Daylight saving time transition",
            EdgeCaseError::LeapSecondActive => "Leap second active",
            EdgeCaseError::WindowDeadlock => "Window deadlock detected",
            EdgeCaseError::WindowUpdateTimeout => "Window update timeout",
            EdgeCaseError::RecoveryInProgress => "Recovery already in progress",
            EdgeCaseError::RecoveryDuringTermination => "Recovery during termination",
            EdgeCaseError::SessionUnrecoverable => "Session unrecoverable",
            EdgeCaseError::RecoveryAttemptsExhausted => "Recovery attempts exhausted",
            EdgeCaseError::CriticalOperationInterrupted => "Critical operation interrupted",
            EdgeCaseError::PortRangeExhausted => "Port range exhausted",
            EdgeCaseError::NoAvailablePorts => "No available ports",
            EdgeCaseError::SimultaneousConnection => "Simultaneous connection detected",
            EdgeCaseError::SessionIdCollision => "Session ID collision",
            EdgeCaseError::SystemShuttingDown => "System shutting down",
            EdgeCaseError::VersionTooOld => "Protocol version too old",
            EdgeCaseError::VersionTooNew => "Protocol version too new",
            EdgeCaseError::ConnectionStateCorruption => "Connection state corruption",
            EdgeCaseError::ConnectionLimitExceeded => "Connection limit exceeded",
            EdgeCaseError::SendBufferOverflow => "Send buffer overflow",
            EdgeCaseError::ReceiveBufferOverflow => "Receive buffer overflow",
            EdgeCaseError::ResourceExhausted => "Resource exhausted",
            EdgeCaseError::BufferFull => "Buffer full",
            EdgeCaseError::BufferEmpty => "Buffer empty",
            EdgeCaseError::TimestampAttackDetected => "Timestamp attack detected",
            EdgeCaseError::RateLimited => "Rate limited",
            EdgeCaseError::SequencePredictionAttack => "Sequence prediction attack",
            EdgeCaseError::PortEnumerationDetected => "Port enumeration detected",
            EdgeCaseError::InvalidCryptoParameters => "Invalid cryptographic parameters",
            EdgeCaseError::AuthLockout => "Authentication lockout",
            EdgeCaseError::ErrorLoop => "Error loop detected",
            EdgeCaseError::UnknownError => "Unknown error",
            EdgeCaseError::ErrorProcessingTimeout => "Error processing timeout",
            EdgeCaseError::CascadingErrors => "Cascading errors detected",
            EdgeCaseError::LogBufferOverflow => "Log buffer overflow",
            EdgeCaseError::LogFilesystemFull => "Log filesystem full",
        }
    }
}

/// Limits and thresholds of edge case handling.
pub struct EdgeCaseConstants;

impl EdgeCaseConstants {
    pub const PROTOCOL_MAX_VERSION: u8 = 1;
    pub const PACKET_TYPE_MAX: u8 = 15;
    pub const MAX_PACKET_SIZE: usize = 65535;
    pub const OPTIMIZED_COMMON_HEADER_SIZE: usize = 26;
    pub const MAX_SEQUENCE_NUMBER: u32 = 0xFFFF_FFFF;
    /// Sequence numbers at or above this have passed half the number space.
    pub const SEQUENCE_WRAP_THRESHOLD: u32 = 0x8000_0000;
    pub const MAX_FRAGMENTS: u16 = 1000;
    pub const MAX_CONCURRENT_REASSEMBLIES: usize = 1000;
    /// Fragment reassembly timeout, in milliseconds.
    pub const FRAGMENT_TIMEOUT_MS: u64 = 5000;
    /// Largest clock regression absorbed, in milliseconds.
    pub const MAX_ACCEPTABLE_TIME_REGRESSION_MS: u64 = 1000;
    /// Largest time offset tolerated, in milliseconds.
    pub const MAX_EXTREME_TIME_DRIFT_MS: u64 = 3_600_000;
    pub const HOP_INTERVAL_SAFETY_MARGIN_MS: u64 = 50;
    pub const MILLISECONDS_PER_DAY: u64 = 86_400_000;
    pub const MIN_DEADLOCK_WINDOW_SIZE: u32 = 1460;
    pub const WINDOW_UPDATE_TIMEOUT_MS: u64 = 5000;
    pub const MAX_WINDOW_SIZE: u32 = 0x4000_0000;
    pub const MIN_CONGESTION_WINDOW: u32 = 1460;
    /// Jitter above which a path is considered unstable, in nanoseconds.
    pub const HIGH_JITTER_THRESHOLD_NS: u64 = 100_000_000;
    pub const FAST_RETRANSMIT_THRESHOLD: u32 = 3;
    pub const MAX_TOTAL_RECOVERY_ATTEMPTS: u32 = 10;
    pub const RECOVERY_TIMEOUT_EXTENSION_MS: u64 = 1000;
    pub const MIN_PORT: u16 = 1024;
    pub const MAX_PORT: u16 = 65535;
    pub const PORT_OFFSET_RANGE: u32 = 65536;
    pub const MIN_SUPPORTED_VERSION: u8 = 1;
    pub const MAX_SUPPORTED_VERSION: u8 = 1;
    pub const MAX_CONCURRENT_CONNECTIONS: usize = 10000;
    pub const MIN_REQUIRED_MEMORY: usize = 1048576;
    pub const MAX_SEND_BUFFER_SIZE: usize = 67108864;
    pub const CRITICAL_SEND_BUFFER_SIZE: usize = 33554432;
    pub const MAX_RECEIVE_BUFFER_SIZE: usize = 67108864;
    pub const CRITICAL_RECEIVE_BUFFER_SIZE: usize = 33554432;
    pub const MAX_FILE_DESCRIPTORS: usize = 65536;
    pub const MAX_RECOVERY_HMAC_FAILURES: u32 = 3;
    pub const MAX_LEGITIMATE_CLOCK_SKEW_NS: i64 = 5_000_000_000;
    pub const MAX_DISCOVERY_RATE: u32 = 10;
    pub const MAX_AUTH_ATTEMPTS: u32 = 3;
    pub const AUTH_TIMEOUT_EXTENSION_MS: u64 = 1_000_000_000;
    pub const MAX_ERROR_RESPONSES: u32 = 10;
    pub const MAX_LOG_BUFFER_SIZE: usize = 10485760;
}

/// The same limits with their protocol types.
pub struct TypedEdgeCaseConstants;

impl TypedEdgeCaseConstants {
    /// Largest packet, in bytes (a `PacketSize`).
    pub const MAX_PACKET_SIZE: u16 = 65535;
    /// Smallest packet, in bytes (a `PacketSize`).
    pub const MIN_PACKET_SIZE: u16 = 20;
    /// Largest fragment, in bytes (a `FragmentSize`).
    pub const MAX_FRAGMENT_SIZE: u16 = 1400;
    pub const FRAGMENT_TIMEOUT_MS: u64 = 5000;
    pub const WINDOW_UPDATE_TIMEOUT_MS: u64 = 5000;
    pub const AUTH_TIMEOUT_EXTENSION_MS: u64 = 1000;
    pub const RECOVERY_TIMEOUT_EXTENSION_MS: u64 = 1000;
    pub const MAX_SEND_BUFFER_SIZE: usize = 67108864;
    pub const CRITICAL_SEND_BUFFER_SIZE: usize = 33554432;
    pub const MAX_RECEIVE_BUFFER_SIZE: usize = 67108864;
    pub const CRITICAL_RECEIVE_BUFFER_SIZE: usize = 33554432;
    pub const MAX_LOG_BUFFER_SIZE: usize = 10485760;
    pub const SEQUENCE_WRAP_THRESHOLD: u32 = 0x8000_0000;
    pub const FAST_RETRANSMIT_THRESHOLD: u32 = 3;
    pub const HIGH_JITTER_THRESHOLD: u32 = 100;
    pub const MAX_RECOVERY_HMAC_FAILURES: u32 = 3;
    pub const MAX_DISCOVERY_RATE: u32 = 10;
    pub const MAX_AUTH_ATTEMPTS: u32 = 3;
    pub const MAX_ERROR_RESPONSES: u32 = 10;
}

/// What edge case handling tracks of a session.
#[derive(Clone, Copy, Debug, PartialEq, Eq)]
pub struct SessionState {
    pub session_id: SessionId,
    pub next_sequence_number: u32,
    pub peer_highest_acknowledged: u32,
    /// Last time seen, in milliseconds.
    pub last_known_time: u64,
    /// Offset absorbed from clock regressions, in milliseconds.
    pub time_offset: i64,
    pub time_sync_in_progress: u32,
    pub peer_window_size: u32,
    pub local_window_size: u32,
    pub connection_state: ConnectionState,
    pub recovery_attempts: u32,
    pub auth_attempt_count: u32,
}

/// The state a session starts in.
pub open spec fn fresh_session(session_id: SessionId) -> SessionState {
    SessionState {
        session_id,
        next_sequence_number: 1,
        peer_highest_acknowledged: 0,
        last_known_time: 0,
        time_offset: 0,
        time_sync_in_progress: 0,
        peer_window_size: 65536,
        local_window_size: 65536,
        connection_state: ConnectionState::Idle,
        recovery_attempts: 0,
        auth_attempt_count: 0,
    }
}

impl SessionState {
    /// Sequence numbers from 1, nothing acknowledged, no time seen, 64 KiB
    /// windows, idle.
    pub fn new(session_id: SessionId) -> (r: SessionState)
        ensures
            r == fresh_session(session_id),
    {
        SessionState {
            session_id,
            next_sequence_number: 1,
            peer_highest_acknowledged: 0,
            last_known_time: 0,
            time_offset: 0,
            time_sync_in_progress: 0,
            peer_window_size: 65536,
            local_window_size: 65536,
            connection_state: ConnectionState::Idle,
            recovery_attempts: 0,
            auth_attempt_count: 0,
        }
    }
}

/// Recovery in progress, its level and the attempts made.
#[derive(Clone, Copy, Debug, PartialEq, Eq)]
pub struct RecoveryState {
    pub recovery_in_progress: u32,
    pub current_level: u32,
    pub total_recovery_attempts: u32,
}

impl RecoveryState {
    /// No recovery in progress, at the time synchronization level, none attempted.
    pub fn new() -> (r: RecoveryState)
        ensures
            r.recovery_in_progress == 0,
            r.current_level == 0,
            r.total_recovery_attempts == 0,
    {
        RecoveryState { recovery_in_progress: 0, current_level: 0, total_recovery_attempts: 0 }
    }
}

impl Default for RecoveryState {
    fn default() -> (r: RecoveryState)
        ensures
            r.recovery_in_progress == 0,
            r.current_level == 0,
            r.total_recovery_attempts == 0,
    {
        RecoveryState::new()
    }
}

/// Fragments of one message being collected.
#[derive(Debug)]
pub struct ReassemblyBuffer {
    pub fragment_id: FragmentId,
    pub sequence_number: SequenceNumber,
    pub fragment_count: FragmentCount,
    pub received_count: FragmentCount,
    /// When collection gives up, in milliseconds.
    pub timeout: FragmentTimeout,
    pub fragments: HashMap<u16, Vec<u8>>,
}

impl ReassemblyBuffer {
    /// An empty buffer that gives up the fragment timeout after `now_ms`.
    pub fn new_at(
        fragment_id: FragmentId,
        sequence_number: SequenceNumber,
        total_fragments: FragmentCount,
        now_ms: u64,
    ) -> (r: ReassemblyBuffer)
        requires
            now_ms + EdgeCaseConstants::FRAGMENT_TIMEOUT_MS <= u64::MAX,
        ensures
            r.fragment_id == fragment_id,
            r.sequence_number == sequence_number,
            r.fragment_count == total_fragments,
            r.received_count.0 == 0,
            r.timeout.0 == now_ms + EdgeCaseConstants::FRAGMENT_TIMEOUT_MS,
            r.fragments@.is_empty(),
    {
        ReassemblyBuffer {
            fragment_id,
            sequence_number,
            fragment_count: total_fragments,
            received_count: FragmentCount::new(0),
            timeout: FragmentTimeout::new(now_ms + EdgeCaseConstants::FRAGMENT_TIMEOUT_MS),
            fragments: HashMap::new(),
        }
    }
}

// ---------------------------------------------------------------------------
// The session table
// ---------------------------------------------------------------------------

/// What a session table holds, by session identifier.
pub uninterp spec fn session_table(m: DashMap<u64, SessionState>) -> Map<u64, SessionState>;

/// Calls `DashMap::new`: an empty map.
#[verifier::external_body]
fn sessions_new() -> (r: DashMap<u64, SessionState>)
    ensures
        session_table(r).is_empty(),
{
    DashMap::new()
}

/// Calls `DashMap::get` and copies the value out: the value under `key`, if any.
#[verifier::external_body]
fn sessions_get(m: &DashMap<u64, SessionState>, key: u64) -> (r: Option<SessionState>)
    ensures
        r == (if session_table(*m).contains_key(key) {
            Some(session_table(*m)[key])
        } else {
            None
        }),
{
    m.get(&key).map(|e| *e.value())
}

/// Calls `DashMap::insert`, which puts `value` under `key`, replacing what was there.
#[verifier::external_body]
fn sessions_insert(m: &mut DashMap<u64, SessionState>, key: u64, value: SessionState)
    ensures
        session_table(*final(m)) == session_table(*old(m)).insert(key, value),
{
    m.insert(key, value);
}

/// Calls `DashMap::remove`, which takes out what is under `key` and tells whether there was anything.
#[verifier::external_body]
fn sessions_remove(m: &mut DashMap<u64, SessionState>, key: u64) -> (r: bool)
    ensures
        session_table(*final(m)) == session_table(*old(m)).remove(key),
        r == session_table(*old(m)).contains_key(key),
{
    m.remove(&key).is_some()
}

/// Calls `DashMap::contains_key`.
#[verifier::external_body]
fn sessions_contains(m: &DashMap<u64, SessionState>, key: u64) -> (r: bool)
    ensures
        r == session_table(*m).contains_key(key),
{
    m.contains_key(&key)
}


// ---------------------------------------------------------------------------
// The reassembly buffer table
// ---------------------------------------------------------------------------

/// What a reassembly buffer table holds, by fragment identifier.
pub uninterp spec fn buffer_table(m: DashMap<u32, ReassemblyBuffer>) -> Map<u32, ReassemblyBuffer>;

/// Calls `DashMap::new`: an empty map.
#[verifier::external_body]
fn buffers_new() -> (r: DashMap<u32, ReassemblyBuffer>)
    ensures
        buffer_table(r).is_empty(),
{
    DashMap::new()
}

/// Calls `DashMap::get` and reads the buffer's sequence number, timeout and
/// count of fragments received.
#[verifier::external_body]
fn buffers_meta(m: &DashMap<u32, ReassemblyBuffer>, key: u32) -> (r: Option<(u32, u64, u16)>)
    ensures
        r == (if buffer_table(*m).contains_key(key) {
            Some(
                (
                    buffer_table(*m)[key].sequence_number.0,
                    buffer_table(*m)[key].timeout.0,
                    buffer_table(*m)[key].received_count.0,
                ),
            )
        } else {
            None
        }),
{
    m.get(&key).map(|b| (b.sequence_number.0, b.timeout.0, b.received_count.0))
}

/// Calls `DashMap::get` and clones the fragments that the buffer under `key`
/// holds, by index, if there is such a buffer.
#[verifier::external_body]
fn buffers_fragments(m: &DashMap<u32, ReassemblyBuffer>, key: u32) -> (r: Option<HashMap<u16, Vec<u8>>>)
    ensures
        r is Some <==> buffer_table(*m).contains_key(key),
        r matches Some(f) ==> f@.dom() == buffer_table(*m)[key].fragments@.dom() && forall|i: u16|
            #[trigger] f@.contains_key(i) ==> f@[i]@ == buffer_table(*m)[key].fragments@[i]@,
{
    m.get(&key).map(|b| b.fragments.clone())
}

/// The fragment of index `index` that the buffer under `key` holds, if any.
fn buffer_fragment(m: &DashMap<u32, ReassemblyBuffer>, key: u32, index: u16) -> (r: Option<Vec<u8>>)
    ensures
        r is Some <==> (buffer_table(*m).contains_key(key) && buffer_table(*m)[key].fragments@.contains_key(index)),
        r matches Some(v) ==> v@ == buffer_table(*m)[key].fragments@[index]@,
{
    match buffers_fragments(m, key) {
        Some(fragments) => match fragments.get(&index) {
            Some(v) => {
                assert(fragments@.contains_key(index));
                Some(read_bytes(v.as_slice(), 0, v.len()))
            },
            None => None,
        },
        None => None,
    }
}

/// Calls `DashMap::remove`, which takes out what is under `key`.
#[verifier::external_body]
fn buffers_remove(m: &mut DashMap<u32, ReassemblyBuffer>, key: u32)
    ensures
        buffer_table(*final(m)) == buffer_table(*old(m)).remove(key),
{
    m.remove(&key);
}

/// Calls `DashMap::len`: the number of buffers.
#[verifier::external_body]
fn buffers_len(m: &DashMap<u32, ReassemblyBuffer>) -> (r: usize)
    ensures
        r == buffer_table(*m).len(),
{
    m.len()
}

/// Calls `DashMap::iter` and lists each buffer's key with its timeout, in the
/// map's order, which the contract leaves open.
#[verifier::external_body]
fn buffers_timeouts(m: &DashMap<u32, ReassemblyBuffer>) -> (r: Vec<(u32, u64)>)
    ensures
        r@.len() == buffer_table(*m).len(),
        forall|i: int|
            0 <= i < r@.len() ==> buffer_table(*m).contains_key(#[trigger] r@[i].0) && buffer_table(
                *m,
            )[r@[i].0].timeout.0 == r@[i].1,
        forall|k: u32| #[trigger] buffer_table(*m).contains_key(k) ==> exists|i: int| 0 <= i < r@.len() && r@[i].0 == k,
{
    m.iter().map(|e| (*e.key(), e.value().timeout.0)).collect()
}

// ---------------------------------------------------------------------------
// The handler
// ---------------------------------------------------------------------------

/// Checks protocol operations against their edge cases, with the sessions,
/// recovery, buffers and resources it tracks.
pub struct EdgeCaseHandler {
    sessions: DashMap<u64, SessionState>,
    recovery_state: RecoveryState,
    active_reassembly_buffers: DashMap<u32, ReassemblyBuffer>,
    system_shutdown: u64,
    active_connections: usize,
    memory_usage: usize,
    send_buffer_usage: usize,
    receive_buffer_usage: usize,
    open_file_descriptors: usize,
    error_response_count: u64,
    log_buffer_usage: usize,
    edge_cases_handled: u64,
    boundary_conditions_detected: u64,
}

/// Adds one, wrapping around.
pub open spec fn bump(c: u64) -> u64 {
    vstd::wrapping::u64_specs::wrapping_add(c, 1)
}

/// A timestamp more than five seconds from the clock reading `now_ms` (both
/// in milliseconds) is an attack.
pub open spec fn skew_verdict(timestamp: u64, now_ms: u64) -> Result<(), EdgeCaseError> {
    if (if timestamp >= now_ms { timestamp - now_ms } else { now_ms - timestamp }) > 5000 {
        Err(EdgeCaseError::TimestampAttackDetected)
    } else {
        Ok(())
    }
}

/// The magnitude of a signed number.
pub open spec fn abs_i64(v: i64) -> int {
    if v >= 0 { v as int } else { -(v as int) }
}

/// A session about to wrap around whose peer has not acknowledged half the
/// sequence space.
pub open spec fn wraparound_not_ready(sessions: Map<u64, SessionState>, sid: u64) -> bool {
    &&& sessions.contains_key(sid)
    &&& sessions[sid].next_sequence_number == 0xFFFF_FFFF
    &&& sessions[sid].peer_highest_acknowledged < 0x8000_0000
}

/// Why a packet is refused as an edge case, if it is: a zero or too recent
/// protocol version, a sub-type on a packet type without sub-types, a payload
/// longer than a packet allows or an empty DATA payload, a zero session
/// identifier outside SYN and DISCOVERY packets, or the last sequence number
/// of a session that may not wrap around yet.
pub open spec fn packet_edge_error(sessions: Map<u64, SessionState>, p: Packet) -> Option<EdgeCaseError> {
    let h = packet_header(p);
    let t = h.packet_type;
    let plen = match p {
        Packet::Data(d) => d.payload@.len(),
        _ => 0,
    };
    if h.version_byte.spec_protocol_version() == 0 {
        Some(EdgeCaseError::InvalidVersion)
    } else if h.version_byte.spec_protocol_version() > 1 {
        Some(EdgeCaseError::UnsupportedVersion)
    } else if !(t == PacketType::Control || t == PacketType::Management || t == PacketType::Discovery)
        && h.sub_type.0 != 0 {
        Some(EdgeCaseError::InvalidSubType)
    } else if plen > 65509 {
        Some(EdgeCaseError::PayloadTooLarge)
    } else if plen == 0 && t == PacketType::Data {
        Some(EdgeCaseError::EmptyDataPacket)
    } else if h.session_id.0 == 0 && !(t == PacketType::Syn || t == PacketType::Discovery) {
        Some(EdgeCaseError::InvalidSessionId)
    } else if h.sequence_number.0 == 0xFFFF_FFFF && wraparound_not_ready(sessions, h.session_id.0) {
        Some(EdgeCaseError::SequenceWraparoundNotReady)
    } else {
        None
    }
}

/// The buffers `b2` and answer `r` after room was made in `b`: below the most
/// reassemblies allowed nothing changes; at it, a buffer that times out
/// first is dropped, unless every buffer times out at the end of time.
pub open spec fn room_made(b: Map<u32, ReassemblyBuffer>, b2: Map<u32, ReassemblyBuffer>, r: Result<(), EdgeCaseError>) -> bool {
    if b.len() < 1000 {
        r == Ok::<(), EdgeCaseError>(()) && b2 == b
    } else if exists|k: u32| #[trigger] b.contains_key(k) && b[k].timeout.0 < u64::MAX {
        &&& r == Ok::<(), EdgeCaseError>(())
        &&& exists|k0: u32|
            #[trigger] b.contains_key(k0) && (forall|k: u32| #[trigger] b.contains_key(k) ==> b[k0].timeout.0 <= b[k].timeout.0)
                && b2 == b.remove(k0)
    } else {
        r == Err::<(), EdgeCaseError>(EdgeCaseError::MemoryExhausted) && b2 == b
    }
}

/// Compares two byte strings.
fn bytes_equal(a: &[u8], b: &[u8]) -> (r: bool)
    ensures
        r == (a@ == b@),
{
    if a.len() != b.len() {
        return false;
    }
    let mut i: usize = 0;
    while i < a.len()
        invariant
            i <= a@.len(),
            a@.len() == b@.len(),
            forall|j: int| 0 <= j < i ==> a@[j] == b@[j],
        decreases a@.len() - i,
    {
        if a[i] != b[i] {
            return false;
        }
        i = i + 1;
    }
    assert(a@ =~= b@);
    true
}

/// The handler `s1` and answer `r` after `s0` checked the clock of session
/// `session_id` at `now_ms` (see `handle_time_sync_edge_cases_at`).
pub open spec fn time_sync_outcome(
    s0: EdgeCaseHandler,
    s1: EdgeCaseHandler,
    session_id: SessionId,
    now_ms: u64,
    r: Result<(), EdgeCaseError>,
) -> bool {
    &&& s1.handled() == bump(s0.handled())
    &&& s1.buffers() =~= s0.buffers()
    &&& s1.recovery() == s0.recovery()
    &&& s1.connections() == s0.connections()
    &&& s1.resources() == s0.resources()
    &&& s1.error_responses() == s0.error_responses()
    &&& ({
        let sid = session_id.0;
        if !s0.sessions().contains_key(sid) {
            r is Ok && s1.sessions() =~= s0.sessions()
        } else {
            let st = s0.sessions()[sid];
            let regressed = now_ms < st.last_known_time;
            let regression = st.last_known_time - now_ms;
            let offset = if regressed {
                vstd::wrapping::i64_specs::wrapping_add(st.time_offset, regression as i64)
            } else {
                st.time_offset
            };
            if regressed && regression > 1000 {
                r == Err::<(), EdgeCaseError>(EdgeCaseError::ClockRegressionDetected)
                    && s1.sessions() =~= s0.sessions()
            } else if abs_i64(offset) > 3_600_000 {
                r == Err::<(), EdgeCaseError>(EdgeCaseError::ConnectionTerminate)
                    && s1.sessions() =~= s0.sessions().insert(sid, SessionState { time_offset: offset, ..st })
            } else {
                r is Ok && s1.sessions() =~= s0.sessions().insert(
                    sid,
                    SessionState { time_offset: offset, last_known_time: now_ms, ..st },
                )
            }
        }
    })
}

/// The handler `s1` and answer `r` after `s0` checked, at `now_ms`, a
/// fragment with data `fragment_data` (see `handle_fragmentation_edge_cases_at`).
pub open spec fn fragmentation_outcome(
    s0: EdgeCaseHandler,
    s1: EdgeCaseHandler,
    fragment_id: FragmentId,
    fragment_index: u16,
    fragment_count: u16,
    sequence_number: SequenceNumber,
    fragment_data: Seq<u8>,
    now_ms: u64,
    r: Result<(), EdgeCaseError>,
) -> bool {
    &&& s1.handled() == bump(s0.handled())
    &&& s1.sessions() =~= s0.sessions()
    &&& s1.recovery() == s0.recovery()
    &&& s1.connections() == s0.connections()
    &&& s1.resources() == s0.resources()
    &&& ({
        let b = s0.buffers();
        let k = fragment_id.0 as u32;
        if fragment_index >= fragment_count {
            r == Err::<(), EdgeCaseError>(EdgeCaseError::FragmentIndexOutOfBounds) && s1.buffers() =~= b
        } else if fragment_count > 1000 {
            r == Err::<(), EdgeCaseError>(EdgeCaseError::TooManyFragments) && s1.buffers() =~= b
        } else if b.contains_key(k) && b[k].sequence_number != sequence_number {
            r == Err::<(), EdgeCaseError>(EdgeCaseError::FragmentIdCollision) && s1.buffers() =~= b.remove(k)
        } else if b.contains_key(k) && b[k].fragments@.contains_key(fragment_index) {
            s1.buffers() =~= b && r == (if b[k].fragments@[fragment_index]@ == fragment_data {
                Ok(())
            } else {
                Err::<(), EdgeCaseError>(EdgeCaseError::FragmentDataMismatch)
            })
        } else if fragment_index == fragment_count - 1 && fragment_data.len() == 0 {
            r == Err::<(), EdgeCaseError>(EdgeCaseError::EmptyFinalFragment) && s1.buffers() =~= b
        } else if b.contains_key(k) && now_ms >= b[k].timeout.0 && b[k].received_count.0 == 0 {
            r == Err::<(), EdgeCaseError>(EdgeCaseError::FragmentTimeout) && s1.buffers() =~= b.remove(k)
        } else {
            room_made(b, s1.buffers(), r)
        }
    })
}

/// The handler `s1` after `s0` dropped the buffers expired at `now_ms`.
pub open spec fn buffers_cleanup_outcome(
    s0: EdgeCaseHandler,
    s1: EdgeCaseHandler,
    now_ms: u64,
) -> bool {
    &&& forall|k: u32| #[trigger] s1.buffers().contains_key(k) <==> s0.buffers().contains_key(k)
            && now_ms < s0.buffers()[k].timeout.0
    &&& forall|k: u32| #[trigger] s1.buffers().contains_key(k) ==> s1.buffers()[k] == s0.buffers()[k]
    &&& s1.error_responses() == 0
    &&& s1.handled() == s0.handled()
    &&& s1.sessions() =~= s0.sessions()
    &&& s1.recovery() == s0.recovery()
    &&& s1.connections() == s0.connections()
    &&& s1.resources() == s0.resources()
}

impl EdgeCaseHandler {
    /// The tracked sessions.
    pub closed spec fn sessions(&self) -> Map<u64, SessionState> {
        session_table(self.sessions)
    }

    /// The reassembly buffers, by fragment identifier.
    pub closed spec fn buffers(&self) -> Map<u32, ReassemblyBuffer> {
        buffer_table(self.active_reassembly_buffers)
    }

    pub closed spec fn recovery(&self) -> RecoveryState {
        self.recovery_state
    }

    pub closed spec fn handled(&self) -> u64 {
        self.edge_cases_handled
    }

    pub closed spec fn detected(&self) -> u64 {
        self.boundary_conditions_detected
    }

    pub closed spec fn connections(&self) -> usize {
        self.active_connections
    }

    pub closed spec fn shutdown(&self) -> bool {
        self.system_shutdown != 0
    }

    pub closed spec fn error_responses(&self) -> u64 {
        self.error_response_count
    }

    /// Memory, send buffer, receive buffer and file descriptor use.
    pub closed spec fn resources(&self) -> (usize, usize, usize, usize) {
        (self.memory_usage, self.send_buffer_usage, self.receive_buffer_usage, self.open_file_descriptors)
    }

    /// No session, buffer or resource use, no recovery, nothing counted.
    pub fn new() -> (r: EdgeCaseHandler)
        ensures
            r.sessions().is_empty(),
            r.buffers().is_empty(),
            r.handled() == 0,
            r.detected() == 0,
            r.connections() == 0,
            !r.shutdown(),
            r.error_responses() == 0,
            r.resources() == (0usize, 0usize, 0usize, 0usize),
            r.recovery() == (RecoveryState { recovery_in_progress: 0, current_level: 0, total_recovery_attempts: 0 }),
    {
        EdgeCaseHandler {
            sessions: sessions_new(),
            recovery_state: RecoveryState::new(),
            active_reassembly_buffers: buffers_new(),
            system_shutdown: 0,
            active_connections: 0,
            memory_usage: 0,
            send_buffer_usage: 0,
            receive_buffer_usage: 0,
            open_file_descriptors: 0,
            error_response_count: 0,
            log_buffer_usage: 0,
            edge_cases_handled: 0,
            boundary_conditions_detected: 0,
        }
    }

    /// Everything but the counter of edge cases handled is as in `other`.
    pub open spec fn same_but_handled(&self, other: &EdgeCaseHandler) -> bool {
        &&& self.sessions() == other.sessions()
        &&& self.buffers() == other.buffers()
        &&& self.recovery() == other.recovery()
        &&& self.detected() == other.detected()
        &&& self.connections() == other.connections()
        &&& self.shutdown() == other.shutdown()
        &&& self.error_responses() == other.error_responses()
        &&& self.resources() == other.resources()
    }

    /// Checks a packet's version, sub-type, payload length and session
    /// identifier, and whether a session at the end of its sequence space may
    /// wrap around; counts the check.
    pub fn handle_packet_edge_cases(&mut self, packet: &Packet) -> (r: Result<(), EdgeCaseError>)
        ensures
            final(self).handled() == bump(old(self).handled()),
            final(self).same_but_handled(old(self)),
            r == (match packet_edge_error(old(self).sessions(), *packet) {
                Some(e) => Err::<(), EdgeCaseError>(e),
                None => Ok(()),
            }),
    {
        self.edge_cases_handled = self.edge_cases_handled.wrapping_add(1);
        let version_byte = packet.header().version_byte();
        if version_byte.version() == 0 {
            return Err(EdgeCaseError::InvalidVersion);
        }
        if version_byte.version() > EdgeCaseConstants::PROTOCOL_MAX_VERSION {
            return Err(EdgeCaseError::UnsupportedVersion);
        }
        let packet_type = packet.packet_type();
        let sub_type = packet.header().sub_type();
        let allows_subtype = packet_type == PacketType::Control || packet_type == PacketType::Management
            || packet_type == PacketType::Discovery;
        if !allows_subtype && sub_type.as_u8() != 0 {
            return Err(EdgeCaseError::InvalidSubType);
        }
        let payload_length = packet.payload().len();
        if payload_length > EdgeCaseConstants::MAX_PACKET_SIZE - EdgeCaseConstants::OPTIMIZED_COMMON_HEADER_SIZE {
            return Err(EdgeCaseError::PayloadTooLarge);
        }
        if payload_length == 0 && packet_type == PacketType::Data {
            return Err(EdgeCaseError::EmptyDataPacket);
        }
        let session_id = packet.session_id();
        if session_id.as_u64() == 0 && !(packet_type == PacketType::Syn || packet_type == PacketType::Discovery) {
            return Err(EdgeCaseError::InvalidSessionId);
        }
        let sequence_number = packet.sequence_number();
        if sequence_number.as_u32() == EdgeCaseConstants::MAX_SEQUENCE_NUMBER {
            match self.validate_sequence_wraparound_conditions(session_id) {
                Ok(()) => {},
                Err(e) => return Err(e),
            }
        }
        let flags = packet.flags();
        self.validate_flag_combinations(flags)
    }

    /// A session about to wrap around whose peer has not acknowledged half
    /// the sequence space is not ready.
    fn validate_sequence_wraparound_conditions(&self, session_id: SessionId) -> (r: Result<(), EdgeCaseError>)
        ensures
            r == (if wraparound_not_ready(self.sessions(), session_id.0) {
                Err::<(), EdgeCaseError>(EdgeCaseError::SequenceWraparoundNotReady)
            } else {
                Ok(())
            }),
    {
        if let Some(session) = sessions_get(&self.sessions, session_id.as_u64()) {
            if session.next_sequence_number == EdgeCaseConstants::MAX_SEQUENCE_NUMBER
                && session.peer_highest_acknowledged < EdgeCaseConstants::SEQUENCE_WRAP_THRESHOLD {
                return Err(EdgeCaseError::SequenceWraparoundNotReady);
            }
        }
        Ok(())
    }

    /// Every flag combination is accepted.
    fn validate_flag_combinations(&self, flags: PacketFlags) -> (r: Result<(), EdgeCaseError>)
        ensures
            r == Ok::<(), EdgeCaseError>(()),
    {
        Ok(())
    }

    /// Checks raw bytes: at least a full header, and exactly a header and the
    /// payload length read from bytes 2 and 3; counts the check.
    pub fn handle_malformed_packet_edge_cases(&mut self, packet_data: &[u8]) -> (r: Result<(), EdgeCaseError>)
        ensures
            final(self).handled() == bump(old(self).handled()),
            final(self).same_but_handled(old(self)),
            r == (if packet_data@.len() < 26 {
                Err::<(), EdgeCaseError>(EdgeCaseError::PacketTooShort)
            } else if packet_data@.len() != 26 + packet_data@[2] as int * 256 + packet_data@[3] as int {
                Err::<(), EdgeCaseError>(EdgeCaseError::PayloadLengthMismatch)
            } else {
                Ok(())
            }),
    {
        self.edge_cases_handled = self.edge_cases_handled.wrapping_add(1);
        if packet_data.len() < EdgeCaseConstants::OPTIMIZED_COMMON_HEADER_SIZE {
            return Err(EdgeCaseError::PacketTooShort);
        }
        if packet_data.len() >= 4 {
            let payload_length = (packet_data[2] as usize) * 256 + packet_data[3] as usize;
            let expected_total_size = EdgeCaseConstants::OPTIMIZED_COMMON_HEADER_SIZE + payload_length;
            if packet_data.len() != expected_total_size {
                return Err(EdgeCaseError::PayloadLengthMismatch);
            }
        }
        Ok(())
    }

    /// Checks a session's clock at `now_ms`: a regression over a second is
    /// refused, a smaller one is absorbed into the session's offset (wrapping),
    /// and an offset over an hour ends the connection; otherwise the session
    /// remembers `now_ms`. Counts the check.
    pub fn handle_time_sync_edge_cases_at(&mut self, session_id: SessionId, now_ms: u64) -> (r: Result<(), EdgeCaseError>)
        ensures
            time_sync_outcome(*old(self), *final(self), session_id, now_ms, r),
    {
        self.edge_cases_handled = self.edge_cases_handled.wrapping_add(1);
        let sid = session_id.as_u64();
        if let Some(session) = sessions_get(&self.sessions, sid) {
            let mut session = session;
            let last_known_time = session.last_known_time;
            if now_ms < last_known_time {
                let time_regression = last_known_time - now_ms;
                if time_regression > EdgeCaseConstants::MAX_ACCEPTABLE_TIME_REGRESSION_MS {
                    return Err(EdgeCaseError::ClockRegressionDetected);
                }
                session.time_offset = session.time_offset.wrapping_add(time_regression as i64);
                sessions_insert(&mut self.sessions, sid, session);
            }
            let time_offset = session.time_offset;
            let magnitude: u64 = if time_offset >= 0 { time_offset as u64 } else { (0 - (time_offset as i128)) as u64 };
            if magnitude > EdgeCaseConstants::MAX_EXTREME_TIME_DRIFT_MS {
                return Err(EdgeCaseError::ConnectionTerminate);
            }
            session.last_known_time = now_ms;
            sessions_insert(&mut self.sessions, sid, session);
        }
        Ok(())
    }

    /// Checks a session's clock at the current time, as `handle_time_sync_edge_cases_at` does.
    pub fn handle_time_sync_edge_cases(&mut self, session_id: SessionId) -> (r: Result<(), EdgeCaseError>)
        ensures
            exists|now_ms: u64| time_sync_outcome(*old(self), *final(self), session_id, now_ms, r),
    {
        let now_ms = Timestamp::now().as_millis();
        self.handle_time_sync_edge_cases_at(session_id, now_ms)
    }

    /// When both windows of a session are closed, opens the local one to one
    /// segment; counts the check.
    pub fn handle_flow_control_edge_cases(&mut self, session_id: SessionId) -> (r: Result<(), EdgeCaseError>)
        ensures
            r is Ok,
            final(self).handled() == bump(old(self).handled()),
            final(self).buffers() == old(self).buffers(),
            final(self).recovery() == old(self).recovery(),
            final(self).connections() == old(self).connections(),
            final(self).resources() == old(self).resources(),
            ({
                let sid = session_id.0;
                if old(self).sessions().contains_key(sid) && old(self).sessions()[sid].peer_window_size == 0
                    && old(self).sessions()[sid].local_window_size == 0 {
                    final(self).sessions() == old(self).sessions().insert(
                        sid,
                        SessionState { local_window_size: 1460, ..old(self).sessions()[sid] },
                    )
                } else {
                    final(self).sessions() == old(self).sessions()
                }
            }),
    {
        self.edge_cases_handled = self.edge_cases_handled.wrapping_add(1);
        if let Some(session) = sessions_get(&self.sessions, session_id.as_u64()) {
            if session.peer_window_size == 0 && session.local_window_size == 0 {
                return self.resolve_window_deadlock(session_id);
            }
        }
        Ok(())
    }

    /// Opens the local window of a session to one segment.
    fn resolve_window_deadlock(&mut self, session_id: SessionId) -> (r: Result<(), EdgeCaseError>)
        ensures
            r is Ok,
            final(self).same_but_handled(old(self)) || old(self).sessions().contains_key(session_id.0),
            final(self).handled() == old(self).handled(),
            final(self).buffers() == old(self).buffers(),
            final(self).recovery() == old(self).recovery(),
            final(self).connections() == old(self).connections(),
            final(self).resources() == old(self).resources(),
            old(self).sessions().contains_key(session_id.0) ==> final(self).sessions() == old(self).sessions().insert(
                session_id.0,
                SessionState { local_window_size: 1460, ..old(self).sessions()[session_id.0] },
            ),
            !old(self).sessions().contains_key(session_id.0) ==> final(self).sessions() == old(self).sessions(),
    {
        if let Some(session) = sessions_get(&self.sessions, session_id.as_u64()) {
            let updated = SessionState { local_window_size: EdgeCaseConstants::MIN_DEADLOCK_WINDOW_SIZE, ..session };
            sessions_insert(&mut self.sessions, session_id.as_u64(), updated);
        }
        Ok(())
    }

    /// Decides on a recovery of priority `new_recovery_priority`: during a
    /// recovery, a higher priority takes over and a lower one is refused;
    /// otherwise the level must be below 10 and the attempts below the most
    /// allowed. Counts the check.
    pub fn handle_recovery_edge_cases(&mut self, new_recovery_priority: u32) -> (r: Result<(), EdgeCaseError>)
        ensures
            final(self).handled() == bump(old(self).handled()),
            final(self).sessions() == old(self).sessions(),
            final(self).buffers() == old(self).buffers(),
            final(self).connections() == old(self).connections(),
            final(self).resources() == old(self).resources(),
            ({
                let rs = old(self).recovery();
                if rs.recovery_in_progress != 0 {
                    if new_recovery_priority > rs.current_level {
                        r is Ok && final(self).recovery() == (RecoveryState {
                            recovery_in_progress: 1,
                            current_level: new_recovery_priority,
                            ..rs
                        })
                    } else {
                        r == Err::<(), EdgeCaseError>(EdgeCaseError::RecoveryInProgress) && final(self).recovery() == rs
                    }
                } else {
                    &&& final(self).recovery() == rs
                    &&& r == (if rs.current_level >= 10 {
                        Err::<(), EdgeCaseError>(EdgeCaseError::SessionUnrecoverable)
                    } else if rs.total_recovery_attempts >= 10 {
                        Err::<(), EdgeCaseError>(EdgeCaseError::RecoveryAttemptsExhausted)
                    } else {
                        Ok(())
                    })
                }
            }),
    {
        self.edge_cases_handled = self.edge_cases_handled.wrapping_add(1);
        if self.recovery_state.recovery_in_progress != 0 {
            let current_priority = self.recovery_state.current_level;
            if new_recovery_priority > current_priority {
                self.recovery_state.recovery_in_progress = 0;
                self.recovery_state.current_level = new_recovery_priority;
                self.recovery_state.recovery_in_progress = 1;
                return Ok(());
            }
            return Err(EdgeCaseError::RecoveryInProgress);
        }
        if self.recovery_state.current_level >= 10 {
            return Err(EdgeCaseError::SessionUnrecoverable);
        }
        if self.recovery_state.total_recovery_attempts >= EdgeCaseConstants::MAX_TOTAL_RECOVERY_ATTEMPTS {
            return Err(EdgeCaseError::RecoveryAttemptsExhausted);
        }
        Ok(())
    }

    /// Decides on a connection attempt: for a session already tracked, the
    /// higher endpoint wins; otherwise it is refused during shutdown and at
    /// the connection limit. Counts the check.
    pub fn handle_connection_edge_cases(&mut self, session_id: SessionId, local_endpoint: u64, peer_endpoint: u64) -> (r: Result<(), EdgeCaseError>)
        ensures
            final(self).handled() == bump(old(self).handled()),
            final(self).same_but_handled(old(self)),
            r == (if old(self).sessions().contains_key(session_id.0) {
                if local_endpoint < peer_endpoint {
                    Ok(())
                } else {
                    Err::<(), EdgeCaseError>(EdgeCaseError::SimultaneousConnection)
                }
            } else if old(self).shutdown() {
                Err::<(), EdgeCaseError>(EdgeCaseError::SystemShuttingDown)
            } else if old(self).connections() >= 10000 {
                Err::<(), EdgeCaseError>(EdgeCaseError::ConnectionLimitExceeded)
            } else {
                Ok(())
            }),
    {
        self.edge_cases_handled = self.edge_cases_handled.wrapping_add(1);
        if sessions_contains(&self.sessions, session_id.as_u64()) {
            if local_endpoint < peer_endpoint {
                return Ok(());
            }
            return Err(EdgeCaseError::SimultaneousConnection);
        }
        if self.system_shutdown != 0 {
            return Err(EdgeCaseError::SystemShuttingDown);
        }
        if self.active_connections >= EdgeCaseConstants::MAX_CONCURRENT_CONNECTIONS {
            return Err(EdgeCaseError::ConnectionLimitExceeded);
        }
        Ok(())
    }

    /// Checks resource use against its limits; counts a boundary condition.
    pub fn handle_resource_exhaustion(&mut self) -> (r: Result<(), EdgeCaseError>)
        ensures
            final(self).detected() == bump(old(self).detected()),
            final(self).handled() == old(self).handled(),
            final(self).sessions() == old(self).sessions(),
            final(self).buffers() == old(self).buffers(),
            final(self).recovery() == old(self).recovery(),
            final(self).connections() == old(self).connections(),
            final(self).shutdown() == old(self).shutdown(),
            final(self).error_responses() == old(self).error_responses(),
            final(self).resources() == old(self).resources(),
            ({
                let (memory, send, receive, fds) = old(self).resources();
                r == (if memory >= 1048576 {
                    Err::<(), EdgeCaseError>(EdgeCaseError::MemoryExhausted)
                } else if send > 67108864 {
                    Err::<(), EdgeCaseError>(EdgeCaseError::SendBufferOverflow)
                } else if receive > 67108864 {
                    Err::<(), EdgeCaseError>(EdgeCaseError::ReceiveBufferOverflow)
                } else if fds >= 65536 {
                    Err::<(), EdgeCaseError>(EdgeCaseError::ResourceExhausted)
                } else {
                    Ok(())
                })
            }),
    {
        self.boundary_conditions_detected = self.boundary_conditions_detected.wrapping_add(1);
        if self.memory_usage >= EdgeCaseConstants::MIN_REQUIRED_MEMORY {
            return Err(EdgeCaseError::MemoryExhausted);
        }
        if self.send_buffer_usage > EdgeCaseConstants::MAX_SEND_BUFFER_SIZE {
            return Err(EdgeCaseError::SendBufferOverflow);
        }
        if self.receive_buffer_usage > EdgeCaseConstants::MAX_RECEIVE_BUFFER_SIZE {
            return Err(EdgeCaseError::ReceiveBufferOverflow);
        }
        if self.open_file_descriptors >= EdgeCaseConstants::MAX_FILE_DESCRIPTORS {
            return Err(EdgeCaseError::ResourceExhausted);
        }
        Ok(())
    }

    /// Refuses a timestamp (milliseconds) more than five seconds from `now_ms`; counts the check.
    pub fn handle_security_edge_cases_at(&mut self, source_ip: u32, timestamp: u64, now_ms: u64) -> (r: Result<(), EdgeCaseError>)
        ensures
            final(self).handled() == bump(old(self).handled()),
            final(self).same_but_handled(old(self)),
            r == skew_verdict(timestamp, now_ms),
    {
        self.edge_cases_handled = self.edge_cases_handled.wrapping_add(1);
        let timestamp_diff = if timestamp >= now_ms { timestamp - now_ms } else { now_ms - timestamp };
        if timestamp_diff > (EdgeCaseConstants::MAX_LEGITIMATE_CLOCK_SKEW_NS / 1_000_000) as u64 {
            return Err(EdgeCaseError::TimestampAttackDetected);
        }
        Ok(())
    }

    /// Checks a timestamp against the current time, as `handle_security_edge_cases_at` does.
    pub fn handle_security_edge_cases(&mut self, source_ip: u32, timestamp: u64) -> (r: Result<(), EdgeCaseError>)
        ensures
            final(self).handled() == bump(old(self).handled()),
            final(self).same_but_handled(old(self)),
            exists|now_ms: u64| r == #[trigger] skew_verdict(timestamp, now_ms),
    {
        let now_ms = Timestamp::now().as_millis();
        self.handle_security_edge_cases_at(source_ip, timestamp, now_ms)
    }

    /// Refuses to answer an error after ten answers (an error loop) and an
    /// error code above 255; otherwise counts the answer. Counts the check.
    pub fn handle_error_processing_edge_cases(&mut self, error_code: u32) -> (r: Result<(), EdgeCaseError>)
        ensures
            final(self).handled() == bump(old(self).handled()),
            final(self).sessions() == old(self).sessions(),
            final(self).buffers() == old(self).buffers(),
            final(self).recovery() == old(self).recovery(),
            final(self).connections() == old(self).connections(),
            final(self).resources() == old(self).resources(),
            old(self).error_responses() >= 10 ==> r == Err::<(), EdgeCaseError>(EdgeCaseError::ErrorLoop)
                && final(self).error_responses() == old(self).error_responses(),
            old(self).error_responses() < 10 && error_code > 255 ==> r == Err::<(), EdgeCaseError>(
                EdgeCaseError::UnknownError,
            ) && final(self).error_responses() == old(self).error_responses(),
            old(self).error_responses() < 10 && error_code <= 255 ==> r is Ok && final(self).error_responses()
                == old(self).error_responses() + 1,
    {
        self.edge_cases_handled = self.edge_cases_handled.wrapping_add(1);
        let error_count = self.error_response_count;
        if error_count >= EdgeCaseConstants::MAX_ERROR_RESPONSES as u64 {
            return Err(EdgeCaseError::ErrorLoop);
        }
        if error_code > 255 {
            return Err(EdgeCaseError::UnknownError);
        }
        self.error_response_count = self.error_response_count + 1;
        Ok(())
    }

    /// Starts tracking a session in its initial state (replacing one tracked
    /// under the same identifier) and counts a connection (wrapping).
    pub fn add_session(&mut self, session_id: SessionId)
        ensures
            final(self).sessions() == old(self).sessions().insert(session_id.0, fresh_session(session_id)),
            final(self).connections() == vstd::wrapping::usize_specs::wrapping_add(old(self).connections(), 1),
            final(self).handled() == old(self).handled(),
            final(self).buffers() == old(self).buffers(),
            final(self).recovery() == old(self).recovery(),
            final(self).resources() == old(self).resources(),
    {
        let state = SessionState::new(session_id);
        sessions_insert(&mut self.sessions, session_id.as_u64(), state);
        self.active_connections = self.active_connections.wrapping_add(1);
    }

    /// Stops tracking a session; a connection is uncounted (wrapping) when it was tracked.
    pub fn remove_session(&mut self, session_id: SessionId)
        ensures
            final(self).sessions() == old(self).sessions().remove(session_id.0),
            final(self).connections() == (if old(self).sessions().contains_key(session_id.0) {
                vstd::wrapping::usize_specs::wrapping_sub(old(self).connections(), 1)
            } else {
                old(self).connections()
            }),
            final(self).handled() == old(self).handled(),
            final(self).buffers() == old(self).buffers(),
            final(self).recovery() == old(self).recovery(),
            final(self).resources() == old(self).resources(),
    {
        if sessions_remove(&mut self.sessions, session_id.as_u64()) {
            self.active_connections = self.active_connections.wrapping_sub(1);
        }
    }

    pub fn set_system_shutdown(&mut self, shutdown: bool)
        ensures
            final(self).shutdown() == shutdown,
            final(self).sessions() == old(self).sessions(),
            final(self).connections() == old(self).connections(),
            final(self).handled() == old(self).handled(),
            final(self).resources() == old(self).resources(),
    {
        self.system_shutdown = if shutdown { 1 } else { 0 };
    }

    pub fn update_memory_usage(&mut self, usage: usize)
        ensures
            final(self).resources() == (usage, old(self).resources().1, old(self).resources().2, old(self).resources().3),
            final(self).sessions() == old(self).sessions(),
            final(self).handled() == old(self).handled(),
    {
        self.memory_usage = usage;
    }

    pub fn update_send_buffer_usage(&mut self, usage: usize)
        ensures
            final(self).resources() == (old(self).resources().0, usage, old(self).resources().2, old(self).resources().3),
            final(self).sessions() == old(self).sessions(),
            final(self).handled() == old(self).handled(),
    {
        self.send_buffer_usage = usage;
    }

    pub fn update_receive_buffer_usage(&mut self, usage: usize)
        ensures
            final(self).resources() == (old(self).resources().0, old(self).resources().1, usage, old(self).resources().3),
            final(self).sessions() == old(self).sessions(),
            final(self).handled() == old(self).handled(),
    {
        self.receive_buffer_usage = usage;
    }

    pub fn update_file_descriptor_count(&mut self, count: usize)
        ensures
            final(self).resources() == (old(self).resources().0, old(self).resources().1, old(self).resources().2, count),
            final(self).sessions() == old(self).sessions(),
            final(self).handled() == old(self).handled(),
    {
        self.open_file_descriptors = count;
    }

    pub fn get_edge_cases_handled(&self) -> (r: u64)
        ensures
            r == self.handled(),
    {
        self.edge_cases_handled
    }

    pub fn get_boundary_conditions_detected(&self) -> (r: u64)
        ensures
            r == self.detected(),
    {
        self.boundary_conditions_detected
    }

    pub fn get_active_connections(&self) -> (r: usize)
        ensures
            r == self.connections(),
    {
        self.active_connections
    }

    /// Checks a fragment received at `now_ms`: its index must be below its
    /// count, the count at most the most fragments allowed; a buffer for its
    /// identifier must belong to the same sequence number (else it is
    /// dropped), and a fragment received again must be identical (then it is
    /// accepted at once); a last fragment must not be empty; a buffer past its
    /// timeout with nothing received is dropped; then room is made for a new
    /// buffer. Counts the check.
    pub fn handle_fragmentation_edge_cases_at(
        &mut self,
        fragment_id: FragmentId,
        fragment_index: u16,
        fragment_count: u16,
        sequence_number: SequenceNumber,
        fragment_data: &[u8],
        now_ms: u64,
    ) -> (r: Result<(), EdgeCaseError>)
        ensures
            fragmentation_outcome(*old(self), *final(self), fragment_id, fragment_index, fragment_count, sequence_number, fragment_data@, now_ms, r),
    {
        self.edge_cases_handled = self.edge_cases_handled.wrapping_add(1);
        if fragment_index >= fragment_count {
            return Err(EdgeCaseError::FragmentIndexOutOfBounds);
        }
        if fragment_count > EdgeCaseConstants::MAX_FRAGMENTS {
            return Err(EdgeCaseError::TooManyFragments);
        }
        let key = fragment_id.as_u16() as u32;
        if let Some((seq, _, _)) = buffers_meta(&self.active_reassembly_buffers, key) {
            if seq != sequence_number.as_u32() {
                self.cleanup_reassembly_buffer(key);
                return Err(EdgeCaseError::FragmentIdCollision);
            }
            if let Some(existing_fragment) = buffer_fragment(&self.active_reassembly_buffers, key, fragment_index) {
                if !bytes_equal(existing_fragment.as_slice(), fragment_data) {
                    return Err(EdgeCaseError::FragmentDataMismatch);
                }
                return Ok(());
            }
        }
        if fragment_index == fragment_count - 1 && fragment_data.len() == 0 {
            return Err(EdgeCaseError::EmptyFinalFragment);
        }
        if let Some((_, timeout, received_count)) = buffers_meta(&self.active_reassembly_buffers, key) {
            if now_ms >= timeout {
                if received_count == 0 {
                    self.cleanup_reassembly_buffer(key);
                    return Err(EdgeCaseError::FragmentTimeout);
                }
            }
        }
        self.handle_fragment_memory_exhaustion()
    }

    /// Checks a fragment at the current time, as `handle_fragmentation_edge_cases_at` does.
    pub fn handle_fragmentation_edge_cases(
        &mut self,
        fragment_id: FragmentId,
        fragment_index: u16,
        fragment_count: u16,
        sequence_number: SequenceNumber,
        fragment_data: &[u8],
    ) -> (r: Result<(), EdgeCaseError>)
        ensures
            exists|now_ms: u64| fragmentation_outcome(
                *old(self),
                *final(self),
                fragment_id,
                fragment_index,
                fragment_count,
                sequence_number,
                fragment_data@,
                now_ms,
                r,
            ),
    {
        let now_ms = Timestamp::now().as_millis();
        self.handle_fragmentation_edge_cases_at(fragment_id, fragment_index, fragment_count, sequence_number, fragment_data, now_ms)
    }

    /// At the most reassemblies allowed, drops the buffer that times out
    /// first (refused when none times out before the end of time).
    fn handle_fragment_memory_exhaustion(&mut self) -> (r: Result<(), EdgeCaseError>)
        ensures
            final(self).handled() == old(self).handled(),
            final(self).sessions() == old(self).sessions(),
            final(self).recovery() == old(self).recovery(),
            final(self).connections() == old(self).connections(),
            final(self).resources() == old(self).resources(),
            room_made(old(self).buffers(), final(self).buffers(), r),
    {
        if buffers_len(&self.active_reassembly_buffers) >= EdgeCaseConstants::MAX_CONCURRENT_REASSEMBLIES {
            let entries = buffers_timeouts(&self.active_reassembly_buffers);
            let ghost b = self.buffers();
            let mut oldest_id: Option<u32> = None;
            let mut oldest_timeout: u64 = u64::MAX;
            let mut i: usize = 0;
            while i < entries.len()
                invariant
                    i <= entries@.len(),
                    b == self.buffers(),
                    entries@.len() == b.len(),
                    forall|j: int| 0 <= j < entries@.len() ==> b.contains_key(#[trigger] entries@[j].0) && b[entries@[j].0].timeout.0 == entries@[j].1,
                    forall|j: int| 0 <= j < i ==> oldest_timeout <= #[trigger] entries@[j].1,
                    oldest_id matches Some(id) ==> b.contains_key(id) && b[id].timeout.0 == oldest_timeout,
                    oldest_id is None ==> oldest_timeout == u64::MAX,
                    oldest_id is Some ==> oldest_timeout < u64::MAX,
                decreases entries@.len() - i,
            {
                let (id, timeout) = entries[i];
                if timeout < oldest_timeout {
                    oldest_timeout = timeout;
                    oldest_id = Some(id);
                }
                i = i + 1;
            }
            proof {
                assert forall|k: u32| #[trigger] b.contains_key(k) implies oldest_timeout <= b[k].timeout.0 by {
                    let j = choose|j: int| 0 <= j < entries@.len() && entries@[j].0 == k;
                    assert(oldest_timeout <= entries@[j].1);
                }
            }
            if let Some(id) = oldest_id {
                self.cleanup_reassembly_buffer(id);
                proof {
                    assert(b.contains_key(id) && b[id].timeout.0 < u64::MAX);
                    assert(b.contains_key(id) && (forall|k: u32| #[trigger] b.contains_key(k) ==> b[id].timeout.0 <= b[k].timeout.0)
                        && self.buffers() == b.remove(id));
                }
                return Ok(());
            }
            proof {
                assert forall|k: u32| #[trigger] b.contains_key(k) implies !(b[k].timeout.0 < u64::MAX) by {
                    let j = choose|j: int| 0 <= j < entries@.len() && entries@[j].0 == k;
                    assert(oldest_timeout <= entries@[j].1);
                }
            }
            return Err(EdgeCaseError::MemoryExhausted);
        }
        Ok(())
    }

    /// Drops the buffer of a fragment identifier.
    fn cleanup_reassembly_buffer(&mut self, fragment_id: u32)
        ensures
            final(self).buffers() == old(self).buffers().remove(fragment_id),
            final(self).handled() == old(self).handled(),
            final(self).sessions() == old(self).sessions(),
            final(self).recovery() == old(self).recovery(),
            final(self).connections() == old(self).connections(),
            final(self).resources() == old(self).resources(),
    {
        buffers_remove(&mut self.active_reassembly_buffers, fragment_id);
    }

    /// Drops, at `now_ms`, the buffers past their timeout, and forgets the
    /// error answers given.
    pub fn cleanup_expired_entries_at(&mut self, now_ms: u64)
        ensures
            buffers_cleanup_outcome(*old(self), *final(self), now_ms),
    {
        let entries = buffers_timeouts(&self.active_reassembly_buffers);
        let ghost b = self.buffers();
        let mut expired_ids: Vec<u32> = Vec::new();
        let mut i: usize = 0;
        while i < entries.len()
            invariant
                i <= entries@.len(),
                b == self.buffers(),
                b == old(self).buffers(),
                forall|k: u32| #[trigger] b.contains_key(k) ==> exists|j: int| 0 <= j < entries@.len() && entries@[j].0 == k,
                forall|j: int| 0 <= j < entries@.len() ==> b.contains_key(#[trigger] entries@[j].0) && b[entries@[j].0].timeout.0 == entries@[j].1,
                forall|j: int| 0 <= j < expired_ids@.len() ==> b.contains_key(#[trigger] expired_ids@[j]) && now_ms >= b[expired_ids@[j]].timeout.0,
                forall|j: int| 0 <= j < i && now_ms >= #[trigger] entries@[j].1 ==> expired_ids@.contains(entries@[j].0),
            decreases entries@.len() - i,
        {
            let (id, timeout) = entries[i];
            if now_ms >= timeout {
                let ghost prev = expired_ids@;
                expired_ids.push(id);
                proof {
                    assert forall|j: int| 0 <= j < i && now_ms >= #[trigger] entries@[j].1 implies expired_ids@.contains(entries@[j].0) by {
                        assert(prev.contains(entries@[j].0));
                        let w = choose|w: int| 0 <= w < prev.len() && prev[w] == entries@[j].0;
                        assert(expired_ids@[w] == entries@[j].0);
                    }
                    assert(expired_ids@[expired_ids@.len() - 1] == id);
                }
            }
            i = i + 1;
        }
        let n = expired_ids.len();
        let mut w: usize = 0;
        while w < n
            invariant
                w <= n,
                n == expired_ids@.len(),
                forall|j: int| 0 <= j < expired_ids@.len() ==> b.contains_key(#[trigger] expired_ids@[j]) && now_ms >= b[expired_ids@[j]].timeout.0,
                forall|k: u32| #[trigger] self.buffers().contains_key(k) <==> b.contains_key(k) && !exists|v: int| 0 <= v < w && #[trigger] expired_ids@[v] == k,
                forall|k: u32| #[trigger] self.buffers().contains_key(k) ==> self.buffers()[k] == b[k],
                b == old(self).buffers(),
                forall|k: u32| #[trigger] b.contains_key(k) ==> exists|j: int| 0 <= j < entries@.len() && entries@[j].0 == k,
                forall|j: int| 0 <= j < entries@.len() ==> b.contains_key(#[trigger] entries@[j].0) && b[entries@[j].0].timeout.0 == entries@[j].1,
                forall|j: int| 0 <= j < entries@.len() && now_ms >= #[trigger] entries@[j].1 ==> expired_ids@.contains(entries@[j].0),
                self.handled() == old(self).handled(),
                self.sessions() == old(self).sessions(),
                self.recovery() == old(self).recovery(),
                self.connections() == old(self).connections(),
                self.resources() == old(self).resources(),
            decreases n - w,
        {
            let id = expired_ids[w];
            self.cleanup_reassembly_buffer(id);
            proof {
                assert forall|k2: u32| #[trigger] self.buffers().contains_key(k2) <==> b.contains_key(k2)
                    && !exists|v: int| 0 <= v < w + 1 && #[trigger] expired_ids@[v] == k2 by {
                    if exists|v: int| 0 <= v < w + 1 && #[trigger] expired_ids@[v] == k2 {
                        let v = choose|v: int| 0 <= v < w + 1 && #[trigger] expired_ids@[v] == k2;
                        if v == w {
                            assert(k2 == id);
                        }
                    }
                }
            }
            w = w + 1;
        }
        proof {
            assert(w == n);
            assert forall|k: u32| b.contains_key(k) && now_ms >= b[k].timeout.0 implies !#[trigger] self.buffers().contains_key(k) by {
                let j = choose|j: int| 0 <= j < entries@.len() && entries@[j].0 == k;
                assert(now_ms >= entries@[j].1);
                assert(expired_ids@.contains(k));
                let v = choose|v: int| 0 <= v < expired_ids@.len() && expired_ids@[v] == k;
                assert(0 <= v < w && expired_ids@[v] == k);
            }
            assert forall|k: u32| b.contains_key(k) && now_ms < b[k].timeout.0 implies #[trigger] self.buffers().contains_key(k) by {
                assert forall|v: int| 0 <= v < w implies #[trigger] expired_ids@[v] != k by {
                    assert(now_ms >= b[expired_ids@[v]].timeout.0);
                }
            }
        }
        let ghost before_reset = self.buffers();
        self.error_response_count = 0;
        assert(self.buffers() == before_reset);
    }

    /// Drops the expired buffers at the current time, as `cleanup_expired_entries_at` does.
    pub fn cleanup_expired_entries(&mut self)
        ensures
            exists|now_ms: u64| buffers_cleanup_outcome(*old(self), *final(self), now_ms),
    {
        let now_ms = Timestamp::now().as_millis();
        self.cleanup_expired_entries_at(now_ms);
    }
}


impl Default for EdgeCaseHandler {
    /// The same handler as `new` gives.
    fn default() -> (r: EdgeCaseHandler)
        ensures
            r.sessions().is_empty(),
            r.buffers().is_empty(),
            r.handled() == 0,
    {
        EdgeCaseHandler::new()
    }
}

} // verus!
