//! Identifiers, counters, times and small protocol values carried in packets.
use vstd::prelude::*;
use crate::types::{spec_tag_size, HmacPolicy, SessionIdLength, TimestampConfig};

verus! {

/// Session identifier (up to 64 bits are carried).
#[derive(Clone, Copy, Debug, PartialEq, Eq, Hash, Structural)]
pub struct SessionId(pub u64);

impl SessionId {
    pub fn new(v: u64) -> (r: SessionId)
        ensures
            r.0 == v,
    {
        SessionId(v)
    }

    /// A session identifier for a given wire width (the value is kept as given).
    pub fn new_with_length(v: u64, length: SessionIdLength) -> (r: SessionId)
        ensures
            r.0 == v,
    {
        SessionId(v)
    }

    pub fn as_u64(self) -> (r: u64)
        ensures
            r == self.0,
    {
        self.0
    }

    pub fn as_raw(self) -> (r: u64)
        ensures
            r == self.0,
    {
        self.0
    }

    /// Zero is reserved and names no session.
    pub fn is_valid(self) -> (r: bool)
        ensures
            r == (self.0 != 0),
    {
        self.0 != 0
    }
}

/// Packet sequence number.
#[derive(Clone, Copy, Debug, PartialEq, Eq, Hash, Structural)]
pub struct SequenceNumber(pub u32);

impl SequenceNumber {
    pub fn new(v: u32) -> (r: SequenceNumber)
        ensures
            r.0 == v,
    {
        SequenceNumber(v)
    }

    pub fn as_u32(self) -> (r: u32)
        ensures
            r == self.0,
    {
        self.0
    }

    /// Every 32-bit value is a sequence number.
    pub fn is_valid(self) -> (r: bool)
        ensures
            r,
    {
        true
    }

    pub fn to_be_bytes(self) -> (r: [u8; 4])
        ensures
            r@ == crate::codec::be_encode(self.0 as nat, 4),
    {
        let mut b = [0u8; 4];
        crate::codec::write_be(&mut b, 0, self.0 as u64, 4);
        proof {
            crate::codec::lemma_be_encode_len(self.0 as nat, 4);
        }
        b
    }
}

/// Acknowledgment number.
#[derive(Clone, Copy, Debug, PartialEq, Eq, Hash, Structural)]
pub struct AckNumber(pub u32);

impl AckNumber {
    pub fn new(v: u32) -> (r: AckNumber)
        ensures
            r.0 == v,
    {
        AckNumber(v)
    }

    pub fn as_u32(self) -> (r: u32)
        ensures
            r == self.0,
    {
        self.0
    }

    pub fn to_be_bytes(self) -> (r: [u8; 4])
        ensures
            r@ == crate::codec::be_encode(self.0 as nat, 4),
    {
        let mut b = [0u8; 4];
        crate::codec::write_be(&mut b, 0, self.0 as u64, 4);
        proof {
            crate::codec::lemma_be_encode_len(self.0 as nat, 4);
        }
        b
    }
}

/// A point in time, in nanoseconds.
#[derive(Clone, Copy, Debug, PartialEq, Eq, Hash, Structural)]
pub struct Timestamp(pub u64);

impl Timestamp {
    /// The current time of the system clock.
    #[verifier::external_body]
    pub fn now() -> Timestamp {
        Timestamp(
            std::time::SystemTime::now().duration_since(std::time::UNIX_EPOCH).map(|d| d.as_nanos() as u64).unwrap_or(0),
        )
    }

    pub fn from_nanos(v: u64) -> (r: Timestamp)
        ensures
            r.0 == v,
    {
        Timestamp(v)
    }

    /// Milliseconds, saturating at the largest representable time.
    pub fn from_millis(ms: u64) -> (r: Timestamp)
        ensures
            r.0 == (if ms * 1_000_000 <= u64::MAX { ms * 1_000_000 } else { u64::MAX as int }),
    {
        if ms <= u64::MAX / 1_000_000 {
            Timestamp(ms * 1_000_000)
        } else {
            Timestamp(u64::MAX)
        }
    }

    pub fn as_nanos(self) -> (r: u64)
        ensures
            r == self.0,
    {
        self.0
    }

    pub fn as_u64(self) -> (r: u64)
        ensures
            r == self.0,
    {
        self.0
    }

    pub fn as_millis(self) -> (r: u64)
        ensures
            r == self.0 / 1_000_000,
    {
        self.0 / 1_000_000
    }
}

/// Payload length field.
#[derive(Clone, Copy, Debug, PartialEq, Eq, Hash, Structural)]
pub struct PayloadLength(pub u16);

impl PayloadLength {
    pub fn new(v: u16) -> (r: PayloadLength)
        ensures
            r.0 == v,
    {
        PayloadLength(v)
    }

    pub fn as_u16(self) -> (r: u16)
        ensures
            r == self.0,
    {
        self.0
    }
}

/// Protocol version carried in connection packets.
#[derive(Clone, Copy, Debug, PartialEq, Eq, Hash, Structural)]
pub struct ProtocolVersion(pub u8);

impl ProtocolVersion {
    pub fn new(v: u8) -> (r: ProtocolVersion)
        ensures
            r.0 == v,
    {
        ProtocolVersion(v)
    }

    pub fn as_u8(self) -> (r: u8)
        ensures
            r == self.0,
    {
        self.0
    }
}

/// Which epoch a packet's port hopping follows.
#[derive(Clone, Copy, Debug, PartialEq, Eq, Hash, Structural)]
pub enum EpochType {
    Daily,
    Monthly,
    Standard,
}

/// Flow-control window size.
#[derive(Clone, Copy, Debug, PartialEq, Eq, Hash, Structural)]
pub struct WindowSize(pub u32);

impl WindowSize {
    pub fn new(v: u32) -> (r: WindowSize)
        ensures
            r.0 == v,
    {
        WindowSize(v)
    }

    pub fn as_u32(self) -> (r: u32)
        ensures
            r == self.0,
    {
        self.0
    }
}

/// Identifier shared by the fragments of one packet.
#[derive(Clone, Copy, Debug, PartialEq, Eq, Hash, Structural)]
pub struct FragmentId(pub u16);

impl FragmentId {
    pub fn new(v: u16) -> (r: FragmentId)
        ensures
            r.0 == v,
    {
        FragmentId(v)
    }

    pub fn as_u16(self) -> (r: u16)
        ensures
            r == self.0,
    {
        self.0
    }
}

/// Zero-based position of a fragment.
#[derive(Clone, Copy, Debug, PartialEq, Eq, Hash, Structural)]
pub struct FragmentIndex(pub u16);

impl FragmentIndex {
    pub fn new(v: u16) -> (r: FragmentIndex)
        ensures
            r.0 == v,
    {
        FragmentIndex(v)
    }

    pub fn as_u16(self) -> (r: u16)
        ensures
            r == self.0,
    {
        self.0
    }

    pub fn as_usize(self) -> (r: usize)
        ensures
            r == self.0,
    {
        self.0 as usize
    }
}

/// Number of fragments of a packet.
#[derive(Clone, Copy, Debug, PartialEq, Eq, Hash, Structural)]
pub struct FragmentCount(pub u16);

impl FragmentCount {
    pub fn new(v: u16) -> (r: FragmentCount)
        ensures
            r.0 == v,
    {
        FragmentCount(v)
    }

    pub fn as_u16(self) -> (r: u16)
        ensures
            r == self.0,
    {
        self.0
    }

    pub fn as_usize(self) -> (r: usize)
        ensures
            r == self.0,
    {
        self.0 as usize
    }
}

/// Size of a fragment in bytes.
#[derive(Clone, Copy, Debug, PartialEq, Eq, Hash, Structural)]
pub struct FragmentSize(pub u16);

impl FragmentSize {
    pub fn new(v: u16) -> (r: FragmentSize)
        ensures
            r.0 == v,
    {
        FragmentSize(v)
    }

    pub fn from_raw(v: u16) -> (r: FragmentSize)
        ensures
            r.0 == v,
    {
        FragmentSize(v)
    }

    pub fn as_u16(self) -> (r: u16)
        ensures
            r == self.0,
    {
        self.0
    }

    pub fn as_usize(self) -> (r: usize)
        ensures
            r == self.0,
    {
        self.0 as usize
    }
}

/// Why a connection was closed.
#[derive(Clone, Copy, Debug, PartialEq, Eq, Hash, Structural)]
pub enum TerminationReason {
    Normal,
    Timeout,
    ProtocolError,
    UserRequest,
    ResourceExhaustion,
}

pub open spec fn termination_code(r: TerminationReason) -> u8 {
    match r {
        TerminationReason::Normal => 0,
        TerminationReason::Timeout => 1,
        TerminationReason::ProtocolError => 2,
        TerminationReason::UserRequest => 3,
        TerminationReason::ResourceExhaustion => 4,
    }
}

pub open spec fn termination_of_code(b: u8) -> Option<TerminationReason> {
    if b == 0 {
        Some(TerminationReason::Normal)
    } else if b == 1 {
        Some(TerminationReason::Timeout)
    } else if b == 2 {
        Some(TerminationReason::ProtocolError)
    } else if b == 3 {
        Some(TerminationReason::UserRequest)
    } else if b == 4 {
        Some(TerminationReason::ResourceExhaustion)
    } else {
        None
    }
}

impl TerminationReason {
    pub fn as_u8(self) -> (r: u8)
        ensures
            r == termination_code(self),
    {
        match self {
            TerminationReason::Normal => 0,
            TerminationReason::Timeout => 1,
            TerminationReason::ProtocolError => 2,
            TerminationReason::UserRequest => 3,
            TerminationReason::ResourceExhaustion => 4,
        }
    }

    pub fn from_u8(b: u8) -> (r: Option<TerminationReason>)
        ensures
            r == termination_of_code(b),
    {
        if b == 0 {
            Some(TerminationReason::Normal)
        } else if b == 1 {
            Some(TerminationReason::Timeout)
        } else if b == 2 {
            Some(TerminationReason::ProtocolError)
        } else if b == 3 {
            Some(TerminationReason::UserRequest)
        } else if b == 4 {
            Some(TerminationReason::ResourceExhaustion)
        } else {
            None
        }
    }
}

/// Why a connection was reset.
#[derive(Clone, Copy, Debug, PartialEq, Eq, Hash, Structural)]
pub enum ResetReason {
    ProtocolError,
    AuthenticationFailure,
    InvalidState,
    ResourceExhaustion,
    SecurityViolation,
}

pub open spec fn reset_code(r: ResetReason) -> u8 {
    match r {
        ResetReason::ProtocolError => 0,
        ResetReason::AuthenticationFailure => 1,
        ResetReason::InvalidState => 2,
        ResetReason::ResourceExhaustion => 3,
        ResetReason::SecurityViolation => 4,
    }
}

pub open spec fn reset_of_code(b: u8) -> Option<ResetReason> {
    if b == 0 {
        Some(ResetReason::ProtocolError)
    } else if b == 1 {
        Some(ResetReason::AuthenticationFailure)
    } else if b == 2 {
        Some(ResetReason::InvalidState)
    } else if b == 3 {
        Some(ResetReason::ResourceExhaustion)
    } else if b == 4 {
        Some(ResetReason::SecurityViolation)
    } else {
        None
    }
}

impl ResetReason {
    pub fn as_u8(self) -> (r: u8)
        ensures
            r == reset_code(self),
    {
        match self {
            ResetReason::ProtocolError => 0,
            ResetReason::AuthenticationFailure => 1,
            ResetReason::InvalidState => 2,
            ResetReason::ResourceExhaustion => 3,
            ResetReason::SecurityViolation => 4,
        }
    }

    pub fn from_u8(b: u8) -> (r: Option<ResetReason>)
        ensures
            r == reset_of_code(b),
    {
        if b == 0 {
            Some(ResetReason::ProtocolError)
        } else if b == 1 {
            Some(ResetReason::AuthenticationFailure)
        } else if b == 2 {
            Some(ResetReason::InvalidState)
        } else if b == 3 {
            Some(ResetReason::ResourceExhaustion)
        } else if b == 4 {
            Some(ResetReason::SecurityViolation)
        } else {
            None
        }
    }
}

/// Protocol error code.
#[derive(Clone, Copy, Debug, PartialEq, Eq, Hash, Structural)]
pub struct ErrorCode(pub u8);

impl ErrorCode {
    pub fn new(v: u8) -> (r: ErrorCode)
        ensures
            r.0 == v,
    {
        ErrorCode(v)
    }

    /// Every byte is an error code.
    pub fn from_u8(v: u8) -> (r: Option<ErrorCode>)
        ensures
            r == Some(ErrorCode(v)),
    {
        Some(ErrorCode(v))
    }

    pub fn as_u8(self) -> (r: u8)
        ensures
            r == self.0,
    {
        self.0
    }
}

/// Sequence number of a heartbeat.
#[derive(Clone, Copy, Debug, PartialEq, Eq, Hash, Structural)]
pub struct HeartbeatSequence(pub u32);

impl HeartbeatSequence {
    pub fn new(v: u32) -> (r: HeartbeatSequence)
        ensures
            r.0 == v,
    {
        HeartbeatSequence(v)
    }

    pub fn as_u32(self) -> (r: u32)
        ensures
            r == self.0,
    {
        self.0
    }
}

/// Round-trip time, in nanoseconds.
#[derive(Clone, Copy, Debug, PartialEq, Eq, Hash, Structural)]
pub struct RoundTripTime(pub u64);

impl RoundTripTime {
    pub fn new(nanos: u64) -> (r: RoundTripTime)
        ensures
            r.0 == nanos,
    {
        RoundTripTime(nanos)
    }

    pub fn from_nanos(nanos: u64) -> (r: RoundTripTime)
        ensures
            r.0 == nanos,
    {
        RoundTripTime(nanos)
    }

    /// Milliseconds, saturating at the largest representable time.
    pub fn from_millis(ms: u64) -> (r: RoundTripTime)
        ensures
            r.0 == (if ms * 1_000_000 <= u64::MAX { ms * 1_000_000 } else { u64::MAX as int }),
    {
        if ms <= u64::MAX / 1_000_000 {
            RoundTripTime(ms * 1_000_000)
        } else {
            RoundTripTime(u64::MAX)
        }
    }

    pub fn as_nanos(self) -> (r: u64)
        ensures
            r == self.0,
    {
        self.0
    }

    pub fn as_millis(self) -> (r: u64)
        ensures
            r == self.0 / 1_000_000,
    {
        self.0 / 1_000_000
    }
}

/// Time synchronization quality requirement.
#[derive(Clone, Copy, Debug, PartialEq, Eq, Hash, Structural)]
pub struct SyncQuality(pub u8);

impl SyncQuality {
    pub fn new(v: u8) -> (r: SyncQuality)
        ensures
            r.0 == v,
    {
        SyncQuality(v)
    }

    pub fn as_u8(self) -> (r: u8)
        ensures
            r == self.0,
    {
        self.0
    }
}

/// Clock drift, in parts per million.
#[derive(Clone, Copy, Debug, PartialEq, Eq, Hash, Structural)]
pub struct TimeDrift(pub i32);

impl TimeDrift {
    pub fn new(v: i32) -> (r: TimeDrift)
        ensures
            r.0 == v,
    {
        TimeDrift(v)
    }

    pub fn as_i32(self) -> (r: i32)
        ensures
            r == self.0,
    {
        self.0
    }
}

/// Measured network delay, in nanoseconds.
#[derive(Clone, Copy, Debug, PartialEq, Eq, Hash, Structural)]
pub struct NetworkDelay(pub u64);

impl NetworkDelay {
    pub fn new(v: u64) -> (r: NetworkDelay)
        ensures
            r.0 == v,
    {
        NetworkDelay(v)
    }

    pub fn as_nanos(self) -> (r: u64)
        ensures
            r == self.0,
    {
        self.0
    }
}

/// Measured clock skew, in nanoseconds.
#[derive(Clone, Copy, Debug, PartialEq, Eq, Hash, Structural)]
pub struct ClockSkew(pub i64);

impl ClockSkew {
    pub fn new(v: i64) -> (r: ClockSkew)
        ensures
            r.0 == v,
    {
        ClockSkew(v)
    }

    pub fn as_i64(self) -> (r: i64)
        ensures
            r == self.0,
    {
        self.0
    }
}

/// Sequence negotiation flag bits.
#[derive(Clone, Copy, Debug, PartialEq, Eq, Hash, Structural)]
pub struct SequenceNegFlags(pub u8);

impl SequenceNegFlags {
    pub fn new(v: u8) -> (r: SequenceNegFlags)
        ensures
            r.0 == v,
    {
        SequenceNegFlags(v)
    }

    pub fn as_u8(self) -> (r: u8)
        ensures
            r == self.0,
    {
        self.0
    }
}

/// Why recovery was requested.
#[derive(Clone, Copy, Debug, PartialEq, Eq, Hash, Structural)]
pub enum RecoveryReason {
    TimeSync,
    SequenceGap,
    KeyMismatch,
    Timeout,
}

/// Escalation level of a recovery.
#[derive(Clone, Copy, Debug, PartialEq, Eq, Hash, Structural)]
pub enum RecoveryLevel {
    TimeSync,
    SequenceRepair,
    Rekey,
    FullReset,
}

pub open spec fn recovery_level_code(l: RecoveryLevel) -> u32 {
    match l {
        RecoveryLevel::TimeSync => 0,
        RecoveryLevel::SequenceRepair => 1,
        RecoveryLevel::Rekey => 2,
        RecoveryLevel::FullReset => 3,
    }
}

impl RecoveryLevel {
    pub fn as_u32(self) -> (r: u32)
        ensures
            r == recovery_level_code(self),
    {
        match self {
            RecoveryLevel::TimeSync => 0,
            RecoveryLevel::SequenceRepair => 1,
            RecoveryLevel::Rekey => 2,
            RecoveryLevel::FullReset => 3,
        }
    }
}

/// Nonce matching a recovery request to its answer.
#[derive(Clone, Copy, Debug, PartialEq, Eq, Hash, Structural)]
pub struct RecoveryNonce(pub u32);

impl RecoveryNonce {
    pub fn new(v: u32) -> (r: RecoveryNonce)
        ensures
            r.0 == v,
    {
        RecoveryNonce(v)
    }
}

/// Parameters of a recovery.
#[derive(Clone, Copy, Debug, PartialEq, Eq, Hash, Structural)]
pub struct RecoveryParams {
    pub level: RecoveryLevel,
}

impl RecoveryParams {
    pub fn new(level: RecoveryLevel) -> (r: RecoveryParams)
        ensures
            r.level == level,
    {
        RecoveryParams { level }
    }
}

/// Number of selective-acknowledgment blocks.
#[derive(Clone, Copy, Debug, PartialEq, Eq, Hash, Structural)]
pub struct SackBlockCount(pub u8);

impl SackBlockCount {
    pub fn new(v: u8) -> (r: SackBlockCount)
        ensures
            r.0 == v,
    {
        SackBlockCount(v)
    }

    pub fn as_u8(self) -> (r: u8)
        ensures
            r == self.0,
    {
        self.0
    }
}

/// Bitmap of recently received packets.
#[derive(Clone, Copy, Debug, PartialEq, Eq, Hash, Structural)]
pub struct SackBitmap(pub u32);

impl SackBitmap {
    pub fn new(v: u32) -> (r: SackBitmap)
        ensures
            r.0 == v,
    {
        SackBitmap(v)
    }

    pub fn as_u32(self) -> (r: u32)
        ensures
            r == self.0,
    {
        self.0
    }
}

/// A range of sequence numbers.
#[derive(Clone, Copy, Debug, PartialEq, Eq, Hash, Structural)]
pub struct SequenceRange {
    pub start: SequenceNumber,
    pub end: SequenceNumber,
}

impl SequenceRange {
    pub fn new(start: SequenceNumber, end: SequenceNumber) -> (r: SequenceRange)
        ensures
            r.start == start,
            r.end == end,
    {
        SequenceRange { start, end }
    }
}

/// A selectively acknowledged range.
pub type SackRange = SequenceRange;

/// Session configuration exchanged at connection setup.
#[derive(Clone, Copy, Debug, PartialEq, Eq, Hash, Structural)]
pub struct SessionConfig {
    pub session_id_length: SessionIdLength,
    pub timestamp_config: TimestampConfig,
    pub hmac_policy: HmacPolicy,
}

impl SessionConfig {
    /// 64-bit session identifiers, 32-bit timestamps, medium HMAC tags.
    pub fn default() -> (r: SessionConfig)
        ensures
            r.session_id_length == SessionIdLength::Bits64,
            r.timestamp_config == TimestampConfig::Bits32,
            r.hmac_policy == HmacPolicy::Medium,
    {
        SessionConfig {
            session_id_length: SessionIdLength::Bits64,
            timestamp_config: TimestampConfig::Bits32,
            hmac_policy: HmacPolicy::Medium,
        }
    }
}

/// Connection parameters exchanged at connection setup.
#[derive(Clone, Copy, Debug, PartialEq, Eq, Hash, Structural)]
pub struct ConnectionParams {
    pub window_size: u32,
    pub max_fragment_size: u16,
}

impl ConnectionParams {
    /// A 64 KiB window and 1400-byte fragments.
    pub fn default() -> (r: ConnectionParams)
        ensures
            r.window_size == 65535,
            r.max_fragment_size == 1400,
    {
        ConnectionParams { window_size: 65535, max_fragment_size: 1400 }
    }
}

/// Why a packet or packet field was refused.
#[derive(Clone, Debug, PartialEq, Eq)]
pub enum ValidationError {
    BufferTooSmall,
    InvalidLength,
    InvalidPacketType,
    InvalidProtocolVersion,
    InvalidSessionId,
    InvalidSequenceNumber,
    InvalidWindowSize,
    InvalidFragmentIndex,
    InvalidFragmentCount,
    InvalidPayloadLength,
    InvalidTerminationReason,
    InvalidResetReason,
    InvalidErrorCode,
    InvalidErrorDescription,
    InvalidHmacTag,
    MissingPublicKey,
    InvalidPublicKey,
    InvalidState,
    InvalidConfiguration,
    ReplayAttackDetected,
    UnsupportedFeature(String),
}

/// How a validation error reads: the name of its kind, or the feature that
/// is not supported.
pub open spec fn validation_text(e: ValidationError) -> Seq<char> {
    match e {
        ValidationError::BufferTooSmall => "BufferTooSmall"@,
        ValidationError::InvalidLength => "InvalidLength"@,
        ValidationError::InvalidPacketType => "InvalidPacketType"@,
        ValidationError::InvalidProtocolVersion => "InvalidProtocolVersion"@,
        ValidationError::InvalidSessionId => "InvalidSessionId"@,
        ValidationError::InvalidSequenceNumber => "InvalidSequenceNumber"@,
        ValidationError::InvalidWindowSize => "InvalidWindowSize"@,
        ValidationError::InvalidFragmentIndex => "InvalidFragmentIndex"@,
        ValidationError::InvalidFragmentCount => "InvalidFragmentCount"@,
        ValidationError::InvalidPayloadLength => "InvalidPayloadLength"@,
        ValidationError::InvalidTerminationReason => "InvalidTerminationReason"@,
        ValidationError::InvalidResetReason => "InvalidResetReason"@,
        ValidationError::InvalidErrorCode => "InvalidErrorCode"@,
        ValidationError::InvalidErrorDescription => "InvalidErrorDescription"@,
        ValidationError::InvalidHmacTag => "InvalidHmacTag"@,
        ValidationError::MissingPublicKey => "MissingPublicKey"@,
        ValidationError::InvalidPublicKey => "InvalidPublicKey"@,
        ValidationError::InvalidState => "InvalidState"@,
        ValidationError::InvalidConfiguration => "InvalidConfiguration"@,
        ValidationError::ReplayAttackDetected => "ReplayAttackDetected"@,
        ValidationError::UnsupportedFeature(f) => f@,
    }
}

impl ValidationError {
    /// How the error reads (see `validation_text`).
    pub fn description(&self) -> (r: String)
        ensures
            r@ == validation_text(*self),
    {
        proof {
            reveal_strlit("BufferTooSmall");
            reveal_strlit("InvalidLength");
            reveal_strlit("InvalidPacketType");
            reveal_strlit("InvalidProtocolVersion");
            reveal_strlit("InvalidSessionId");
            reveal_strlit("InvalidSequenceNumber");
            reveal_strlit("InvalidWindowSize");
            reveal_strlit("InvalidFragmentIndex");
            reveal_strlit("InvalidFragmentCount");
            reveal_strlit("InvalidPayloadLength");
            reveal_strlit("InvalidTerminationReason");
            reveal_strlit("InvalidResetReason");
            reveal_strlit("InvalidErrorCode");
            reveal_strlit("InvalidErrorDescription");
            reveal_strlit("InvalidHmacTag");
            reveal_strlit("MissingPublicKey");
            reveal_strlit("InvalidPublicKey");
            reveal_strlit("InvalidState");
            reveal_strlit("InvalidConfiguration");
            reveal_strlit("ReplayAttackDetected");
        }
        match self {
            ValidationError::BufferTooSmall => "BufferTooSmall".to_owned(),
            ValidationError::InvalidLength => "InvalidLength".to_owned(),
            ValidationError::InvalidPacketType => "InvalidPacketType".to_owned(),
            ValidationError::InvalidProtocolVersion => "InvalidProtocolVersion".to_owned(),
            ValidationError::InvalidSessionId => "InvalidSessionId".to_owned(),
            ValidationError::InvalidSequenceNumber => "InvalidSequenceNumber".to_owned(),
            ValidationError::InvalidWindowSize => "InvalidWindowSize".to_owned(),
            ValidationError::InvalidFragmentIndex => "InvalidFragmentIndex".to_owned(),
            ValidationError::InvalidFragmentCount => "InvalidFragmentCount".to_owned(),
            ValidationError::InvalidPayloadLength => "InvalidPayloadLength".to_owned(),
            ValidationError::InvalidTerminationReason => "InvalidTerminationReason".to_owned(),
            ValidationError::InvalidResetReason => "InvalidResetReason".to_owned(),
            ValidationError::InvalidErrorCode => "InvalidErrorCode".to_owned(),
            ValidationError::InvalidErrorDescription => "InvalidErrorDescription".to_owned(),
            ValidationError::InvalidHmacTag => "InvalidHmacTag".to_owned(),
            ValidationError::MissingPublicKey => "MissingPublicKey".to_owned(),
            ValidationError::InvalidPublicKey => "InvalidPublicKey".to_owned(),
            ValidationError::InvalidState => "InvalidState".to_owned(),
            ValidationError::InvalidConfiguration => "InvalidConfiguration".to_owned(),
            ValidationError::ReplayAttackDetected => "ReplayAttackDetected".to_owned(),
            ValidationError::UnsupportedFeature(f) => f.clone(),
        }
    }
}

/// Outcome of a validation that produces a value.
#[derive(Clone, Debug, PartialEq, Eq)]
pub enum ValidationResult<T> {
    Valid(T),
    Invalid(ValidationError),
}

/// An HMAC tag and the policy it was made under.
#[derive(Clone, Debug, PartialEq, Eq)]
pub struct HmacTag {
    pub data: Vec<u8>,
    pub policy: HmacPolicy,
}

impl HmacTag {
    /// A tag of the length that the policy prescribes.
    pub fn new(data: Vec<u8>, policy: HmacPolicy) -> (r: Result<HmacTag, ValidationError>)
        ensures
            data@.len() == spec_tag_size(policy) ==> (r matches Ok(t) && t.data@ == data@ && t.policy
                == policy),
            data@.len() != spec_tag_size(policy) ==> r == Err::<HmacTag, ValidationError>(
                ValidationError::InvalidHmacTag,
            ),
    {
        if data.len() == policy.tag_size() {
            Ok(HmacTag { data, policy })
        } else {
            Err(ValidationError::InvalidHmacTag)
        }
    }

    /// Sixteen zero bytes under the medium policy.
    pub fn default() -> (r: HmacTag)
        ensures
            r.data@ == Seq::new(16, |i: int| 0u8),
            r.policy == HmacPolicy::Medium,
    {
        let data = vec![0u8; 16];
        proof {
            assert(data@ =~= Seq::new(16, |i: int| 0u8));
        }
        HmacTag { data, policy: HmacPolicy::Medium }
    }

    pub fn data(&self) -> (r: &[u8])
        ensures
            r@ == self.data@,
    {
        self.data.as_slice()
    }

    pub fn policy(&self) -> (r: HmacPolicy)
        ensures
            r == self.policy,
    {
        self.policy
    }
}

/// An elliptic-curve public key (uncompressed point, 64 bytes).
#[derive(Clone, Copy, Debug, PartialEq, Eq)]
pub struct EcdhPublicKey(pub [u8; 64]);

impl EcdhPublicKey {
    pub fn new(bytes: [u8; 64]) -> (r: EcdhPublicKey)
        ensures
            r.0 == bytes,
    {
        EcdhPublicKey(bytes)
    }

    pub fn as_bytes(&self) -> (r: &[u8; 64])
        ensures
            *r == self.0,
    {
        &self.0
    }
}


/// Security level asked for with an HMAC policy change.
#[derive(Clone, Copy, Debug, PartialEq, Eq, Hash, Structural)]
pub enum SecurityLevel {
    Standard,
    High,
    Maximum,
}

/// Why an HMAC policy change is asked for.
#[derive(Clone, Copy, Debug, PartialEq, Eq, Hash, Structural)]
pub enum PolicyChangeReason {
    SecurityUpgrade,
    PerformanceOptimization,
    ThreatDetected,
    PeerRequest,
}

/// Answer to an HMAC policy change.
#[derive(Clone, Copy, Debug, PartialEq, Eq, Hash, Structural)]
pub enum PolicyChangeResult {
    Accepted,
    Rejected,
    Deferred,
}

/// Challenge of a discovery exchange.
#[derive(Clone, Copy, Debug, PartialEq, Eq)]
pub struct DiscoveryChallenge(pub [u8; 32]);

impl DiscoveryChallenge {
    pub fn new(bytes: [u8; 32]) -> (r: DiscoveryChallenge)
        ensures
            r.0 == bytes,
    {
        DiscoveryChallenge(bytes)
    }

    pub fn as_bytes(&self) -> (r: &[u8; 32])
        ensures
            *r == self.0,
    {
        &self.0
    }
}

/// Bloom filter over the pre-shared keys a peer holds.
#[derive(Clone, Debug)]
pub struct BloomFilter {
    pub bits: Vec<u8>,
    pub hash_functions: HashFunctionCount,
    pub expected_elements: ElementCount,
}

/// Number of hash functions of a Bloom filter.
#[derive(Clone, Copy, Debug, PartialEq, Eq, Hash, Structural)]
pub struct HashFunctionCount(pub u8);

impl HashFunctionCount {
    pub fn new(v: u8) -> (r: HashFunctionCount)
        ensures
            r.0 == v,
    {
        HashFunctionCount(v)
    }
}

/// Number of elements a Bloom filter is sized for.
#[derive(Clone, Copy, Debug, PartialEq, Eq, Hash, Structural)]
pub struct ElementCount(pub u32);

impl ElementCount {
    pub fn new(v: u32) -> (r: ElementCount)
        ensures
            r.0 == v,
    {
        ElementCount(v)
    }
}

/// How long a discovery may take, in milliseconds.
#[derive(Clone, Copy, Debug, PartialEq, Eq, Hash, Structural)]
pub struct DiscoveryTimeout(pub u64);

impl DiscoveryTimeout {
    /// Five seconds.
    pub fn default() -> (r: DiscoveryTimeout)
        ensures
            r.0 == 5000,
    {
        DiscoveryTimeout(5000)
    }

    pub fn new(ms: u64) -> (r: DiscoveryTimeout)
        ensures
            r.0 == ms,
    {
        DiscoveryTimeout(ms)
    }

    pub fn as_u64(self) -> (r: u64)
        ensures
            r == self.0,
    {
        self.0
    }
}

/// Proof of knowledge of a pre-shared key.
#[derive(Clone, Copy, Debug, PartialEq, Eq)]
pub struct PskProof(pub [u8; 16]);

impl PskProof {
    pub fn new(bytes: [u8; 16]) -> (r: PskProof)
        ensures
            r.0 == bytes,
    {
        PskProof(bytes)
    }

    pub fn as_bytes(&self) -> (r: &[u8; 16])
        ensures
            *r == self.0,
    {
        &self.0
    }
}

/// Hash of a candidate pre-shared key.
#[derive(Clone, Copy, Debug, PartialEq, Eq)]
pub struct CandidateHash(pub [u8; 32]);

impl CandidateHash {
    pub fn new(bytes: [u8; 32]) -> (r: CandidateHash)
        ensures
            r.0 == bytes,
    {
        CandidateHash(bytes)
    }

    pub fn as_bytes(&self) -> (r: &[u8; 32])
        ensures
            *r == self.0,
    {
        &self.0
    }
}

/// Identifier of a pre-shared key.
#[derive(Clone, Copy, Debug, PartialEq, Eq)]
pub struct PskId(pub [u8; 32]);

impl PskId {
    pub fn new(bytes: [u8; 32]) -> (r: PskId)
        ensures
            r.0 == bytes,
    {
        PskId(bytes)
    }

    pub fn as_bytes(&self) -> (r: &[u8; 32])
        ensures
            *r == self.0,
    {
        &self.0
    }
}

/// Parameters of the session a discovery settles on.
#[derive(Clone, Copy, Debug, PartialEq, Eq, Hash, Structural)]
pub struct SessionParams {
    pub epoch_type: EpochType,
    pub session_id: SessionId,
    pub hmac_policy: HmacPolicy,
    pub timestamp_config: TimestampConfig,
    pub flow_control_config: FlowControlConfig,
}

/// Window scaling shift of flow control.
#[derive(Clone, Copy, Debug, PartialEq, Eq, Hash, Structural)]
pub struct WindowScale(pub u8);

impl WindowScale {
    pub fn new(v: u8) -> (r: WindowScale)
        ensures
            r.0 == v,
    {
        WindowScale(v)
    }
}

/// Flow-control settings of a session.
#[derive(Clone, Copy, Debug, PartialEq, Eq, Hash, Structural)]
pub struct FlowControlConfig {
    pub window_scale: WindowScale,
    pub enabled: bool,
    pub initial_window: WindowSize,
    pub max_window: WindowSize,
    pub congestion_control: bool,
}


/// Human-readable description of an error.
#[derive(Clone, Debug, PartialEq, Eq)]
pub struct ErrorDescription(pub String);

impl ErrorDescription {
    pub fn new(text: String) -> (r: ErrorDescription)
        ensures
            r.0@ == text@,
    {
        ErrorDescription(text)
    }

    pub fn as_str(&self) -> (r: &str)
        ensures
            r@ == self.0@,
    {
        self.0.as_str()
    }
}

/// Identifier of a session key.
#[derive(Clone, Copy, Debug, PartialEq, Eq)]
pub struct KeyId(pub [u8; 16]);

impl KeyId {
    pub fn new(bytes: [u8; 16]) -> (r: KeyId)
        ensures
            r.0 == bytes,
    {
        KeyId(bytes)
    }

    pub fn as_bytes(&self) -> (r: &[u8; 16])
        ensures
            *r == self.0,
    {
        &self.0
    }
}

/// Parameters of a key derivation.
#[derive(Clone, Debug, PartialEq, Eq)]
pub struct KdfParams {
    pub algorithm: String,
    pub salt: KdfSalt,
    pub iterations: KdfIterations,
    pub key_length: KeySize,
}

impl KdfParams {
    /// PBKDF2 over a zero salt, 10000 iterations, 32-byte keys.
    pub fn default() -> (r: KdfParams)
        ensures
            r.algorithm@ == "PBKDF2"@,
            r.salt.0@ == seq![0u8; 16],
            r.iterations.0 == 10000,
            r.key_length.0 == 32,
    {
        proof {
            reveal_strlit("PBKDF2");
        }
        KdfParams {
            algorithm: "PBKDF2".to_owned(),
            salt: KdfSalt([0u8; 16]),
            iterations: KdfIterations(10000),
            key_length: KeySize(32),
        }
    }
}

/// Salt of a key derivation.
#[derive(Clone, Copy, Debug, PartialEq, Eq)]
pub struct KdfSalt(pub [u8; 16]);

impl KdfSalt {
    pub fn new(bytes: [u8; 16]) -> (r: KdfSalt)
        ensures
            r.0 == bytes,
    {
        KdfSalt(bytes)
    }
}

/// Iteration count of a key derivation.
#[derive(Clone, Copy, Debug, PartialEq, Eq, Hash, Structural)]
pub struct KdfIterations(pub u32);

impl KdfIterations {
    pub fn new(v: u32) -> (r: KdfIterations)
        ensures
            r.0 == v,
    {
        KdfIterations(v)
    }
}

/// Length of a derived key, in bytes.
#[derive(Clone, Copy, Debug, PartialEq, Eq, Hash, Structural)]
pub struct KeySize(pub u32);

impl KeySize {
    pub fn new(v: u32) -> (r: KeySize)
        ensures
            r.0 == v,
    {
        KeySize(v)
    }
}

/// Why a rekey is asked for.
#[derive(Clone, Copy, Debug, PartialEq, Eq, Hash, Structural)]
pub enum RekeyReason {
    Scheduled,
    Compromise,
    EpochChange,
    PeerRequest,
}

/// Answer to a rekey.
#[derive(Clone, Copy, Debug, PartialEq, Eq, Hash, Structural)]
pub enum RekeyResult {
    Success,
    Rejected,
    Failed,
}

/// What a repair restores.
#[derive(Clone, Copy, Debug, PartialEq, Eq, Hash, Structural)]
pub enum RepairType {
    Sequence,
    Retransmission,
    State,
}

/// The number a repair type is written as.
pub open spec fn repair_type_code(t: RepairType) -> u32 {
    match t {
        RepairType::Sequence => 0,
        RepairType::Retransmission => 1,
        RepairType::State => 2,
    }
}

impl RepairType {
    pub fn as_u32(self) -> (r: u32)
        ensures
            r == repair_type_code(self),
    {
        match self {
            RepairType::Sequence => 0,
            RepairType::Retransmission => 1,
            RepairType::State => 2,
        }
    }
}

/// Urgency of a repair.
#[derive(Clone, Copy, Debug, PartialEq, Eq, Hash, Structural)]
pub enum RepairPriority {
    Low,
    Normal,
    Medium,
    High,
}

/// Outcome of a repair.
#[derive(Clone, Copy, Debug, PartialEq, Eq, Hash, Structural)]
pub enum RepairResult {
    Success,
    Partial,
    Failed,
}


/// A number of packets.
#[derive(Clone, Copy, Debug, PartialEq, Eq, Hash, Structural)]
pub struct PacketCount(pub u64);

impl PacketCount {
    pub fn new(v: u64) -> (r: PacketCount)
        ensures
            r.0 == v,
    {
        PacketCount(v)
    }

    pub fn as_u64(self) -> (r: u64)
        ensures
            r == self.0,
    {
        self.0
    }
}

/// A number of bytes.
#[derive(Clone, Copy, Debug, PartialEq, Eq, Hash, Structural)]
pub struct ByteCount(pub u64);

impl ByteCount {
    pub fn new(v: u64) -> (r: ByteCount)
        ensures
            r.0 == v,
    {
        ByteCount(v)
    }

    pub fn as_u64(self) -> (r: u64)
        ensures
            r == self.0,
    {
        self.0
    }
}

/// A number of errors.
#[derive(Clone, Copy, Debug, PartialEq, Eq, Hash, Structural)]
pub struct ErrorCount(pub u64);

impl ErrorCount {
    pub fn new(v: u64) -> (r: ErrorCount)
        ensures
            r.0 == v,
    {
        ErrorCount(v)
    }

    pub fn as_u64(self) -> (r: u64)
        ensures
            r == self.0,
    {
        self.0
    }
}

/// A number of state transitions.
#[derive(Clone, Copy, Debug, PartialEq, Eq, Hash, Structural)]
pub struct TransitionCount(pub u64);

impl TransitionCount {
    pub fn new(v: u64) -> (r: TransitionCount)
        ensures
            r.0 == v,
    {
        TransitionCount(v)
    }

    pub fn as_u64(self) -> (r: u64)
        ensures
            r == self.0,
    {
        self.0
    }
}

/// A number of connections.
#[derive(Clone, Copy, Debug, PartialEq, Eq, Hash, Structural)]
pub struct ConnectionCount(pub u32);

impl ConnectionCount {
    pub fn new(v: u32) -> (r: ConnectionCount)
        ensures
            r.0 == v,
    {
        ConnectionCount(v)
    }

    pub fn as_u32(self) -> (r: u32)
        ensures
            r == self.0,
    {
        self.0
    }
}

/// A number of sessions.
#[derive(Clone, Copy, Debug, PartialEq, Eq, Hash, Structural)]
pub struct SessionCount(pub u32);

impl SessionCount {
    pub fn new(v: u32) -> (r: SessionCount)
        ensures
            r.0 == v,
    {
        SessionCount(v)
    }

    pub fn as_u32(self) -> (r: u32)
        ensures
            r == self.0,
    {
        self.0
    }
}


/// A point in time, in microseconds since the Unix epoch.
#[derive(Clone, Copy, Debug, PartialEq, Eq, Hash, Structural)]
pub struct MicrosecondTimestamp(pub u64);

impl MicrosecondTimestamp {
    pub fn new(v: u64) -> (r: MicrosecondTimestamp)
        ensures
            r.0 == v,
    {
        MicrosecondTimestamp(v)
    }

    pub fn as_u64(self) -> (r: u64)
        ensures
            r == self.0,
    {
        self.0
    }
}

/// Identifier of a sent packet awaiting acknowledgment.
#[derive(Clone, Copy, Debug, PartialEq, Eq, Hash, Structural)]
pub struct PacketId(pub u64);

impl PacketId {
    pub fn new(v: u64) -> (r: PacketId)
        ensures
            r.0 == v,
    {
        PacketId(v)
    }

    pub fn as_u64(self) -> (r: u64)
        ensures
            r == self.0,
    {
        self.0
    }
}

/// Identifier of a connection.
#[derive(Clone, Copy, Debug, PartialEq, Eq, Hash, Structural)]
pub struct ConnectionId(pub u64);

impl ConnectionId {
    pub fn new(v: u64) -> (r: ConnectionId)
        ensures
            r.0 == v,
    {
        ConnectionId(v)
    }

    pub fn as_u64(self) -> (r: u64)
        ensures
            r == self.0,
    {
        self.0
    }
}


/// A rate, per second.
#[derive(Clone, Copy, Debug, PartialEq, Eq, Hash, Structural)]
pub struct PacketRate(pub u32);

impl PacketRate {
    pub fn new(v: u32) -> (r: PacketRate)
        ensures
            r.0 == v,
    {
        PacketRate(v)
    }

    pub fn as_u32(self) -> (r: u32)
        ensures
            r == self.0,
    {
        self.0
    }
}

/// A capacity or a number of tracked items.
#[derive(Clone, Copy, Debug, PartialEq, Eq, Hash, Structural)]
pub struct Capacity(pub u32);

impl Capacity {
    pub fn new(v: u32) -> (r: Capacity)
        ensures
            r.0 == v,
    {
        Capacity(v)
    }

    pub fn as_u32(self) -> (r: u32)
        ensures
            r == self.0,
    {
        self.0
    }
}

/// A number of rate limit violations.
#[derive(Clone, Copy, Debug, PartialEq, Eq, Hash, Structural)]
pub struct ViolationCount(pub u64);

impl ViolationCount {
    pub fn new(v: u64) -> (r: ViolationCount)
        ensures
            r.0 == v,
    {
        ViolationCount(v)
    }

    pub fn as_u64(self) -> (r: u64)
        ensures
            r == self.0,
    {
        self.0
    }
}

/// Size of a packet or fragment, in bytes.
#[derive(Clone, Copy, Debug, PartialEq, Eq, Hash, Structural)]
pub struct PacketSize(pub u16);

impl PacketSize {
    pub fn new(v: u16) -> (r: PacketSize)
        ensures
            r.0 == v,
    {
        PacketSize(v)
    }

    pub fn as_u16(self) -> (r: u16)
        ensures
            r == self.0,
    {
        self.0
    }
}

/// An IP address as one number: an IPv6 address as its 128 bits, an IPv4
/// address in its IPv4-mapped IPv6 form (`::ffff:a.b.c.d`).
#[derive(Clone, Copy, Debug, PartialEq, Eq, Hash, Structural)]
pub struct IpAddress(pub u128);

impl IpAddress {
    pub fn new(v: u128) -> (r: IpAddress)
        ensures
            r.0 == v,
    {
        IpAddress(v)
    }

    /// The IPv4 address `v`, in its IPv4-mapped form.
    pub fn from_ipv4(v: u32) -> (r: IpAddress)
        ensures
            r.0 == ipv4_mapped(v),
    {
        IpAddress(0xffff_0000_0000u128 + v as u128)
    }

    pub fn as_u128(self) -> (r: u128)
        ensures
            r == self.0,
    {
        self.0
    }
}


/// The IPv4-mapped IPv6 address of the IPv4 address `v`.
pub open spec fn ipv4_mapped(v: u32) -> u128 {
    (0xffff_0000_0000u128 + v) as u128
}

/// A deadline for the reassembly of a fragmented packet, in milliseconds.
#[derive(Clone, Copy, Debug, PartialEq, Eq, Hash, Structural)]
pub struct FragmentTimeout(pub u64);

impl FragmentTimeout {
    /// How long the fragments of one packet may take to arrive, in milliseconds.
    pub const FRAGMENT_TIMEOUT_MS: u64 = 5000;

    pub fn new(v: u64) -> (r: FragmentTimeout)
        ensures
            r.0 == v,
    {
        FragmentTimeout(v)
    }

    pub fn as_u64(self) -> (r: u64)
        ensures
            r == self.0,
    {
        self.0
    }
}


/// The RecoveryReason a byte stands for, if any: the variants in order from 0.
pub open spec fn recovery_reason_of(b: u8) -> Option<RecoveryReason> {
    if b == 0 {
        Some(RecoveryReason::TimeSync)
    } else if b == 1 {
        Some(RecoveryReason::SequenceGap)
    } else if b == 2 {
        Some(RecoveryReason::KeyMismatch)
    } else if b == 3 {
        Some(RecoveryReason::Timeout)
    } else {
        None
    }
}

impl RecoveryReason {
    pub fn from_u8(b: u8) -> (r: Option<RecoveryReason>)
        ensures
            r == recovery_reason_of(b),
    {
        if b == 0 {
            Some(RecoveryReason::TimeSync)
        } else if b == 1 {
            Some(RecoveryReason::SequenceGap)
        } else if b == 2 {
            Some(RecoveryReason::KeyMismatch)
        } else if b == 3 {
            Some(RecoveryReason::Timeout)
        } else {
            None
        }
    }
}

/// The RecoveryLevel a byte stands for, if any: the variants in order from 0.
pub open spec fn recovery_level_of(b: u8) -> Option<RecoveryLevel> {
    if b == 0 {
        Some(RecoveryLevel::TimeSync)
    } else if b == 1 {
        Some(RecoveryLevel::SequenceRepair)
    } else if b == 2 {
        Some(RecoveryLevel::Rekey)
    } else if b == 3 {
        Some(RecoveryLevel::FullReset)
    } else {
        None
    }
}

impl RecoveryLevel {
    pub fn from_u8(b: u8) -> (r: Option<RecoveryLevel>)
        ensures
            r == recovery_level_of(b),
    {
        if b == 0 {
            Some(RecoveryLevel::TimeSync)
        } else if b == 1 {
            Some(RecoveryLevel::SequenceRepair)
        } else if b == 2 {
            Some(RecoveryLevel::Rekey)
        } else if b == 3 {
            Some(RecoveryLevel::FullReset)
        } else {
            None
        }
    }
}

/// The SecurityLevel a byte stands for, if any: the variants in order from 0.
pub open spec fn security_level_of(b: u8) -> Option<SecurityLevel> {
    if b == 0 {
        Some(SecurityLevel::Standard)
    } else if b == 1 {
        Some(SecurityLevel::High)
    } else if b == 2 {
        Some(SecurityLevel::Maximum)
    } else {
        None
    }
}

impl SecurityLevel {
    pub fn from_u8(b: u8) -> (r: Option<SecurityLevel>)
        ensures
            r == security_level_of(b),
    {
        if b == 0 {
            Some(SecurityLevel::Standard)
        } else if b == 1 {
            Some(SecurityLevel::High)
        } else if b == 2 {
            Some(SecurityLevel::Maximum)
        } else {
            None
        }
    }
}

/// The PolicyChangeReason a byte stands for, if any: the variants in order from 0.
pub open spec fn policy_change_reason_of(b: u8) -> Option<PolicyChangeReason> {
    if b == 0 {
        Some(PolicyChangeReason::SecurityUpgrade)
    } else if b == 1 {
        Some(PolicyChangeReason::PerformanceOptimization)
    } else if b == 2 {
        Some(PolicyChangeReason::ThreatDetected)
    } else if b == 3 {
        Some(PolicyChangeReason::PeerRequest)
    } else {
        None
    }
}

impl PolicyChangeReason {
    pub fn from_u8(b: u8) -> (r: Option<PolicyChangeReason>)
        ensures
            r == policy_change_reason_of(b),
    {
        if b == 0 {
            Some(PolicyChangeReason::SecurityUpgrade)
        } else if b == 1 {
            Some(PolicyChangeReason::PerformanceOptimization)
        } else if b == 2 {
            Some(PolicyChangeReason::ThreatDetected)
        } else if b == 3 {
            Some(PolicyChangeReason::PeerRequest)
        } else {
            None
        }
    }
}

/// The PolicyChangeResult a byte stands for, if any: the variants in order from 0.
pub open spec fn policy_change_result_of(b: u8) -> Option<PolicyChangeResult> {
    if b == 0 {
        Some(PolicyChangeResult::Accepted)
    } else if b == 1 {
        Some(PolicyChangeResult::Rejected)
    } else if b == 2 {
        Some(PolicyChangeResult::Deferred)
    } else {
        None
    }
}

impl PolicyChangeResult {
    pub fn from_u8(b: u8) -> (r: Option<PolicyChangeResult>)
        ensures
            r == policy_change_result_of(b),
    {
        if b == 0 {
            Some(PolicyChangeResult::Accepted)
        } else if b == 1 {
            Some(PolicyChangeResult::Rejected)
        } else if b == 2 {
            Some(PolicyChangeResult::Deferred)
        } else {
            None
        }
    }
}


/// How many fragments of a packet have arrived.
#[derive(Clone, Copy, Debug, PartialEq, Eq, Hash, Structural)]
pub struct ReceivedFragments(pub u16);

impl ReceivedFragments {
    pub fn new(v: u16) -> (r: ReceivedFragments)
        ensures
            r.0 == v,
    {
        ReceivedFragments(v)
    }

    pub fn as_u16(self) -> (r: u16)
        ensures
            r == self.0,
    {
        self.0
    }
}


/// A UDP port.
#[derive(Clone, Copy, Debug, PartialEq, Eq, Hash, Structural, Default)]
pub struct Port(pub u16);

impl Port {
    pub fn new(v: u16) -> (r: Port)
        ensures
            r.0 == v,
    {
        Port(v)
    }

    pub fn as_u16(self) -> (r: u16)
        ensures
            r == self.0,
    {
        self.0
    }
}

/// A number of connection attempts.
#[derive(Clone, Copy, Debug, PartialEq, Eq, Hash, Structural, Default)]
pub struct AttemptCount(pub u32);

impl AttemptCount {
    pub fn new(v: u32) -> (r: AttemptCount)
        ensures
            r.0 == v,
    {
        AttemptCount(v)
    }

    pub fn as_u32(self) -> (r: u32)
        ensures
            r == self.0,
    {
        self.0
    }
}

/// How many times a source was blocked.
#[derive(Clone, Copy, Debug, PartialEq, Eq, Hash, Structural, Default)]
pub struct BlockCount(pub u32);

impl BlockCount {
    pub fn new(v: u32) -> (r: BlockCount)
        ensures
            r.0 == v,
    {
        BlockCount(v)
    }

    pub fn as_u32(self) -> (r: u32)
        ensures
            r == self.0,
    {
        self.0
    }
}

/// A number of sources.
#[derive(Clone, Copy, Debug, PartialEq, Eq, Hash, Structural, Default)]
pub struct SourceCount(pub usize);

impl SourceCount {
    pub fn new(v: usize) -> (r: SourceCount)
        ensures
            r.0 == v,
    {
        SourceCount(v)
    }

    pub fn as_usize(self) -> (r: usize)
        ensures
            r == self.0,
    {
        self.0
    }
}

/// A number of attacks detected.
#[derive(Clone, Copy, Debug, PartialEq, Eq, Hash, Structural, Default)]
pub struct AttackCount(pub u32);

impl AttackCount {
    pub fn new(v: u32) -> (r: AttackCount)
        ensures
            r.0 == v,
    {
        AttackCount(v)
    }

    pub fn as_u32(self) -> (r: u32)
        ensures
            r == self.0,
    {
        self.0
    }
}

} // verus!
