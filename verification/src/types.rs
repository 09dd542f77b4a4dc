//! The protocol's value types: packet types and flags, the version byte and
//! its header-layout configuration, identifiers, counters and validation errors.
use vstd::prelude::*;

verus! {

/// Packet classes of the protocol.
#[derive(Clone, Copy, Debug, PartialEq, Eq, Hash, Structural)]
pub enum PacketType {
    Syn,
    SynAck,
    Ack,
    Data,
    Fin,
    Rst,
    Heartbeat,
    Error,
    Control,
    Management,
    Discovery,
    Fragment,
}

/// The wire code of a packet type.
pub open spec fn packet_type_code(t: PacketType) -> u8 {
    match t {
        PacketType::Syn => 0x01,
        PacketType::SynAck => 0x02,
        PacketType::Ack => 0x03,
        PacketType::Data => 0x04,
        PacketType::Fin => 0x05,
        PacketType::Rst => 0x06,
        PacketType::Heartbeat => 0x07,
        PacketType::Error => 0x08,
        PacketType::Control => 0x09,
        PacketType::Management => 0x0A,
        PacketType::Discovery => 0x0B,
        PacketType::Fragment => 0x0C,
    }
}

/// The packet type that a wire code denotes, if any.
pub open spec fn packet_type_of_code(b: u8) -> Option<PacketType> {
    if b == 0x01 {
        Some(PacketType::Syn)
    } else if b == 0x02 {
        Some(PacketType::SynAck)
    } else if b == 0x03 {
        Some(PacketType::Ack)
    } else if b == 0x04 {
        Some(PacketType::Data)
    } else if b == 0x05 {
        Some(PacketType::Fin)
    } else if b == 0x06 {
        Some(PacketType::Rst)
    } else if b == 0x07 {
        Some(PacketType::Heartbeat)
    } else if b == 0x08 {
        Some(PacketType::Error)
    } else if b == 0x09 {
        Some(PacketType::Control)
    } else if b == 0x0A {
        Some(PacketType::Management)
    } else if b == 0x0B {
        Some(PacketType::Discovery)
    } else if b == 0x0C {
        Some(PacketType::Fragment)
    } else {
        None
    }
}

/// Packet classes whose authentication uses the strong HMAC tag.
/// SYN, SYN-ACK, DATA and FIN packets are acknowledged.
pub open spec fn spec_requires_ack(t: PacketType) -> bool {
    t == PacketType::Syn || t == PacketType::SynAck || t == PacketType::Data || t == PacketType::Fin
}

/// SYN, SYN-ACK, FIN and RST packets open or close a connection.
pub open spec fn spec_is_connection_packet(t: PacketType) -> bool {
    t == PacketType::Syn || t == PacketType::SynAck || t == PacketType::Fin || t == PacketType::Rst
}

pub open spec fn spec_requires_strong_hmac(t: PacketType) -> bool {
    t == PacketType::Syn || t == PacketType::SynAck || t == PacketType::Management
        || t == PacketType::Discovery
}

impl PacketType {
    pub fn as_u8(self) -> (r: u8)
        ensures
            r == packet_type_code(self),
    {
        match self {
            PacketType::Syn => 0x01,
            PacketType::SynAck => 0x02,
            PacketType::Ack => 0x03,
            PacketType::Data => 0x04,
            PacketType::Fin => 0x05,
            PacketType::Rst => 0x06,
            PacketType::Heartbeat => 0x07,
            PacketType::Error => 0x08,
            PacketType::Control => 0x09,
            PacketType::Management => 0x0A,
            PacketType::Discovery => 0x0B,
            PacketType::Fragment => 0x0C,
        }
    }

    pub fn from_u8(b: u8) -> (r: Option<PacketType>)
        ensures
            r == packet_type_of_code(b),
    {
        if b == 0x01 {
            Some(PacketType::Syn)
        } else if b == 0x02 {
            Some(PacketType::SynAck)
        } else if b == 0x03 {
            Some(PacketType::Ack)
        } else if b == 0x04 {
            Some(PacketType::Data)
        } else if b == 0x05 {
            Some(PacketType::Fin)
        } else if b == 0x06 {
            Some(PacketType::Rst)
        } else if b == 0x07 {
            Some(PacketType::Heartbeat)
        } else if b == 0x08 {
            Some(PacketType::Error)
        } else if b == 0x09 {
            Some(PacketType::Control)
        } else if b == 0x0A {
            Some(PacketType::Management)
        } else if b == 0x0B {
            Some(PacketType::Discovery)
        } else if b == 0x0C {
            Some(PacketType::Fragment)
        } else {
            None
        }
    }

    pub fn requires_strong_hmac(self) -> (r: bool)
        ensures
            r == spec_requires_strong_hmac(self),
    {
        match self {
            PacketType::Syn | PacketType::SynAck | PacketType::Management
            | PacketType::Discovery => true,
            _ => false,
        }
    }

    /// Packets that the receiver acknowledges.
    pub fn requires_ack(self) -> (r: bool)
        ensures
            r == spec_requires_ack(self),
    {
        match self {
            PacketType::Syn | PacketType::SynAck | PacketType::Data | PacketType::Fin => true,
            _ => false,
        }
    }

    /// Packets that open or close a connection.
    pub fn is_connection_packet(self) -> (r: bool)
        ensures
            r == spec_is_connection_packet(self),
    {
        match self {
            PacketType::Syn | PacketType::SynAck | PacketType::Fin | PacketType::Rst => true,
            _ => false,
        }
    }
}

/// Every packet type's wire code denotes that packet type.
pub proof fn lemma_packet_type_code_roundtrip(t: PacketType)
    ensures
        packet_type_of_code(packet_type_code(t)) == Some(t),
{
}

/// HMAC tag strength.
#[derive(Clone, Copy, Debug, PartialEq, Eq, Hash, Structural)]
pub enum HmacPolicy {
    Light,
    Medium,
    Strong,
}

pub open spec fn spec_tag_size(p: HmacPolicy) -> nat {
    match p {
        HmacPolicy::Light => 8,
        HmacPolicy::Medium => 16,
        HmacPolicy::Strong => 32,
    }
}

pub open spec fn hmac_policy_code(p: HmacPolicy) -> u8 {
    match p {
        HmacPolicy::Light => 0,
        HmacPolicy::Medium => 1,
        HmacPolicy::Strong => 2,
    }
}

/// The HMAC policy that deserialization assigns to a packet type.
pub open spec fn policy_for_type(t: PacketType) -> HmacPolicy {
    if spec_requires_strong_hmac(t) {
        HmacPolicy::Strong
    } else {
        HmacPolicy::Medium
    }
}

impl HmacPolicy {
    /// Length in bytes of a tag under this policy.
    pub fn tag_size(self) -> (r: usize)
        ensures
            r == spec_tag_size(self),
    {
        match self {
            HmacPolicy::Light => 8,
            HmacPolicy::Medium => 16,
            HmacPolicy::Strong => 32,
        }
    }

    pub fn as_u8(self) -> (r: u8)
        ensures
            r == hmac_policy_code(self),
    {
        match self {
            HmacPolicy::Light => 0,
            HmacPolicy::Medium => 1,
            HmacPolicy::Strong => 2,
        }
    }

    pub fn from_u8(b: u8) -> (r: Option<HmacPolicy>)
        ensures
            r == hmac_policy_of(b),
    {
        if b == 0 {
            Some(HmacPolicy::Light)
        } else if b == 1 {
            Some(HmacPolicy::Medium)
        } else if b == 2 {
            Some(HmacPolicy::Strong)
        } else {
            None
        }
    }
}

/// The HMAC policy a byte stands for, if any.
pub open spec fn hmac_policy_of(b: u8) -> Option<HmacPolicy> {
    if b == 0 {
        Some(HmacPolicy::Light)
    } else if b == 1 {
        Some(HmacPolicy::Medium)
    } else if b == 2 {
        Some(HmacPolicy::Strong)
    } else {
        None
    }
}

/// Width of the session identifier on the wire.
#[derive(Clone, Copy, Debug, PartialEq, Eq, Hash, Structural)]
pub enum SessionIdLength {
    Bits16,
    Bits32,
    Bits64,
    Bits128,
}

pub open spec fn spec_sid_len(l: SessionIdLength) -> nat {
    match l {
        SessionIdLength::Bits16 => 2,
        SessionIdLength::Bits32 => 4,
        SessionIdLength::Bits64 => 8,
        SessionIdLength::Bits128 => 16,
    }
}

pub open spec fn sid_len_code(l: SessionIdLength) -> u8 {
    match l {
        SessionIdLength::Bits16 => 0,
        SessionIdLength::Bits32 => 1,
        SessionIdLength::Bits64 => 2,
        SessionIdLength::Bits128 => 3,
    }
}

pub open spec fn sid_len_of_code(c: u8) -> SessionIdLength {
    if c == 0 {
        SessionIdLength::Bits16
    } else if c == 1 {
        SessionIdLength::Bits32
    } else if c == 2 {
        SessionIdLength::Bits64
    } else {
        SessionIdLength::Bits128
    }
}

impl SessionIdLength {
    /// Bytes that the session identifier takes.
    pub fn len(self) -> (r: usize)
        ensures
            r == spec_sid_len(self),
    {
        match self {
            SessionIdLength::Bits16 => 2,
            SessionIdLength::Bits32 => 4,
            SessionIdLength::Bits64 => 8,
            SessionIdLength::Bits128 => 16,
        }
    }

    /// Bytes that the session identifier takes.
    pub fn byte_size(self) -> (r: usize)
        ensures
            r == spec_sid_len(self),
    {
        self.len()
    }
}

/// Width of the header timestamp on the wire.
#[derive(Clone, Copy, Debug, PartialEq, Eq, Hash, Structural)]
pub enum TimestampConfig {
    Bits16,
    Bits24,
    Bits24High,
    Bits32,
}

pub open spec fn spec_ts_len(c: TimestampConfig) -> nat {
    match c {
        TimestampConfig::Bits16 => 2,
        TimestampConfig::Bits24 => 3,
        TimestampConfig::Bits24High => 3,
        TimestampConfig::Bits32 => 4,
    }
}

pub open spec fn ts_cfg_code(c: TimestampConfig) -> u8 {
    match c {
        TimestampConfig::Bits16 => 0,
        TimestampConfig::Bits24 => 1,
        TimestampConfig::Bits24High => 2,
        TimestampConfig::Bits32 => 3,
    }
}

pub open spec fn ts_cfg_of_code(c: u8) -> TimestampConfig {
    if c == 0 {
        TimestampConfig::Bits16
    } else if c == 1 {
        TimestampConfig::Bits24
    } else if c == 2 {
        TimestampConfig::Bits24High
    } else {
        TimestampConfig::Bits32
    }
}

impl TimestampConfig {
    /// Bytes that the timestamp takes.
    pub fn len(self) -> (r: usize)
        ensures
            r == spec_ts_len(self),
    {
        match self {
            TimestampConfig::Bits16 => 2,
            TimestampConfig::Bits24 => 3,
            TimestampConfig::Bits24High => 3,
            TimestampConfig::Bits32 => 4,
        }
    }

    /// Bytes that the timestamp takes.
    pub fn byte_size(self) -> (r: usize)
        ensures
            r == spec_ts_len(self),
    {
        self.len()
    }
}

/// First header byte: protocol version (high four bits), session identifier
/// width (next two bits) and timestamp width (low two bits).
#[derive(Clone, Copy, Debug, PartialEq, Eq, Hash, Structural)]
pub struct VersionByte(pub u8);

pub open spec fn version_byte_raw(version: u8, l: SessionIdLength, c: TimestampConfig) -> u8 {
    ((version % 16) * 16 + sid_len_code(l) * 4 + ts_cfg_code(c)) as u8
}

impl VersionByte {
    pub open spec fn spec_protocol_version(self) -> u8 {
        self.0 / 16
    }

    pub open spec fn spec_session_id_length(self) -> SessionIdLength {
        sid_len_of_code(((self.0 / 4) % 4) as u8)
    }

    pub open spec fn spec_timestamp_config(self) -> TimestampConfig {
        ts_cfg_of_code(self.0 % 4)
    }

    /// Packs a protocol version (its low four bits) with the two layout choices.
    pub fn new(version: u8, session_id_length: SessionIdLength, timestamp_config: TimestampConfig) -> (r: VersionByte)
        ensures
            r.0 == version_byte_raw(version, session_id_length, timestamp_config),
            r.spec_protocol_version() == version % 16,
            r.spec_session_id_length() == session_id_length,
            r.spec_timestamp_config() == timestamp_config,
    {
        let l: u8 = match session_id_length {
            SessionIdLength::Bits16 => 0,
            SessionIdLength::Bits32 => 1,
            SessionIdLength::Bits64 => 2,
            SessionIdLength::Bits128 => 3,
        };
        let c: u8 = match timestamp_config {
            TimestampConfig::Bits16 => 0,
            TimestampConfig::Bits24 => 1,
            TimestampConfig::Bits24High => 2,
            TimestampConfig::Bits32 => 3,
        };
        let r = VersionByte((version % 16) * 16 + l * 4 + c);
        proof {
            let raw = r.0;
            assert(raw / 16 == version % 16);
            assert((raw / 4) % 4 == l);
            assert(raw % 4 == c);
        }
        r
    }

    pub fn from_raw(b: u8) -> (r: VersionByte)
        ensures
            r.0 == b,
    {
        VersionByte(b)
    }

    pub fn from_u8(b: u8) -> (r: VersionByte)
        ensures
            r.0 == b,
    {
        VersionByte(b)
    }

    pub fn as_u8(self) -> (r: u8)
        ensures
            r == self.0,
    {
        self.0
    }

    pub fn protocol_version(self) -> (r: u8)
        ensures
            r == self.spec_protocol_version(),
    {
        self.0 / 16
    }

    /// The protocol version (same as `protocol_version`).
    pub fn version(self) -> (r: u8)
        ensures
            r == self.spec_protocol_version(),
    {
        self.0 / 16
    }

    pub fn session_id_length(self) -> (r: SessionIdLength)
        ensures
            r == self.spec_session_id_length(),
    {
        let c = (self.0 / 4) % 4;
        if c == 0 {
            SessionIdLength::Bits16
        } else if c == 1 {
            SessionIdLength::Bits32
        } else if c == 2 {
            SessionIdLength::Bits64
        } else {
            SessionIdLength::Bits128
        }
    }

    pub fn timestamp_config(self) -> (r: TimestampConfig)
        ensures
            r == self.spec_timestamp_config(),
    {
        let c = self.0 % 4;
        if c == 0 {
            TimestampConfig::Bits16
        } else if c == 1 {
            TimestampConfig::Bits24
        } else if c == 2 {
            TimestampConfig::Bits24High
        } else {
            TimestampConfig::Bits32
        }
    }
}

/// Packet sub-type byte.
#[derive(Clone, Copy, Debug, PartialEq, Eq, Hash, Structural)]
pub struct SubType(pub u8);

impl SubType {
    pub fn new(v: u8) -> (r: SubType)
        ensures
            r.0 == v,
    {
        SubType(v)
    }

    pub fn as_u8(self) -> (r: u8)
        ensures
            r == self.0,
    {
        self.0
    }
}

/// Packet flag bits.
#[derive(Clone, Copy, Debug, PartialEq, Eq, Hash, Structural, Default)]
pub struct PacketFlags(pub u8);

impl PacketFlags {
    pub const FIN: u8 = 0x01;
    pub const SYN: u8 = 0x02;
    pub const RST: u8 = 0x04;
    pub const PSH: u8 = 0x08;
    pub const ACK: u8 = 0x10;
    pub const URG: u8 = 0x20;
    pub const FRAGMENT: u8 = 0x40;

    /// No flag set.
    pub fn new() -> (r: PacketFlags)
        ensures
            r.0 == 0,
    {
        PacketFlags(0)
    }

    pub fn from_u8(v: u8) -> (r: PacketFlags)
        ensures
            r.0 == v,
    {
        PacketFlags(v)
    }

    pub fn as_u8(self) -> (r: u8)
        ensures
            r == self.0,
    {
        self.0
    }

    /// Sets the bits of `flag`.
    pub fn set_flag(&mut self, flag: u8)
        ensures
            final(self).0 == old(self).0 | flag,
    {
        self.0 = self.0 | flag;
    }

    /// Sets the bits of `flag`.
    pub fn set(&mut self, flag: u8)
        ensures
            final(self).0 == old(self).0 | flag,
    {
        self.0 = self.0 | flag;
    }

    /// Whether all bits of `flag` are set.
    pub fn has_flag(self, flag: u8) -> (r: bool)
        ensures
            r == (self.0 & flag == flag),
    {
        self.0 & flag == flag
    }

    pub fn is_fin(self) -> (r: bool)
        ensures
            r == (self.0 & 0x01 != 0),
    {
        self.0 & 0x01 != 0
    }

    pub fn is_syn(self) -> (r: bool)
        ensures
            r == (self.0 & 0x02 != 0),
    {
        self.0 & 0x02 != 0
    }

    pub fn is_rst(self) -> (r: bool)
        ensures
            r == (self.0 & 0x04 != 0),
    {
        self.0 & 0x04 != 0
    }

    pub fn is_ack(self) -> (r: bool)
        ensures
            r == (self.0 & 0x10 != 0),
    {
        self.0 & 0x10 != 0
    }

    pub fn is_frag(self) -> (r: bool)
        ensures
            r == (self.0 & 0x40 != 0),
    {
        self.0 & 0x40 != 0
    }

    pub fn is_fragmented(self) -> (r: bool)
        ensures
            r == (self.0 & 0x40 != 0),
    {
        self.0 & 0x40 != 0
    }
}


/// State of a connection. `Connecting`, `Listening` and `Closing` are older
/// names that the state machine reads as `SynSent`, `Idle` and `FinWait`.
#[derive(Clone, Copy, Debug, PartialEq, Eq, Hash, Structural)]
pub enum ConnectionState {
    Idle,
    Closed,
    SynSent,
    SynReceived,
    Established,
    FinWait,
    CloseWait,
    Error,
    Recovering,
    Connecting,
    Listening,
    Closing,
}

/// The state the state machine reads `s` as.
pub open spec fn m2_state(s: ConnectionState) -> ConnectionState {
    match s {
        ConnectionState::Connecting => ConnectionState::SynSent,
        ConnectionState::Listening => ConnectionState::Idle,
        ConnectionState::Closing => ConnectionState::FinWait,
        _ => s,
    }
}

impl ConnectionState {
    /// The state the state machine reads this one as.
    pub fn to_m2_state(self) -> (r: ConnectionState)
        ensures
            r == m2_state(self),
    {
        match self {
            ConnectionState::Connecting => ConnectionState::SynSent,
            ConnectionState::Listening => ConnectionState::Idle,
            ConnectionState::Closing => ConnectionState::FinWait,
            _ => self,
        }
    }
}

/// Lifecycle of a session.
#[derive(Clone, Copy, Debug, PartialEq, Eq, Hash, Structural)]
pub enum SessionState {
    Initializing,
    Active,
    Degraded,
    Terminating,
    Terminated,
}


/// Kinds of CONTROL packet, as the header's sub-type byte names them.
#[derive(Clone, Copy, Debug, PartialEq, Eq, Hash, Structural)]
pub enum ControlSubType {
    TimeSyncRequest,
    TimeSyncResponse,
    Recovery,
    SequenceNegotiation,
    HmacPolicyRequest,
    HmacPolicyResponse,
}

/// The ControlSubType a byte stands for, if any.
pub open spec fn control_sub_type_of(b: u8) -> Option<ControlSubType> {
    if b == 1 {
        Some(ControlSubType::TimeSyncRequest)
    } else if b == 2 {
        Some(ControlSubType::TimeSyncResponse)
    } else if b == 3 {
        Some(ControlSubType::Recovery)
    } else if b == 4 {
        Some(ControlSubType::SequenceNegotiation)
    } else if b == 5 {
        Some(ControlSubType::HmacPolicyRequest)
    } else if b == 6 {
        Some(ControlSubType::HmacPolicyResponse)
    } else {
        None
    }
}

impl ControlSubType {
    pub fn from_u8(b: u8) -> (r: Option<ControlSubType>)
        ensures
            r == control_sub_type_of(b),
    {
        if b == 1 {
            Some(ControlSubType::TimeSyncRequest)
        } else if b == 2 {
            Some(ControlSubType::TimeSyncResponse)
        } else if b == 3 {
            Some(ControlSubType::Recovery)
        } else if b == 4 {
            Some(ControlSubType::SequenceNegotiation)
        } else if b == 5 {
            Some(ControlSubType::HmacPolicyRequest)
        } else if b == 6 {
            Some(ControlSubType::HmacPolicyResponse)
        } else {
            None
        }
    }
}

/// Kinds of MANAGEMENT packet, as the header's sub-type byte names them.
#[derive(Clone, Copy, Debug, PartialEq, Eq, Hash, Structural)]
pub enum ManagementSubType {
    RekeyRequest,
    RekeyResponse,
    RepairRequest,
    RepairResponse,
    RepairConfirm,
}

/// The ManagementSubType a byte stands for, if any.
pub open spec fn management_sub_type_of(b: u8) -> Option<ManagementSubType> {
    if b == 1 {
        Some(ManagementSubType::RekeyRequest)
    } else if b == 2 {
        Some(ManagementSubType::RekeyResponse)
    } else if b == 3 {
        Some(ManagementSubType::RepairRequest)
    } else if b == 4 {
        Some(ManagementSubType::RepairResponse)
    } else if b == 5 {
        Some(ManagementSubType::RepairConfirm)
    } else {
        None
    }
}

impl ManagementSubType {
    pub fn from_u8(b: u8) -> (r: Option<ManagementSubType>)
        ensures
            r == management_sub_type_of(b),
    {
        if b == 1 {
            Some(ManagementSubType::RekeyRequest)
        } else if b == 2 {
            Some(ManagementSubType::RekeyResponse)
        } else if b == 3 {
            Some(ManagementSubType::RepairRequest)
        } else if b == 4 {
            Some(ManagementSubType::RepairResponse)
        } else if b == 5 {
            Some(ManagementSubType::RepairConfirm)
        } else {
            None
        }
    }
}

/// Kinds of DISCOVERY packet, as the header's sub-type byte names them.
#[derive(Clone, Copy, Debug, PartialEq, Eq, Hash, Structural)]
pub enum DiscoverySubType {
    Request,
    Response,
    Confirm,
}

/// The DiscoverySubType a byte stands for, if any.
pub open spec fn discovery_sub_type_of(b: u8) -> Option<DiscoverySubType> {
    if b == 1 {
        Some(DiscoverySubType::Request)
    } else if b == 2 {
        Some(DiscoverySubType::Response)
    } else if b == 3 {
        Some(DiscoverySubType::Confirm)
    } else {
        None
    }
}

impl DiscoverySubType {
    pub fn from_u8(b: u8) -> (r: Option<DiscoverySubType>)
        ensures
            r == discovery_sub_type_of(b),
    {
        if b == 1 {
            Some(DiscoverySubType::Request)
        } else if b == 2 {
            Some(DiscoverySubType::Response)
        } else if b == 3 {
            Some(DiscoverySubType::Confirm)
        } else {
            None
        }
    }
}

} // verus!
