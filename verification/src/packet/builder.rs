//! Fluent builders for every packet type, with or without an HMAC tag.
use vstd::prelude::*;
use crate::codec::{be_encode, push_be, push_slice};
use crate::packet::header::{header_bytes, header_new, PacketHeader};
use crate::packet::hmac::{max_hmac_message, packet_tag, HmacCalculator};
use crate::packet::structures::{
    control_discriminant, discovery_discriminant, management_discriminant, ControlPacket,
    ControlPayload, DataPacket, DiscoveryPacket, DiscoveryPayload, ErrorPacket, FinPacket,
    FragmentHeader, HeartbeatPacket, ManagementPacket, ManagementPayload, RstPacket,
    SynAckPacket, SynPacket,
};
use crate::types::{
    packet_type_code, spec_tag_size, HmacPolicy, PacketFlags, PacketType, SessionIdLength,
    SubType, TimestampConfig, VersionByte,
};
use crate::values::{
    AckNumber, ConnectionParams, EcdhPublicKey, ErrorCode, ErrorDescription, HeartbeatSequence,
    HmacTag, PayloadLength, ProtocolVersion, ResetReason, RoundTripTime, SequenceNumber,
    SessionConfig, SessionId, TerminationReason, Timestamp, ValidationError, WindowSize,
    reset_code, termination_code,
};

verus! {

/// Sixteen zero bytes under the medium policy: the tag of a packet built without HMAC.
pub open spec fn default_tag(t: HmacTag) -> bool {
    t.data@ == Seq::new(16, |i: int| 0u8) && t.policy == HmacPolicy::Medium
}

/// The version byte of version 1 with 64-bit session identifiers and 32-bit timestamps.
pub open spec fn standard_version() -> VersionByte {
    VersionByte(crate::types::version_byte_raw(1, SessionIdLength::Bits64, TimestampConfig::Bits32))
}

/// The bytes a packet's tag is computed over: the type's code, the header and
/// the given fields.
pub open spec fn signed_bytes(h: PacketHeader, fields: Seq<u8>) -> Seq<u8> {
    seq![packet_type_code(h.packet_type)] + header_bytes(h) + fields
}

/// Computes the tag of the type code, the header and `fields`.
fn sign_packet(header: &PacketHeader, fields: &[u8], session_key: &[u8], policy: HmacPolicy) -> (r: HmacTag)
    requires
        session_key@.len() < max_hmac_message(),
        fields@.len() < 0x1000_0000_0000_0000,
    ensures
        r.data@ == packet_tag(session_key@, signed_bytes(*header, fields@), policy),
        r.data@.len() == spec_tag_size(policy),
        r.policy == policy,
{
    let mut message: Vec<u8> = Vec::new();
    message.push(header.packet_type.as_u8());
    let hb = header.to_bytes();
    push_slice(&mut message, hb.as_slice());
    push_slice(&mut message, fields);
    proof {
        crate::packet::header::lemma_header_bytes_len(*header);
        assert(message@ =~= signed_bytes(*header, fields@));
    }
    let calculator = HmacCalculator::new();
    calculator.calculate_packet_hmac(message.as_slice(), session_key, policy)
}

/// Thirty-two zero bytes.
fn zero_hash() -> (r: [u8; 32])
    ensures
        r@ == Seq::new(32, |i: int| 0u8),
{
    let r = [0u8; 32];
    proof {
        assert(r@ =~= Seq::new(32, |i: int| 0u8));
    }
    r
}

/// Creates builders with a default version byte and HMAC policy.
#[derive(Clone, Copy, Debug)]
pub struct PacketBuilderEngine {
    pub default_version: VersionByte,
    pub default_hmac_policy: HmacPolicy,
}

impl PacketBuilderEngine {
    /// Version 1, 64-bit session identifiers, 32-bit timestamps, medium HMAC.
    pub fn new() -> (r: PacketBuilderEngine)
        ensures
            r.default_version == standard_version(),
            r.default_hmac_policy == HmacPolicy::Medium,
    {
        PacketBuilderEngine {
            default_version: VersionByte::new(1, SessionIdLength::Bits64, TimestampConfig::Bits32),
            default_hmac_policy: HmacPolicy::Medium,
        }
    }

    pub fn with_defaults(version: VersionByte, hmac_policy: HmacPolicy) -> (r: PacketBuilderEngine)
        ensures
            r.default_version == version,
            r.default_hmac_policy == hmac_policy,
    {
        PacketBuilderEngine { default_version: version, default_hmac_policy: hmac_policy }
    }

    pub fn builder(&self, packet_type: PacketType) -> (r: PacketBuilder)
        ensures
            r.packet_type == packet_type,
            r.sub_type == 0,
            r.flags.0 == default_flags(packet_type),
            r.session_id is None,
            r.sequence_number.0 == 0,
            r.ack_number.0 == 0,
            r.timestamp is None,
            r.version_byte == self.default_version,
            r.hmac_policy == self.default_hmac_policy,
            r.payload@.len() == 0,
    {
        PacketBuilder::new(packet_type, self.default_version, self.default_hmac_policy)
    }

    pub fn syn(&self) -> (r: SynPacketBuilder)
        ensures
            r == SynPacketBuilder::new_spec(self.default_version, self.default_hmac_policy),
    {
        SynPacketBuilder::new(self.default_version, self.default_hmac_policy)
    }

    pub fn syn_ack(&self) -> (r: SynAckPacketBuilder)
        ensures
            r.version_byte == self.default_version,
            r.hmac_policy == self.default_hmac_policy,
            r.session_id is None,
            r.ack_sequence.0 == 0,
            r.server_sequence.0 == 0,
            r.protocol_version.0 == 1,
            r.server_public_key is None,
            r.key_exchange_id == 0,
            r.shared_secret_verification@ == Seq::new(32, |i: int| 0u8),
    {
        SynAckPacketBuilder::new(self.default_version, self.default_hmac_policy)
    }

    pub fn ack(&self) -> (r: AckPacketBuilder)
        ensures
            r.version_byte == self.default_version,
            r.hmac_policy == self.default_hmac_policy,
    {
        AckPacketBuilder::new(self.default_version, self.default_hmac_policy)
    }

    pub fn data(&self) -> (r: DataPacketBuilder)
        ensures
            r.version_byte == self.default_version,
            r.hmac_policy == self.default_hmac_policy,
            r.session_id is None,
            r.payload is None,
            r.sequence_number.0 == 0,
            r.ack_number.0 == 0,
            r.window_size.0 == 65535,
            r.flags.0 == 0,
            r.sub_type.0 == 0,
            r.timestamp is None,
            r.hmac is None,
            r.fragment_header is None,
    {
        DataPacketBuilder::new(self.default_version, self.default_hmac_policy)
    }

    pub fn fin(&self) -> (r: FinPacketBuilder)
        ensures
            r.version_byte == self.default_version,
            r.hmac_policy == self.default_hmac_policy,
            r.session_id is None,
            r.final_sequence.0 == 0,
            r.reason == TerminationReason::Normal,
    {
        FinPacketBuilder::new(self.default_version, self.default_hmac_policy)
    }

    pub fn rst(&self) -> (r: RstPacketBuilder)
        ensures
            r.version_byte == self.default_version,
            r.hmac_policy == self.default_hmac_policy,
            r.session_id is None,
            r.reason == ResetReason::ProtocolError,
            r.error_code is None,
    {
        RstPacketBuilder::new(self.default_version, self.default_hmac_policy)
    }

    pub fn heartbeat(&self) -> (r: HeartbeatPacketBuilder)
        ensures
            r.version_byte == self.default_version,
            r.hmac_policy == self.default_hmac_policy,
            r.session_id is None,
            r.heartbeat_sequence.0 == 0,
            r.rtt_measurement is None,
    {
        HeartbeatPacketBuilder::new(self.default_version, self.default_hmac_policy)
    }

    pub fn error(&self) -> (r: ErrorPacketBuilder)
        ensures
            r.version_byte == self.default_version,
            r.hmac_policy == self.default_hmac_policy,
            r.session_id is None,
            r.error_code.0 == 0,
            r.error_context is None,
    {
        ErrorPacketBuilder::new(self.default_version, self.default_hmac_policy)
    }

    pub fn control(&self) -> (r: ControlPacketBuilder)
        ensures
            r.version_byte == self.default_version,
            r.hmac_policy == self.default_hmac_policy,
            r.session_id is None,
            r.payload is None,
    {
        ControlPacketBuilder::new(self.default_version, self.default_hmac_policy)
    }

    pub fn management(&self) -> (r: ManagementPacketBuilder)
        ensures
            r.version_byte == self.default_version,
            r.hmac_policy == self.default_hmac_policy,
            r.session_id is None,
            r.payload is None,
    {
        ManagementPacketBuilder::new(self.default_version, self.default_hmac_policy)
    }

    pub fn discovery(&self) -> (r: DiscoveryPacketBuilder)
        ensures
            r.version_byte == self.default_version,
            r.hmac_policy == self.default_hmac_policy,
            r.session_id is None,
            r.payload is None,
    {
        DiscoveryPacketBuilder::new(self.default_version, self.default_hmac_policy)
    }
}

impl Default for PacketBuilderEngine {
    /// Version 1, 64-bit session identifiers, 32-bit timestamps, medium HMAC.
    fn default() -> (r: PacketBuilderEngine)
        ensures
            r.default_version == standard_version(),
            r.default_hmac_policy == HmacPolicy::Medium,
    {
        PacketBuilderEngine::new()
    }
}

// ---------------------------------------------------------------------------
// Generic builder
// ---------------------------------------------------------------------------

/// The flags a packet type starts with: SYN for SYN, SYN and ACK for
/// SYN-ACK, ACK for ACK, PSH for DATA, FIN for FIN, RST for RST, none otherwise.
pub open spec fn default_flags(t: PacketType) -> u8 {
    match t {
        PacketType::Syn => 0x02,
        PacketType::SynAck => 0x12,
        PacketType::Ack => 0x10,
        PacketType::Data => 0x08,
        PacketType::Fin => 0x01,
        PacketType::Rst => 0x04,
        _ => 0,
    }
}

/// Builds a header for any packet type.
#[derive(Clone, Debug)]
pub struct PacketBuilder {
    pub packet_type: PacketType,
    pub sub_type: u8,
    pub flags: PacketFlags,
    pub session_id: Option<SessionId>,
    pub sequence_number: SequenceNumber,
    pub ack_number: AckNumber,
    pub timestamp: Option<Timestamp>,
    pub version_byte: VersionByte,
    pub hmac_policy: HmacPolicy,
    pub payload: Vec<u8>,
}

impl PacketBuilder {
    /// A builder whose flags follow the packet type.
    pub fn new(packet_type: PacketType, version_byte: VersionByte, hmac_policy: HmacPolicy) -> (r: PacketBuilder)
        ensures
            r.packet_type == packet_type,
            r.sub_type == 0,
            r.flags.0 == default_flags(packet_type),
            r.session_id is None,
            r.sequence_number.0 == 0,
            r.ack_number.0 == 0,
            r.timestamp is None,
            r.version_byte == version_byte,
            r.hmac_policy == hmac_policy,
            r.payload@.len() == 0,
    {
        let bits: u8 = match packet_type {
            PacketType::Syn => 0x02,
            PacketType::SynAck => 0x12,
            PacketType::Ack => 0x10,
            PacketType::Data => 0x08,
            PacketType::Fin => 0x01,
            PacketType::Rst => 0x04,
            _ => 0,
        };
        PacketBuilder {
            packet_type,
            sub_type: 0,
            flags: PacketFlags::from_u8(bits),
            session_id: None,
            sequence_number: SequenceNumber::new(0),
            ack_number: AckNumber::new(0),
            timestamp: None,
            version_byte,
            hmac_policy,
            payload: Vec::new(),
        }
    }

    pub fn sub_type(self, sub_type: u8) -> (r: PacketBuilder)
        ensures
            r.sub_type == sub_type,
            r.packet_type == self.packet_type && r.flags == self.flags && r.session_id == self.session_id
                && r.sequence_number == self.sequence_number && r.ack_number == self.ack_number
                && r.timestamp == self.timestamp && r.version_byte == self.version_byte
                && r.hmac_policy == self.hmac_policy && r.payload@ == self.payload@,
    {
        PacketBuilder { sub_type, ..self }
    }

    pub fn flags(self, flags: PacketFlags) -> (r: PacketBuilder)
        ensures
            r.flags == flags,
            r.packet_type == self.packet_type && r.sub_type == self.sub_type && r.session_id == self.session_id
                && r.sequence_number == self.sequence_number && r.ack_number == self.ack_number
                && r.timestamp == self.timestamp && r.version_byte == self.version_byte
                && r.hmac_policy == self.hmac_policy && r.payload@ == self.payload@,
    {
        PacketBuilder { flags, ..self }
    }

    pub fn session_id(self, session_id: SessionId) -> (r: PacketBuilder)
        ensures
            r.session_id == Some(session_id),
            r.packet_type == self.packet_type && r.sub_type == self.sub_type && r.flags == self.flags
                && r.sequence_number == self.sequence_number && r.ack_number == self.ack_number
                && r.timestamp == self.timestamp && r.version_byte == self.version_byte
                && r.hmac_policy == self.hmac_policy && r.payload@ == self.payload@,
    {
        PacketBuilder { session_id: Some(session_id), ..self }
    }

    pub fn sequence_number(self, sequence_number: SequenceNumber) -> (r: PacketBuilder)
        ensures
            r.sequence_number == sequence_number,
            r.packet_type == self.packet_type && r.sub_type == self.sub_type && r.flags == self.flags
                && r.session_id == self.session_id && r.ack_number == self.ack_number
                && r.timestamp == self.timestamp && r.version_byte == self.version_byte
                && r.hmac_policy == self.hmac_policy && r.payload@ == self.payload@,
    {
        PacketBuilder { sequence_number, ..self }
    }

    pub fn ack_number(self, ack_number: AckNumber) -> (r: PacketBuilder)
        ensures
            r.ack_number == ack_number,
            r.packet_type == self.packet_type && r.sub_type == self.sub_type && r.flags == self.flags
                && r.session_id == self.session_id && r.sequence_number == self.sequence_number
                && r.timestamp == self.timestamp && r.version_byte == self.version_byte
                && r.hmac_policy == self.hmac_policy && r.payload@ == self.payload@,
    {
        PacketBuilder { ack_number, ..self }
    }

    pub fn timestamp(self, timestamp: Timestamp) -> (r: PacketBuilder)
        ensures
            r.timestamp == Some(timestamp),
            r.packet_type == self.packet_type && r.sub_type == self.sub_type && r.flags == self.flags
                && r.session_id == self.session_id && r.sequence_number == self.sequence_number
                && r.ack_number == self.ack_number && r.version_byte == self.version_byte
                && r.hmac_policy == self.hmac_policy && r.payload@ == self.payload@,
    {
        PacketBuilder { timestamp: Some(timestamp), ..self }
    }

    pub fn payload(self, payload: Vec<u8>) -> (r: PacketBuilder)
        ensures
            r.payload@ == payload@,
            r.packet_type == self.packet_type && r.sub_type == self.sub_type && r.flags == self.flags
                && r.session_id == self.session_id && r.sequence_number == self.sequence_number
                && r.ack_number == self.ack_number && r.timestamp == self.timestamp
                && r.version_byte == self.version_byte && r.hmac_policy == self.hmac_policy,
    {
        PacketBuilder { payload, ..self }
    }

    /// The header: refused without a session identifier; the payload length is
    /// the payload's low sixteen bits; without a timestamp, the current time.
    pub fn build_header(self) -> (r: Result<PacketHeader, ValidationError>)
        ensures
            self.session_id is None ==> r == Err::<PacketHeader, ValidationError>(ValidationError::InvalidSessionId),
            self.session_id matches Some(sid) ==> (r matches Ok(h) && h == header_new(
                self.version_byte,
                self.packet_type,
                SubType(self.sub_type),
                self.flags,
                sid,
                self.sequence_number,
                self.ack_number,
                match self.timestamp { Some(t) => t, None => h.timestamp },
                PayloadLength(self.payload@.len() as u16),
                self.hmac_policy,
            )),
    {
        let session_id = match self.session_id {
            Some(s) => s,
            None => return Err(ValidationError::InvalidSessionId),
        };
        let timestamp = match self.timestamp {
            Some(t) => t,
            None => Timestamp::now(),
        };
        Ok(PacketHeader::new(
            self.version_byte,
            self.packet_type,
            SubType::new(self.sub_type),
            self.flags,
            session_id,
            self.sequence_number,
            self.ack_number,
            timestamp,
            PayloadLength::new(self.payload.len() as u16),
            self.hmac_policy,
        ))
    }
}


// ---------------------------------------------------------------------------
// SYN
// ---------------------------------------------------------------------------

/// Builds SYN packets.
#[derive(Clone, Copy, Debug)]
pub struct SynPacketBuilder {
    pub version_byte: VersionByte,
    pub hmac_policy: HmacPolicy,
    pub session_id: Option<SessionId>,
    pub initial_sequence: SequenceNumber,
    pub protocol_version: u8,
    pub session_config: Option<SessionConfig>,
    pub connection_params: Option<ConnectionParams>,
    pub client_public_key: Option<EcdhPublicKey>,
    pub psk_auth_hash: Option<[u8; 32]>,
    pub key_exchange_id: u16,
}

/// The session configuration a SYN is built with.
pub open spec fn config_or_default(c: Option<SessionConfig>) -> SessionConfig {
    match c {
        Some(c) => c,
        None => SessionConfig {
            session_id_length: SessionIdLength::Bits64,
            timestamp_config: TimestampConfig::Bits32,
            hmac_policy: HmacPolicy::Medium,
        },
    }
}

/// The connection parameters a SYN is built with.
pub open spec fn params_or_default(c: Option<ConnectionParams>) -> ConnectionParams {
    match c {
        Some(c) => c,
        None => ConnectionParams { window_size: 65535, max_fragment_size: 1400 },
    }
}

/// The PSK hash a SYN is built with: zeros when none was given.
pub open spec fn psk_or_zero(h: Option<[u8; 32]>) -> Seq<u8> {
    match h {
        Some(h) => h@,
        None => Seq::new(32, |i: int| 0u8),
    }
}

/// The SYN fields a tag covers: initial sequence, protocol version, public
/// key, PSK hash and key exchange identifier.
pub open spec fn syn_signed_fields(p: SynPacket) -> Seq<u8> {
    be_encode(p.initial_sequence.0 as nat, 4) + seq![p.protocol_version.0] + p.client_public_key.0@
        + p.psk_auth_hash@ + be_encode(p.key_exchange_id as nat, 2)
}

/// `p` is the SYN that `b` builds, its header stamped at `p.header.timestamp`.
pub open spec fn syn_built(b: SynPacketBuilder, p: SynPacket) -> bool {
    &&& b.session_id matches Some(sid)
    &&& b.client_public_key matches Some(key)
    &&& p.header == header_new(b.version_byte, PacketType::Syn, SubType(0), PacketFlags(0x02), sid, b.initial_sequence, AckNumber(0), p.header.timestamp, PayloadLength(0), b.hmac_policy)
    &&& p.initial_sequence == b.initial_sequence
    &&& p.protocol_version == ProtocolVersion(b.protocol_version)
    &&& p.session_config == config_or_default(b.session_config)
    &&& p.connection_params == params_or_default(b.connection_params)
    &&& p.client_public_key == key
    &&& p.psk_auth_hash@ == psk_or_zero(b.psk_auth_hash)
    &&& p.key_exchange_id == b.key_exchange_id
}

/// Why building a SYN fails, if it does: no session identifier, then no public key.
pub open spec fn syn_build_error(b: SynPacketBuilder) -> Option<ValidationError> {
    if b.session_id is None {
        Some(ValidationError::InvalidSessionId)
    } else if b.client_public_key is None {
        Some(ValidationError::MissingPublicKey)
    } else {
        None
    }
}

impl SynPacketBuilder {
    pub open spec fn new_spec(version_byte: VersionByte, hmac_policy: HmacPolicy) -> SynPacketBuilder {
        SynPacketBuilder {
            version_byte,
            hmac_policy,
            session_id: None,
            initial_sequence: SequenceNumber(0),
            protocol_version: 1,
            session_config: None,
            connection_params: None,
            client_public_key: None,
            psk_auth_hash: None,
            key_exchange_id: 0,
        }
    }

    /// Protocol version 1, sequence 0, nothing else set.
    pub fn new(version_byte: VersionByte, hmac_policy: HmacPolicy) -> (r: SynPacketBuilder)
        ensures
            r == Self::new_spec(version_byte, hmac_policy),
    {
        SynPacketBuilder {
            version_byte,
            hmac_policy,
            session_id: None,
            initial_sequence: SequenceNumber::new(0),
            protocol_version: 1,
            session_config: None,
            connection_params: None,
            client_public_key: None,
            psk_auth_hash: None,
            key_exchange_id: 0,
        }
    }

    pub fn session_id(self, session_id: SessionId) -> (r: SynPacketBuilder)
        ensures
            r == (SynPacketBuilder { session_id: Some(session_id), ..self }),
    {
        SynPacketBuilder { session_id: Some(session_id), ..self }
    }

    pub fn initial_sequence(self, initial_sequence: SequenceNumber) -> (r: SynPacketBuilder)
        ensures
            r == (SynPacketBuilder { initial_sequence, ..self }),
    {
        SynPacketBuilder { initial_sequence, ..self }
    }

    pub fn protocol_version(self, protocol_version: u8) -> (r: SynPacketBuilder)
        ensures
            r == (SynPacketBuilder { protocol_version, ..self }),
    {
        SynPacketBuilder { protocol_version, ..self }
    }

    pub fn session_config(self, session_config: SessionConfig) -> (r: SynPacketBuilder)
        ensures
            r == (SynPacketBuilder { session_config: Some(session_config), ..self }),
    {
        SynPacketBuilder { session_config: Some(session_config), ..self }
    }

    pub fn connection_params(self, connection_params: ConnectionParams) -> (r: SynPacketBuilder)
        ensures
            r == (SynPacketBuilder { connection_params: Some(connection_params), ..self }),
    {
        SynPacketBuilder { connection_params: Some(connection_params), ..self }
    }

    pub fn client_public_key(self, client_public_key: EcdhPublicKey) -> (r: SynPacketBuilder)
        ensures
            r == (SynPacketBuilder { client_public_key: Some(client_public_key), ..self }),
    {
        SynPacketBuilder { client_public_key: Some(client_public_key), ..self }
    }

    pub fn psk_auth_hash(self, psk_auth_hash: [u8; 32]) -> (r: SynPacketBuilder)
        ensures
            r == (SynPacketBuilder { psk_auth_hash: Some(psk_auth_hash), ..self }),
    {
        SynPacketBuilder { psk_auth_hash: Some(psk_auth_hash), ..self }
    }

    /// The SYN, stamped now and tagged with sixteen zero bytes.
    pub fn build(self) -> (r: Result<SynPacket, ValidationError>)
        ensures
            match syn_build_error(self) {
                Some(e) => r == Err::<SynPacket, ValidationError>(e),
                None => r matches Ok(p) && syn_built(self, p) && default_tag(p.hmac),
            },
    {
        let session_id = match self.session_id {
            Some(s) => s,
            None => return Err(ValidationError::InvalidSessionId),
        };
        let client_public_key = match self.client_public_key {
            Some(k) => k,
            None => return Err(ValidationError::MissingPublicKey),
        };
        let header = PacketHeader::new(
            self.version_byte,
            PacketType::Syn,
            SubType::new(0),
            PacketFlags::from_u8(0x02),
            session_id,
            self.initial_sequence,
            AckNumber::new(0),
            Timestamp::now(),
            PayloadLength::new(0),
            self.hmac_policy,
        );
        Ok(SynPacket {
            header,
            hmac: HmacTag::default(),
            initial_sequence: self.initial_sequence,
            protocol_version: ProtocolVersion::new(self.protocol_version),
            session_config: match self.session_config { Some(c) => c, None => SessionConfig::default() },
            connection_params: match self.connection_params { Some(c) => c, None => ConnectionParams::default() },
            client_public_key,
            psk_auth_hash: match self.psk_auth_hash { Some(h) => h, None => zero_hash() },
            key_exchange_id: self.key_exchange_id,
        })
    }

    /// The SYN, stamped now and tagged over its type, header and SYN fields
    /// under `session_key`.
    pub fn build_with_hmac(self, session_key: &[u8]) -> (r: Result<SynPacket, ValidationError>)
        requires
            session_key@.len() < max_hmac_message(),
        ensures
            match syn_build_error(self) {
                Some(e) => r == Err::<SynPacket, ValidationError>(e),
                None => r matches Ok(p) && syn_built(self, p) && p.hmac.policy == self.hmac_policy
                    && p.hmac.data@ == packet_tag(session_key@, crate::packet::builder::signed_bytes(p.header, syn_signed_fields(p)), self.hmac_policy) && p.hmac.data@.len() == spec_tag_size(self.hmac_policy),
            },
    {
        let unsigned = match self.build() {
            Ok(p) => p,
            Err(e) => return Err(e),
        };
        let mut fields: Vec<u8> = Vec::new();
        push_be(&mut fields, unsigned.initial_sequence.0 as u64, 4);
        fields.push(unsigned.protocol_version.0);
        push_slice(&mut fields, unsigned.client_public_key.0.as_slice());
        push_slice(&mut fields, unsigned.psk_auth_hash.as_slice());
        push_be(&mut fields, unsigned.key_exchange_id as u64, 2);
        proof {
            assert(fields@ =~= syn_signed_fields(unsigned));
        }
        let hmac = sign_packet(&unsigned.header, fields.as_slice(), session_key, self.hmac_policy);
        Ok(SynPacket { hmac, ..unsigned })
    }
}


// ---------------------------------------------------------------------------
// SYN-ACK
// ---------------------------------------------------------------------------

/// Builds SYN-ACK packets.
#[derive(Clone, Copy, Debug)]
pub struct SynAckPacketBuilder {
    pub version_byte: VersionByte,
    pub hmac_policy: HmacPolicy,
    pub session_id: Option<SessionId>,
    pub ack_sequence: SequenceNumber,
    pub server_sequence: SequenceNumber,
    pub protocol_version: ProtocolVersion,
    pub server_public_key: Option<EcdhPublicKey>,
    pub key_exchange_id: u16,
    pub shared_secret_verification: [u8; 32],
}

/// The SYN-ACK fields a tag covers: every field that follows the tag, namely
/// server and acknowledged sequence, protocol version, public key, key
/// exchange identifier and shared-secret verification.
pub open spec fn syn_ack_signed_fields(p: SynAckPacket) -> Seq<u8> {
    be_encode(p.server_sequence.0 as nat, 4) + be_encode(p.ack_sequence.0 as nat, 4) + seq![p.protocol_version.0]
        + p.server_public_key.0@ + be_encode(p.key_exchange_id as nat, 2) + p.shared_secret_verification@
}

/// `p` is the SYN-ACK that `b` builds, its header stamped at `p.header.timestamp`.
pub open spec fn syn_ack_built(b: SynAckPacketBuilder, p: SynAckPacket) -> bool {
    &&& b.session_id matches Some(sid)
    &&& b.server_public_key matches Some(key)
    &&& p.header == header_new(b.version_byte, PacketType::SynAck, SubType(0), PacketFlags(0x12), sid, b.server_sequence, AckNumber(b.ack_sequence.0), p.header.timestamp, PayloadLength(0), b.hmac_policy)
    &&& p.ack_sequence == b.ack_sequence
    &&& p.server_sequence == b.server_sequence
    &&& p.protocol_version == b.protocol_version
    &&& p.session_config == config_or_default(None)
    &&& p.connection_params == params_or_default(None)
    &&& p.server_public_key == key
    &&& p.key_exchange_id == b.key_exchange_id
    &&& p.shared_secret_verification == b.shared_secret_verification
}

/// Why building a SYN-ACK fails, if it does: no session identifier, then no public key.
pub open spec fn syn_ack_build_error(b: SynAckPacketBuilder) -> Option<ValidationError> {
    if b.session_id is None {
        Some(ValidationError::InvalidSessionId)
    } else if b.server_public_key is None {
        Some(ValidationError::InvalidPublicKey)
    } else {
        None
    }
}

impl SynAckPacketBuilder {
    /// Protocol version 1, sequences 0, zero verification, nothing else set.
    pub fn new(version_byte: VersionByte, hmac_policy: HmacPolicy) -> (r: SynAckPacketBuilder)
        ensures
            r.version_byte == version_byte,
            r.hmac_policy == hmac_policy,
            r.session_id is None,
            r.ack_sequence.0 == 0,
            r.server_sequence.0 == 0,
            r.protocol_version.0 == 1,
            r.server_public_key is None,
            r.key_exchange_id == 0,
            r.shared_secret_verification@ == Seq::new(32, |i: int| 0u8),
    {
        SynAckPacketBuilder {
            version_byte,
            hmac_policy,
            session_id: None,
            ack_sequence: SequenceNumber::new(0),
            server_sequence: SequenceNumber::new(0),
            protocol_version: ProtocolVersion::new(1),
            server_public_key: None,
            key_exchange_id: 0,
            shared_secret_verification: zero_hash(),
        }
    }

    pub fn session_id(self, session_id: SessionId) -> (r: SynAckPacketBuilder)
        ensures
            r == (SynAckPacketBuilder { session_id: Some(session_id), ..self }),
    {
        SynAckPacketBuilder { session_id: Some(session_id), ..self }
    }

    pub fn ack_sequence(self, ack_sequence: SequenceNumber) -> (r: SynAckPacketBuilder)
        ensures
            r == (SynAckPacketBuilder { ack_sequence, ..self }),
    {
        SynAckPacketBuilder { ack_sequence, ..self }
    }

    pub fn server_sequence(self, server_sequence: SequenceNumber) -> (r: SynAckPacketBuilder)
        ensures
            r == (SynAckPacketBuilder { server_sequence, ..self }),
    {
        SynAckPacketBuilder { server_sequence, ..self }
    }

    pub fn protocol_version(self, protocol_version: ProtocolVersion) -> (r: SynAckPacketBuilder)
        ensures
            r == (SynAckPacketBuilder { protocol_version, ..self }),
    {
        SynAckPacketBuilder { protocol_version, ..self }
    }

    pub fn key_exchange_id(self, key_exchange_id: u16) -> (r: SynAckPacketBuilder)
        ensures
            r == (SynAckPacketBuilder { key_exchange_id, ..self }),
    {
        SynAckPacketBuilder { key_exchange_id, ..self }
    }

    pub fn shared_secret_verification(self, shared_secret_verification: [u8; 32]) -> (r: SynAckPacketBuilder)
        ensures
            r == (SynAckPacketBuilder { shared_secret_verification, ..self }),
    {
        SynAckPacketBuilder { shared_secret_verification, ..self }
    }

    pub fn server_public_key(self, server_public_key: EcdhPublicKey) -> (r: SynAckPacketBuilder)
        ensures
            r == (SynAckPacketBuilder { server_public_key: Some(server_public_key), ..self }),
    {
        SynAckPacketBuilder { server_public_key: Some(server_public_key), ..self }
    }

    /// The SYN-ACK, stamped now and tagged with sixteen zero bytes.
    pub fn build(self) -> (r: Result<SynAckPacket, ValidationError>)
        ensures
            match syn_ack_build_error(self) {
                Some(e) => r == Err::<SynAckPacket, ValidationError>(e),
                None => r matches Ok(p) && syn_ack_built(self, p) && default_tag(p.hmac),
            },
    {
        let session_id = match self.session_id {
            Some(s) => s,
            None => return Err(ValidationError::InvalidSessionId),
        };
        let server_public_key = match self.server_public_key {
            Some(k) => k,
            None => return Err(ValidationError::InvalidPublicKey),
        };
        let header = PacketHeader::new(
            self.version_byte,
            PacketType::SynAck,
            SubType::new(0),
            PacketFlags::from_u8(0x12),
            session_id,
            self.server_sequence,
            AckNumber::new(self.ack_sequence.as_u32()),
            Timestamp::now(),
            PayloadLength::new(0),
            self.hmac_policy,
        );
        Ok(SynAckPacket {
            header,
            hmac: HmacTag::default(),
            ack_sequence: self.ack_sequence,
            server_sequence: self.server_sequence,
            protocol_version: self.protocol_version,
            session_config: SessionConfig::default(),
            connection_params: ConnectionParams::default(),
            server_public_key,
            key_exchange_id: self.key_exchange_id,
            shared_secret_verification: self.shared_secret_verification,
        })
    }

    /// The SYN-ACK, stamped now and tagged over its type, header and SYN-ACK
    /// fields under `session_key`.
    pub fn build_with_hmac(self, session_key: &[u8]) -> (r: Result<SynAckPacket, ValidationError>)
        requires
            session_key@.len() < max_hmac_message(),
        ensures
            match syn_ack_build_error(self) {
                Some(e) => r == Err::<SynAckPacket, ValidationError>(e),
                None => r matches Ok(p) && syn_ack_built(self, p) && p.hmac.policy == self.hmac_policy
                    && p.hmac.data@ == packet_tag(session_key@, signed_bytes(p.header, syn_ack_signed_fields(p)), self.hmac_policy) && p.hmac.data@.len() == spec_tag_size(self.hmac_policy),
            },
    {
        let unsigned = match self.build() {
            Ok(p) => p,
            Err(e) => return Err(e),
        };
        let mut fields: Vec<u8> = Vec::new();
        push_be(&mut fields, unsigned.server_sequence.0 as u64, 4);
        push_be(&mut fields, unsigned.ack_sequence.0 as u64, 4);
        fields.push(unsigned.protocol_version.0);
        push_slice(&mut fields, unsigned.server_public_key.0.as_slice());
        push_be(&mut fields, unsigned.key_exchange_id as u64, 2);
        push_slice(&mut fields, unsigned.shared_secret_verification.as_slice());
        proof {
            assert(fields@ =~= syn_ack_signed_fields(unsigned));
        }
        let hmac = sign_packet(&unsigned.header, fields.as_slice(), session_key, self.hmac_policy);
        Ok(SynAckPacket { hmac, ..unsigned })
    }
}

// ---------------------------------------------------------------------------
// ACK
// ---------------------------------------------------------------------------

/// Holds the defaults for ACK packets.
#[derive(Clone, Copy, Debug)]
pub struct AckPacketBuilder {
    pub version_byte: VersionByte,
    pub hmac_policy: HmacPolicy,
}

impl AckPacketBuilder {
    pub fn new(version_byte: VersionByte, hmac_policy: HmacPolicy) -> (r: AckPacketBuilder)
        ensures
            r.version_byte == version_byte,
            r.hmac_policy == hmac_policy,
    {
        AckPacketBuilder { version_byte, hmac_policy }
    }
}

// ---------------------------------------------------------------------------
// DATA
// ---------------------------------------------------------------------------

/// Builds DATA packets.
#[derive(Clone, Debug)]
pub struct DataPacketBuilder {
    pub version_byte: VersionByte,
    pub hmac_policy: HmacPolicy,
    pub session_id: Option<SessionId>,
    pub payload: Option<Vec<u8>>,
    pub sequence_number: SequenceNumber,
    pub ack_number: AckNumber,
    pub window_size: WindowSize,
    pub flags: PacketFlags,
    pub sub_type: SubType,
    pub timestamp: Option<Timestamp>,
    pub hmac: Option<HmacTag>,
    pub fragment_header: Option<FragmentHeader>,
}

/// `p` is the DATA packet that `b` builds, its header stamped at the
/// builder's timestamp or, without one, at `p.header.timestamp`.
pub open spec fn data_built(b: DataPacketBuilder, p: DataPacket) -> bool {
    &&& b.session_id matches Some(sid)
    &&& b.payload matches Some(payload)
    &&& p.header == header_new(b.version_byte, PacketType::Data, b.sub_type, b.flags, sid, b.sequence_number, b.ack_number,
        match b.timestamp { Some(t) => t, None => p.header.timestamp }, PayloadLength(payload@.len() as u16), b.hmac_policy)
    &&& p.window_size == b.window_size
    &&& p.fragment_header == b.fragment_header
    &&& p.payload@ == payload@
}

/// Why building a DATA packet fails, if it does: no session identifier, then no payload.
pub open spec fn data_build_error(b: DataPacketBuilder) -> Option<ValidationError> {
    if b.session_id is None {
        Some(ValidationError::InvalidSessionId)
    } else if b.payload is None {
        Some(ValidationError::InvalidPayloadLength)
    } else {
        None
    }
}

impl DataPacketBuilder {
    /// A window of 65535, no flags, nothing else set.
    pub fn new(version_byte: VersionByte, hmac_policy: HmacPolicy) -> (r: DataPacketBuilder)
        ensures
            r.version_byte == version_byte,
            r.hmac_policy == hmac_policy,
            r.session_id is None,
            r.payload is None,
            r.sequence_number.0 == 0,
            r.ack_number.0 == 0,
            r.window_size.0 == 65535,
            r.flags.0 == 0,
            r.sub_type.0 == 0,
            r.timestamp is None,
            r.hmac is None,
            r.fragment_header is None,
    {
        DataPacketBuilder {
            version_byte,
            hmac_policy,
            session_id: None,
            payload: None,
            sequence_number: SequenceNumber::new(0),
            ack_number: AckNumber::new(0),
            window_size: WindowSize::new(65535),
            flags: PacketFlags::new(),
            sub_type: SubType::new(0),
            timestamp: None,
            hmac: None,
            fragment_header: None,
        }
    }

    pub fn session_id(self, session_id: SessionId) -> (r: DataPacketBuilder)
        ensures
            r == (DataPacketBuilder { session_id: Some(session_id), ..self }),
    {
        DataPacketBuilder { session_id: Some(session_id), ..self }
    }

    pub fn payload(self, payload: Vec<u8>) -> (r: DataPacketBuilder)
        ensures
            r == (DataPacketBuilder { payload: Some(payload), ..self }),
    {
        DataPacketBuilder { payload: Some(payload), ..self }
    }

    pub fn sequence_number(self, sequence_number: SequenceNumber) -> (r: DataPacketBuilder)
        ensures
            r == (DataPacketBuilder { sequence_number, ..self }),
    {
        DataPacketBuilder { sequence_number, ..self }
    }

    pub fn ack_number(self, ack_number: AckNumber) -> (r: DataPacketBuilder)
        ensures
            r == (DataPacketBuilder { ack_number, ..self }),
    {
        DataPacketBuilder { ack_number, ..self }
    }

    pub fn window_size(self, window_size: WindowSize) -> (r: DataPacketBuilder)
        ensures
            r == (DataPacketBuilder { window_size, ..self }),
    {
        DataPacketBuilder { window_size, ..self }
    }

    pub fn flags(self, flags: PacketFlags) -> (r: DataPacketBuilder)
        ensures
            r == (DataPacketBuilder { flags, ..self }),
    {
        DataPacketBuilder { flags, ..self }
    }

    pub fn sub_type(self, sub_type: SubType) -> (r: DataPacketBuilder)
        ensures
            r == (DataPacketBuilder { sub_type, ..self }),
    {
        DataPacketBuilder { sub_type, ..self }
    }

    pub fn timestamp(self, timestamp: Timestamp) -> (r: DataPacketBuilder)
        ensures
            r == (DataPacketBuilder { timestamp: Some(timestamp), ..self }),
    {
        DataPacketBuilder { timestamp: Some(timestamp), ..self }
    }

    pub fn hmac(self, hmac: HmacTag) -> (r: DataPacketBuilder)
        ensures
            r == (DataPacketBuilder { hmac: Some(hmac), ..self }),
    {
        DataPacketBuilder { hmac: Some(hmac), ..self }
    }

    pub fn fragment_header(self, fragment_header: FragmentHeader) -> (r: DataPacketBuilder)
        ensures
            r == (DataPacketBuilder { fragment_header: Some(fragment_header), ..self }),
    {
        DataPacketBuilder { fragment_header: Some(fragment_header), ..self }
    }

    /// The DATA packet, tagged with the tag given or, without one, with zeros
    /// of the policy's tag size.
    pub fn build(self) -> (r: Result<DataPacket, ValidationError>)
        ensures
            match data_build_error(self) {
                Some(e) => r == Err::<DataPacket, ValidationError>(e),
                None => r matches Ok(p) && data_built(self, p) && match self.hmac {
                    Some(t) => p.hmac == t,
                    None => p.hmac.data@ == Seq::new(spec_tag_size(self.hmac_policy), |i: int| 0u8) && p.hmac.policy == self.hmac_policy,
                },
            },
    {
        let session_id = match self.session_id {
            Some(s) => s,
            None => return Err(ValidationError::InvalidSessionId),
        };
        let payload = match self.payload {
            Some(p) => p,
            None => return Err(ValidationError::InvalidPayloadLength),
        };
        let hmac = match self.hmac {
            Some(t) => t,
            None => {
                let size = self.hmac_policy.tag_size();
                let zeros = vec![0u8; size];
                proof {
                    assert(zeros@ =~= Seq::new(spec_tag_size(self.hmac_policy), |i: int| 0u8));
                }
                HmacTag { data: zeros, policy: self.hmac_policy }
            },
        };
        let timestamp = match self.timestamp {
            Some(t) => t,
            None => Timestamp::now(),
        };
        let header = PacketHeader::new(
            self.version_byte,
            PacketType::Data,
            self.sub_type,
            self.flags,
            session_id,
            self.sequence_number,
            self.ack_number,
            timestamp,
            PayloadLength::new(payload.len() as u16),
            self.hmac_policy,
        );
        Ok(DataPacket { header, hmac, window_size: self.window_size, fragment_header: self.fragment_header, payload })
    }

    /// The DATA packet, tagged over its type, header and payload under
    /// `session_key` (a tag set on the builder is not used).
    pub fn build_with_hmac(self, session_key: &[u8]) -> (r: Result<DataPacket, ValidationError>)
        requires
            session_key@.len() < max_hmac_message(),
            self.payload matches Some(p) ==> p@.len() < 0x1000_0000_0000_0000,
        ensures
            match data_build_error(self) {
                Some(e) => r == Err::<DataPacket, ValidationError>(e),
                None => r matches Ok(p) && data_built(self, p) && p.hmac.policy == self.hmac_policy
                    && p.hmac.data@ == packet_tag(session_key@, signed_bytes(p.header, p.payload@), self.hmac_policy) && p.hmac.data@.len() == spec_tag_size(self.hmac_policy),
            },
    {
        let policy = self.hmac_policy;
        let unsigned = match self.build() {
            Ok(p) => p,
            Err(e) => return Err(e),
        };
        let hmac = sign_packet(&unsigned.header, unsigned.payload.as_slice(), session_key, policy);
        Ok(DataPacket { hmac, ..unsigned })
    }
}

// ---------------------------------------------------------------------------
// FIN
// ---------------------------------------------------------------------------

/// Builds FIN packets.
#[derive(Clone, Copy, Debug)]
pub struct FinPacketBuilder {
    pub version_byte: VersionByte,
    pub hmac_policy: HmacPolicy,
    pub session_id: Option<SessionId>,
    pub final_sequence: SequenceNumber,
    pub reason: TerminationReason,
}

/// `p` is the FIN that `b` builds, its header stamped at `p.header.timestamp`.
pub open spec fn fin_built(b: FinPacketBuilder, p: FinPacket) -> bool {
    &&& b.session_id matches Some(sid)
    &&& p.header == header_new(b.version_byte, PacketType::Fin, SubType(0), PacketFlags(0x01), sid, b.final_sequence, AckNumber(0), p.header.timestamp, PayloadLength(0), b.hmac_policy)
    &&& p.final_sequence == b.final_sequence
    &&& p.reason == b.reason
}

/// The FIN fields a tag covers: final sequence and reason.
pub open spec fn fin_signed_fields(p: FinPacket) -> Seq<u8> {
    be_encode(p.final_sequence.0 as nat, 4) + seq![termination_code(p.reason)]
}

/// A built FIN carries the builder's final sequence number in its header as
/// in its body, with the builder's session, the FIN type, no acknowledgment
/// number and the builder's reason.
pub proof fn lemma_fin_carries_final_sequence(b: FinPacketBuilder, p: FinPacket)
    requires
        fin_built(b, p),
    ensures
        p.header.sequence_number == b.final_sequence,
        p.final_sequence == b.final_sequence,
        b.session_id == Some(p.header.session_id),
        p.header.packet_type == PacketType::Fin,
        p.header.ack_number == AckNumber(0),
        p.reason == b.reason,
{
}

impl FinPacketBuilder {
    /// Sequence 0, a normal close, no session identifier.
    pub fn new(version_byte: VersionByte, hmac_policy: HmacPolicy) -> (r: FinPacketBuilder)
        ensures
            r == (FinPacketBuilder { version_byte, hmac_policy, session_id: None, final_sequence: SequenceNumber(0), reason: TerminationReason::Normal }),
    {
        FinPacketBuilder { version_byte, hmac_policy, session_id: None, final_sequence: SequenceNumber::new(0), reason: TerminationReason::Normal }
    }

    pub fn session_id(self, session_id: SessionId) -> (r: FinPacketBuilder)
        ensures
            r == (FinPacketBuilder { session_id: Some(session_id), ..self }),
    {
        FinPacketBuilder { session_id: Some(session_id), ..self }
    }

    pub fn final_sequence(self, final_sequence: SequenceNumber) -> (r: FinPacketBuilder)
        ensures
            r == (FinPacketBuilder { final_sequence, ..self }),
    {
        FinPacketBuilder { final_sequence, ..self }
    }

    pub fn reason(self, reason: TerminationReason) -> (r: FinPacketBuilder)
        ensures
            r == (FinPacketBuilder { reason, ..self }),
    {
        FinPacketBuilder { reason, ..self }
    }

    /// The FIN, stamped now and tagged with sixteen zero bytes; refused without a session identifier.
    pub fn build(self) -> (r: Result<FinPacket, ValidationError>)
        ensures
            self.session_id is None ==> r == Err::<FinPacket, ValidationError>(ValidationError::InvalidSessionId),
            self.session_id is Some ==> (r matches Ok(p) && fin_built(self, p) && default_tag(p.hmac)),
            r matches Ok(p) ==> p.header.sequence_number == self.final_sequence && p.final_sequence
                == self.final_sequence,
    {
        let session_id = match self.session_id {
            Some(s) => s,
            None => return Err(ValidationError::InvalidSessionId),
        };
        let header = PacketHeader::new(self.version_byte, PacketType::Fin, SubType::new(0), PacketFlags::from_u8(0x01), session_id, self.final_sequence, AckNumber::new(0), Timestamp::now(), PayloadLength::new(0), self.hmac_policy);
        Ok(FinPacket { header, hmac: HmacTag::default(), final_sequence: self.final_sequence, reason: self.reason })
    }

    /// The FIN, tagged over its type, header, final sequence and reason under `session_key`.
    pub fn build_with_hmac(self, session_key: &[u8]) -> (r: Result<FinPacket, ValidationError>)
        requires
            session_key@.len() < max_hmac_message(),
        ensures
            self.session_id is None ==> r == Err::<FinPacket, ValidationError>(ValidationError::InvalidSessionId),
            self.session_id is Some ==> (r matches Ok(p) && fin_built(self, p) && p.hmac.policy == self.hmac_policy
                && p.hmac.data@ == packet_tag(session_key@, signed_bytes(p.header, fin_signed_fields(p)), self.hmac_policy) && p.hmac.data@.len() == spec_tag_size(self.hmac_policy)),
    {
        let unsigned = match self.build() {
            Ok(p) => p,
            Err(e) => return Err(e),
        };
        let mut fields: Vec<u8> = Vec::new();
        push_be(&mut fields, unsigned.final_sequence.0 as u64, 4);
        fields.push(unsigned.reason.as_u8());
        proof {
            assert(fields@ =~= fin_signed_fields(unsigned));
        }
        let hmac = sign_packet(&unsigned.header, fields.as_slice(), session_key, self.hmac_policy);
        Ok(FinPacket { hmac, ..unsigned })
    }
}

// ---------------------------------------------------------------------------
// RST
// ---------------------------------------------------------------------------

/// Builds RST packets.
#[derive(Clone, Copy, Debug)]
pub struct RstPacketBuilder {
    pub version_byte: VersionByte,
    pub hmac_policy: HmacPolicy,
    pub session_id: Option<SessionId>,
    pub reason: ResetReason,
    pub error_code: Option<ErrorCode>,
}

/// `p` is the RST that `b` builds, its header stamped at `p.header.timestamp`.
pub open spec fn rst_built(b: RstPacketBuilder, p: RstPacket) -> bool {
    &&& b.session_id matches Some(sid)
    &&& p.header == header_new(b.version_byte, PacketType::Rst, SubType(0), PacketFlags(0x04), sid, SequenceNumber(0), AckNumber(0), p.header.timestamp, PayloadLength(0), b.hmac_policy)
    &&& p.reason == b.reason
    &&& p.error_code == b.error_code
}

/// The RST fields a tag covers: the reason, and the error code as two bytes when present.
pub open spec fn rst_signed_fields(p: RstPacket) -> Seq<u8> {
    seq![reset_code(p.reason)] + match p.error_code {
        Some(c) => seq![0u8, c.0],
        None => Seq::<u8>::empty(),
    }
}

impl RstPacketBuilder {
    /// A protocol error reset, no error code, no session identifier.
    pub fn new(version_byte: VersionByte, hmac_policy: HmacPolicy) -> (r: RstPacketBuilder)
        ensures
            r == (RstPacketBuilder { version_byte, hmac_policy, session_id: None, reason: ResetReason::ProtocolError, error_code: None }),
    {
        RstPacketBuilder { version_byte, hmac_policy, session_id: None, reason: ResetReason::ProtocolError, error_code: None }
    }

    pub fn session_id(self, session_id: SessionId) -> (r: RstPacketBuilder)
        ensures
            r == (RstPacketBuilder { session_id: Some(session_id), ..self }),
    {
        RstPacketBuilder { session_id: Some(session_id), ..self }
    }

    pub fn reason(self, reason: ResetReason) -> (r: RstPacketBuilder)
        ensures
            r == (RstPacketBuilder { reason, ..self }),
    {
        RstPacketBuilder { reason, ..self }
    }

    pub fn error_code(self, error_code: ErrorCode) -> (r: RstPacketBuilder)
        ensures
            r == (RstPacketBuilder { error_code: Some(error_code), ..self }),
    {
        RstPacketBuilder { error_code: Some(error_code), ..self }
    }

    /// The RST, stamped now and tagged with sixteen zero bytes; refused without a session identifier.
    pub fn build(self) -> (r: Result<RstPacket, ValidationError>)
        ensures
            self.session_id is None ==> r == Err::<RstPacket, ValidationError>(ValidationError::InvalidSessionId),
            self.session_id is Some ==> (r matches Ok(p) && rst_built(self, p) && default_tag(p.hmac)),
    {
        let session_id = match self.session_id {
            Some(s) => s,
            None => return Err(ValidationError::InvalidSessionId),
        };
        let header = PacketHeader::new(self.version_byte, PacketType::Rst, SubType::new(0), PacketFlags::from_u8(0x04), session_id, SequenceNumber::new(0), AckNumber::new(0), Timestamp::now(), PayloadLength::new(0), self.hmac_policy);
        Ok(RstPacket { header, hmac: HmacTag::default(), reason: self.reason, error_code: self.error_code })
    }

    /// The RST, tagged over its type, header, reason and error code under `session_key`.
    pub fn build_with_hmac(self, session_key: &[u8]) -> (r: Result<RstPacket, ValidationError>)
        requires
            session_key@.len() < max_hmac_message(),
        ensures
            self.session_id is None ==> r == Err::<RstPacket, ValidationError>(ValidationError::InvalidSessionId),
            self.session_id is Some ==> (r matches Ok(p) && rst_built(self, p) && p.hmac.policy == self.hmac_policy
                && p.hmac.data@ == packet_tag(session_key@, signed_bytes(p.header, rst_signed_fields(p)), self.hmac_policy) && p.hmac.data@.len() == spec_tag_size(self.hmac_policy)),
    {
        let unsigned = match self.build() {
            Ok(p) => p,
            Err(e) => return Err(e),
        };
        let mut fields: Vec<u8> = Vec::new();
        fields.push(unsigned.reason.as_u8());
        match unsigned.error_code {
            Some(c) => {
                fields.push(0u8);
                fields.push(c.as_u8());
            },
            None => {},
        }
        proof {
            assert(fields@ =~= rst_signed_fields(unsigned));
        }
        let hmac = sign_packet(&unsigned.header, fields.as_slice(), session_key, self.hmac_policy);
        Ok(RstPacket { hmac, ..unsigned })
    }
}

// ---------------------------------------------------------------------------
// HEARTBEAT
// ---------------------------------------------------------------------------

/// Builds HEARTBEAT packets.
#[derive(Clone, Copy, Debug)]
pub struct HeartbeatPacketBuilder {
    pub version_byte: VersionByte,
    pub hmac_policy: HmacPolicy,
    pub session_id: Option<SessionId>,
    pub heartbeat_sequence: HeartbeatSequence,
    pub rtt_measurement: Option<RoundTripTime>,
}

/// `p` is the HEARTBEAT that `b` builds, its header stamped at `p.header.timestamp`.
pub open spec fn heartbeat_built(b: HeartbeatPacketBuilder, p: HeartbeatPacket) -> bool {
    &&& b.session_id matches Some(sid)
    &&& p.header == header_new(b.version_byte, PacketType::Heartbeat, SubType(0), PacketFlags(0), sid, SequenceNumber(0), AckNumber(0), p.header.timestamp, PayloadLength(0), b.hmac_policy)
    &&& p.heartbeat_sequence == b.heartbeat_sequence
    &&& p.rtt_measurement == b.rtt_measurement
}

impl HeartbeatPacketBuilder {
    /// Heartbeat sequence 0, no round-trip time, no session identifier.
    pub fn new(version_byte: VersionByte, hmac_policy: HmacPolicy) -> (r: HeartbeatPacketBuilder)
        ensures
            r == (HeartbeatPacketBuilder { version_byte, hmac_policy, session_id: None, heartbeat_sequence: HeartbeatSequence(0), rtt_measurement: None }),
    {
        HeartbeatPacketBuilder { version_byte, hmac_policy, session_id: None, heartbeat_sequence: HeartbeatSequence::new(0), rtt_measurement: None }
    }

    pub fn session_id(self, session_id: SessionId) -> (r: HeartbeatPacketBuilder)
        ensures
            r == (HeartbeatPacketBuilder { session_id: Some(session_id), ..self }),
    {
        HeartbeatPacketBuilder { session_id: Some(session_id), ..self }
    }

    pub fn heartbeat_sequence(self, heartbeat_sequence: HeartbeatSequence) -> (r: HeartbeatPacketBuilder)
        ensures
            r == (HeartbeatPacketBuilder { heartbeat_sequence, ..self }),
    {
        HeartbeatPacketBuilder { heartbeat_sequence, ..self }
    }

    pub fn rtt_measurement(self, rtt_measurement: RoundTripTime) -> (r: HeartbeatPacketBuilder)
        ensures
            r == (HeartbeatPacketBuilder { rtt_measurement: Some(rtt_measurement), ..self }),
    {
        HeartbeatPacketBuilder { rtt_measurement: Some(rtt_measurement), ..self }
    }

    /// The HEARTBEAT, stamped now and tagged with sixteen zero bytes; refused without a session identifier.
    pub fn build(self) -> (r: Result<HeartbeatPacket, ValidationError>)
        ensures
            self.session_id is None ==> r == Err::<HeartbeatPacket, ValidationError>(ValidationError::InvalidSessionId),
            self.session_id is Some ==> (r matches Ok(p) && heartbeat_built(self, p) && default_tag(p.hmac)),
    {
        let session_id = match self.session_id {
            Some(s) => s,
            None => return Err(ValidationError::InvalidSessionId),
        };
        let header = PacketHeader::new(self.version_byte, PacketType::Heartbeat, SubType::new(0), PacketFlags::new(), session_id, SequenceNumber::new(0), AckNumber::new(0), Timestamp::now(), PayloadLength::new(0), self.hmac_policy);
        Ok(HeartbeatPacket { header, hmac: HmacTag::default(), heartbeat_sequence: self.heartbeat_sequence, rtt_measurement: self.rtt_measurement })
    }

    /// The HEARTBEAT, tagged over its type, header and heartbeat sequence under `session_key`.
    pub fn build_with_hmac(self, session_key: &[u8]) -> (r: Result<HeartbeatPacket, ValidationError>)
        requires
            session_key@.len() < max_hmac_message(),
        ensures
            self.session_id is None ==> r == Err::<HeartbeatPacket, ValidationError>(ValidationError::InvalidSessionId),
            self.session_id is Some ==> (r matches Ok(p) && heartbeat_built(self, p) && p.hmac.policy == self.hmac_policy
                && p.hmac.data@ == packet_tag(session_key@, signed_bytes(p.header, be_encode(p.heartbeat_sequence.0 as nat, 4)), self.hmac_policy) && p.hmac.data@.len() == spec_tag_size(self.hmac_policy)),
    {
        let unsigned = match self.build() {
            Ok(p) => p,
            Err(e) => return Err(e),
        };
        let mut fields: Vec<u8> = Vec::new();
        push_be(&mut fields, unsigned.heartbeat_sequence.0 as u64, 4);
        let hmac = sign_packet(&unsigned.header, fields.as_slice(), session_key, self.hmac_policy);
        Ok(HeartbeatPacket { hmac, ..unsigned })
    }
}

// ---------------------------------------------------------------------------
// CONTROL
// ---------------------------------------------------------------------------

/// Builds CONTROL packets.
#[derive(Clone, Copy, Debug)]
pub struct ControlPacketBuilder {
    pub version_byte: VersionByte,
    pub hmac_policy: HmacPolicy,
    pub session_id: Option<SessionId>,
    pub payload: Option<ControlPayload>,
}

/// Why building a CONTROL packet fails, if it does: no session identifier, then no payload.
pub open spec fn control_build_error(b: ControlPacketBuilder) -> Option<ValidationError> {
    if b.session_id is None {
        Some(ValidationError::InvalidSessionId)
    } else if b.payload is None {
        Some(ValidationError::InvalidPayloadLength)
    } else {
        None
    }
}

/// `p` is the CONTROL packet that `b` builds, its header stamped at `p.header.timestamp`.
pub open spec fn control_built(b: ControlPacketBuilder, p: ControlPacket) -> bool {
    &&& b.session_id matches Some(sid)
    &&& b.payload == Some(p.payload)
    &&& p.header == header_new(b.version_byte, PacketType::Control, SubType(0), PacketFlags(0), sid, SequenceNumber(0), AckNumber(0), p.header.timestamp, PayloadLength(0), b.hmac_policy)
}

impl ControlPacketBuilder {
    /// No session identifier, no payload.
    pub fn new(version_byte: VersionByte, hmac_policy: HmacPolicy) -> (r: ControlPacketBuilder)
        ensures
            r == (ControlPacketBuilder { version_byte, hmac_policy, session_id: None, payload: None }),
    {
        ControlPacketBuilder { version_byte, hmac_policy, session_id: None, payload: None }
    }

    pub fn session_id(self, session_id: SessionId) -> (r: ControlPacketBuilder)
        ensures
            r == (ControlPacketBuilder { session_id: Some(session_id), ..self }),
    {
        ControlPacketBuilder { session_id: Some(session_id), ..self }
    }

    pub fn payload(self, payload: ControlPayload) -> (r: ControlPacketBuilder)
        ensures
            r == (ControlPacketBuilder { payload: Some(payload), ..self }),
    {
        ControlPacketBuilder { payload: Some(payload), ..self }
    }

    /// The CONTROL packet, stamped now and tagged with sixteen zero bytes.
    pub fn build(self) -> (r: Result<ControlPacket, ValidationError>)
        ensures
            match control_build_error(self) {
                Some(e) => r == Err::<ControlPacket, ValidationError>(e),
                None => r matches Ok(p) && control_built(self, p) && default_tag(p.hmac),
            },
    {
        let session_id = match self.session_id {
            Some(s) => s,
            None => return Err(ValidationError::InvalidSessionId),
        };
        let payload = match self.payload {
            Some(p) => p,
            None => return Err(ValidationError::InvalidPayloadLength),
        };
        let header = PacketHeader::new(self.version_byte, PacketType::Control, SubType::new(0), PacketFlags::new(), session_id, SequenceNumber::new(0), AckNumber::new(0), Timestamp::now(), PayloadLength::new(0), self.hmac_policy);
        Ok(ControlPacket { header, hmac: HmacTag::default(), payload })
    }

    /// The CONTROL packet, tagged over its type, header and payload
    /// discriminant under `session_key`.
    pub fn build_with_hmac(self, session_key: &[u8]) -> (r: Result<ControlPacket, ValidationError>)
        requires
            session_key@.len() < max_hmac_message(),
        ensures
            match control_build_error(self) {
                Some(e) => r == Err::<ControlPacket, ValidationError>(e),
                None => r matches Ok(p) && control_built(self, p) && p.hmac.policy == self.hmac_policy
                    && p.hmac.data@ == packet_tag(session_key@, signed_bytes(p.header, seq![control_discriminant(p.payload)]), self.hmac_policy) && p.hmac.data@.len() == spec_tag_size(self.hmac_policy),
            },
    {
        let policy = self.hmac_policy;
        let unsigned = match self.build() {
            Ok(p) => p,
            Err(e) => return Err(e),
        };
        let mut fields: Vec<u8> = Vec::new();
        fields.push(control_discriminant_of(&unsigned.payload));
        proof {
            assert(fields@ =~= seq![control_discriminant(unsigned.payload)]);
        }
        let hmac = sign_packet(&unsigned.header, fields.as_slice(), session_key, policy);
        Ok(ControlPacket { hmac, ..unsigned })
    }
}

// ---------------------------------------------------------------------------
// MANAGEMENT
// ---------------------------------------------------------------------------

/// Builds MANAGEMENT packets.
#[derive(Clone, Debug)]
pub struct ManagementPacketBuilder {
    pub version_byte: VersionByte,
    pub hmac_policy: HmacPolicy,
    pub session_id: Option<SessionId>,
    pub payload: Option<ManagementPayload>,
}

/// Why building a MANAGEMENT packet fails, if it does: no session identifier, then no payload.
pub open spec fn management_build_error(b: ManagementPacketBuilder) -> Option<ValidationError> {
    if b.session_id is None {
        Some(ValidationError::InvalidSessionId)
    } else if b.payload is None {
        Some(ValidationError::InvalidPayloadLength)
    } else {
        None
    }
}

/// `p` is the MANAGEMENT packet that `b` builds, its header stamped at `p.header.timestamp`.
pub open spec fn management_built(b: ManagementPacketBuilder, p: ManagementPacket) -> bool {
    &&& b.session_id matches Some(sid)
    &&& b.payload == Some(p.payload)
    &&& p.header == header_new(b.version_byte, PacketType::Management, SubType(0), PacketFlags(0), sid, SequenceNumber(0), AckNumber(0), p.header.timestamp, PayloadLength(0), b.hmac_policy)
}

impl ManagementPacketBuilder {
    /// No session identifier, no payload.
    pub fn new(version_byte: VersionByte, hmac_policy: HmacPolicy) -> (r: ManagementPacketBuilder)
        ensures
            r == (ManagementPacketBuilder { version_byte, hmac_policy, session_id: None, payload: None }),
    {
        ManagementPacketBuilder { version_byte, hmac_policy, session_id: None, payload: None }
    }

    pub fn session_id(self, session_id: SessionId) -> (r: ManagementPacketBuilder)
        ensures
            r == (ManagementPacketBuilder { session_id: Some(session_id), ..self }),
    {
        ManagementPacketBuilder { session_id: Some(session_id), ..self }
    }

    pub fn payload(self, payload: ManagementPayload) -> (r: ManagementPacketBuilder)
        ensures
            r == (ManagementPacketBuilder { payload: Some(payload), ..self }),
    {
        ManagementPacketBuilder { payload: Some(payload), ..self }
    }

    /// The MANAGEMENT packet, stamped now and tagged with sixteen zero bytes.
    pub fn build(self) -> (r: Result<ManagementPacket, ValidationError>)
        ensures
            match management_build_error(self) {
                Some(e) => r == Err::<ManagementPacket, ValidationError>(e),
                None => r matches Ok(p) && management_built(self, p) && default_tag(p.hmac),
            },
    {
        let session_id = match self.session_id {
            Some(s) => s,
            None => return Err(ValidationError::InvalidSessionId),
        };
        let payload = match self.payload {
            Some(p) => p,
            None => return Err(ValidationError::InvalidPayloadLength),
        };
        let header = PacketHeader::new(self.version_byte, PacketType::Management, SubType::new(0), PacketFlags::new(), session_id, SequenceNumber::new(0), AckNumber::new(0), Timestamp::now(), PayloadLength::new(0), self.hmac_policy);
        Ok(ManagementPacket { header, hmac: HmacTag::default(), payload })
    }

    /// The MANAGEMENT packet, tagged over its type, header and payload
    /// discriminant under `session_key`.
    pub fn build_with_hmac(self, session_key: &[u8]) -> (r: Result<ManagementPacket, ValidationError>)
        requires
            session_key@.len() < max_hmac_message(),
        ensures
            match management_build_error(self) {
                Some(e) => r == Err::<ManagementPacket, ValidationError>(e),
                None => r matches Ok(p) && management_built(self, p) && p.hmac.policy == self.hmac_policy
                    && p.hmac.data@ == packet_tag(session_key@, signed_bytes(p.header, seq![management_discriminant(p.payload)]), self.hmac_policy) && p.hmac.data@.len() == spec_tag_size(self.hmac_policy),
            },
    {
        let policy = self.hmac_policy;
        let unsigned = match self.build() {
            Ok(p) => p,
            Err(e) => return Err(e),
        };
        let mut fields: Vec<u8> = Vec::new();
        fields.push(management_discriminant_of(&unsigned.payload));
        proof {
            assert(fields@ =~= seq![management_discriminant(unsigned.payload)]);
        }
        let hmac = sign_packet(&unsigned.header, fields.as_slice(), session_key, policy);
        Ok(ManagementPacket { hmac, ..unsigned })
    }
}

// ---------------------------------------------------------------------------
// DISCOVERY
// ---------------------------------------------------------------------------

/// Builds DISCOVERY packets.
#[derive(Clone, Debug)]
pub struct DiscoveryPacketBuilder {
    pub version_byte: VersionByte,
    pub hmac_policy: HmacPolicy,
    pub session_id: Option<SessionId>,
    pub payload: Option<DiscoveryPayload>,
}

/// Why building a DISCOVERY packet fails, if it does: no session identifier, then no payload.
pub open spec fn discovery_build_error(b: DiscoveryPacketBuilder) -> Option<ValidationError> {
    if b.session_id is None {
        Some(ValidationError::InvalidSessionId)
    } else if b.payload is None {
        Some(ValidationError::InvalidPayloadLength)
    } else {
        None
    }
}

/// `p` is the DISCOVERY packet that `b` builds, its header stamped at `p.header.timestamp`.
pub open spec fn discovery_built(b: DiscoveryPacketBuilder, p: DiscoveryPacket) -> bool {
    &&& b.session_id matches Some(sid)
    &&& b.payload == Some(p.payload)
    &&& p.header == header_new(b.version_byte, PacketType::Discovery, SubType(0), PacketFlags(0), sid, SequenceNumber(0), AckNumber(0), p.header.timestamp, PayloadLength(0), b.hmac_policy)
}

impl DiscoveryPacketBuilder {
    /// No session identifier, no payload.
    pub fn new(version_byte: VersionByte, hmac_policy: HmacPolicy) -> (r: DiscoveryPacketBuilder)
        ensures
            r == (DiscoveryPacketBuilder { version_byte, hmac_policy, session_id: None, payload: None }),
    {
        DiscoveryPacketBuilder { version_byte, hmac_policy, session_id: None, payload: None }
    }

    pub fn session_id(self, session_id: SessionId) -> (r: DiscoveryPacketBuilder)
        ensures
            r == (DiscoveryPacketBuilder { session_id: Some(session_id), ..self }),
    {
        DiscoveryPacketBuilder { session_id: Some(session_id), ..self }
    }

    pub fn payload(self, payload: DiscoveryPayload) -> (r: DiscoveryPacketBuilder)
        ensures
            r == (DiscoveryPacketBuilder { payload: Some(payload), ..self }),
    {
        DiscoveryPacketBuilder { payload: Some(payload), ..self }
    }

    /// The DISCOVERY packet, stamped now and tagged with sixteen zero bytes.
    pub fn build(self) -> (r: Result<DiscoveryPacket, ValidationError>)
        ensures
            match discovery_build_error(self) {
                Some(e) => r == Err::<DiscoveryPacket, ValidationError>(e),
                None => r matches Ok(p) && discovery_built(self, p) && default_tag(p.hmac),
            },
    {
        let session_id = match self.session_id {
            Some(s) => s,
            None => return Err(ValidationError::InvalidSessionId),
        };
        let payload = match self.payload {
            Some(p) => p,
            None => return Err(ValidationError::InvalidPayloadLength),
        };
        let header = PacketHeader::new(self.version_byte, PacketType::Discovery, SubType::new(0), PacketFlags::new(), session_id, SequenceNumber::new(0), AckNumber::new(0), Timestamp::now(), PayloadLength::new(0), self.hmac_policy);
        Ok(DiscoveryPacket { header, hmac: HmacTag::default(), payload })
    }

    /// The DISCOVERY packet, tagged over its type, header and payload
    /// discriminant under `session_key`.
    pub fn build_with_hmac(self, session_key: &[u8]) -> (r: Result<DiscoveryPacket, ValidationError>)
        requires
            session_key@.len() < max_hmac_message(),
        ensures
            match discovery_build_error(self) {
                Some(e) => r == Err::<DiscoveryPacket, ValidationError>(e),
                None => r matches Ok(p) && discovery_built(self, p) && p.hmac.policy == self.hmac_policy
                    && p.hmac.data@ == packet_tag(session_key@, signed_bytes(p.header, seq![discovery_discriminant(p.payload)]), self.hmac_policy) && p.hmac.data@.len() == spec_tag_size(self.hmac_policy),
            },
    {
        let policy = self.hmac_policy;
        let unsigned = match self.build() {
            Ok(p) => p,
            Err(e) => return Err(e),
        };
        let mut fields: Vec<u8> = Vec::new();
        fields.push(discovery_discriminant_of(&unsigned.payload));
        proof {
            assert(fields@ =~= seq![discovery_discriminant(unsigned.payload)]);
        }
        let hmac = sign_packet(&unsigned.header, fields.as_slice(), session_key, policy);
        Ok(DiscoveryPacket { hmac, ..unsigned })
    }
}

fn control_discriminant_of(p: &ControlPayload) -> (r: u8)
    ensures
        r == control_discriminant(*p),
{
    match p {
        ControlPayload::TimeSyncRequest(_) => 1,
        ControlPayload::TimeSyncResponse(_) => 2,
        ControlPayload::Recovery(_) => 3,
        ControlPayload::SequenceNeg(_) => 4,
        ControlPayload::HmacPolicyRequest(_) => 5,
        ControlPayload::HmacPolicyResponse(_) => 6,
    }
}

fn management_discriminant_of(p: &ManagementPayload) -> (r: u8)
    ensures
        r == management_discriminant(*p),
{
    match p {
        ManagementPayload::RekeyRequest(_) => 1,
        ManagementPayload::RekeyResponse(_) => 2,
        ManagementPayload::RepairRequest(_) => 3,
        ManagementPayload::RepairResponse(_) => 4,
        ManagementPayload::RepairConfirm(_) => 5,
    }
}

fn discovery_discriminant_of(p: &DiscoveryPayload) -> (r: u8)
    ensures
        r == discovery_discriminant(*p),
{
    match p {
        DiscoveryPayload::Request(_) => 1,
        DiscoveryPayload::Response(_) => 2,
        DiscoveryPayload::Confirm(_) => 3,
    }
}


// ---------------------------------------------------------------------------
// ERROR
// ---------------------------------------------------------------------------

/// Builds ERROR packets.
#[derive(Clone, Debug)]
pub struct ErrorPacketBuilder {
    pub version_byte: VersionByte,
    pub hmac_policy: HmacPolicy,
    pub session_id: Option<SessionId>,
    pub error_code: ErrorCode,
    pub error_description: ErrorDescription,
    pub error_context: Option<Vec<u8>>,
}

/// At most the first 255 bytes of `b`.
pub open spec fn first_255(b: Seq<u8>) -> Seq<u8> {
    if b.len() <= 255 {
        b
    } else {
        b.subrange(0, 255)
    }
}

/// The ERROR fields a tag covers: the code as two bytes, the description's
/// length and first 255 bytes, and, when present, the context's length and
/// first 255 bytes.
pub open spec fn error_signed_fields(p: ErrorPacket) -> Seq<u8> {
    let d = first_255(vstd::utf8::encode_utf8(p.error_description.0@));
    seq![0u8, p.error_code.0, d.len() as u8] + d + match p.error_context {
        Some(c) => seq![first_255(c@).len() as u8] + first_255(c@),
        None => Seq::<u8>::empty(),
    }
}

/// `p` is the ERROR packet that `b` builds, its header stamped at `p.header.timestamp`.
pub open spec fn error_built(b: ErrorPacketBuilder, p: ErrorPacket) -> bool {
    &&& b.session_id matches Some(sid)
    &&& p.header == header_new(b.version_byte, PacketType::Error, SubType(0), PacketFlags(0), sid, SequenceNumber(0), AckNumber(0), p.header.timestamp, PayloadLength(0), b.hmac_policy)
    &&& p.error_code == b.error_code
    &&& p.error_description == b.error_description
    &&& p.error_context == b.error_context
}

fn push_first_255(out: &mut Vec<u8>, src: &[u8])
    ensures
        final(out)@ == old(out)@ + seq![first_255(src@).len() as u8] + first_255(src@),
{
    let n: usize = if src.len() <= 255 { src.len() } else { 255 };
    out.push(n as u8);
    let head = crate::codec::read_bytes(src, 0, n);
    push_slice(out, head.as_slice());
    proof {
        assert(head@ =~= first_255(src@));
    }
}

impl ErrorPacketBuilder {
    /// Error code 0, description "Unknown error", no context, no session identifier.
    pub fn new(version_byte: VersionByte, hmac_policy: HmacPolicy) -> (r: ErrorPacketBuilder)
        ensures
            r.version_byte == version_byte,
            r.hmac_policy == hmac_policy,
            r.session_id is None,
            r.error_code.0 == 0,
            r.error_context is None,
    {
        ErrorPacketBuilder {
            version_byte,
            hmac_policy,
            session_id: None,
            error_code: ErrorCode::new(0),
            error_description: ErrorDescription::new("Unknown error".to_string()),
            error_context: None,
        }
    }

    pub fn session_id(self, session_id: SessionId) -> (r: ErrorPacketBuilder)
        ensures
            r == (ErrorPacketBuilder { session_id: Some(session_id), ..self }),
    {
        ErrorPacketBuilder { session_id: Some(session_id), ..self }
    }

    pub fn error_code(self, error_code: ErrorCode) -> (r: ErrorPacketBuilder)
        ensures
            r == (ErrorPacketBuilder { error_code, ..self }),
    {
        ErrorPacketBuilder { error_code, ..self }
    }

    pub fn error_description(self, error_description: ErrorDescription) -> (r: ErrorPacketBuilder)
        ensures
            r == (ErrorPacketBuilder { error_description, ..self }),
    {
        ErrorPacketBuilder { error_description, ..self }
    }

    pub fn error_context(self, error_context: Vec<u8>) -> (r: ErrorPacketBuilder)
        ensures
            r == (ErrorPacketBuilder { error_context: Some(error_context), ..self }),
    {
        ErrorPacketBuilder { error_context: Some(error_context), ..self }
    }

    /// The ERROR packet, stamped now and tagged with sixteen zero bytes; refused without a session identifier.
    pub fn build(self) -> (r: Result<ErrorPacket, ValidationError>)
        ensures
            self.session_id is None ==> r == Err::<ErrorPacket, ValidationError>(ValidationError::InvalidSessionId),
            self.session_id is Some ==> (r matches Ok(p) && error_built(self, p) && default_tag(p.hmac)),
    {
        let session_id = match self.session_id {
            Some(s) => s,
            None => return Err(ValidationError::InvalidSessionId),
        };
        let header = PacketHeader::new(self.version_byte, PacketType::Error, SubType::new(0), PacketFlags::new(), session_id, SequenceNumber::new(0), AckNumber::new(0), Timestamp::now(), PayloadLength::new(0), self.hmac_policy);
        Ok(ErrorPacket {
            header,
            hmac: HmacTag::default(),
            error_code: self.error_code,
            error_description: self.error_description,
            error_context: self.error_context,
        })
    }

    /// The ERROR packet, tagged over its type, header, code, description and
    /// context under `session_key`.
    pub fn build_with_hmac(self, session_key: &[u8]) -> (r: Result<ErrorPacket, ValidationError>)
        requires
            session_key@.len() < max_hmac_message(),
        ensures
            self.session_id is None ==> r == Err::<ErrorPacket, ValidationError>(ValidationError::InvalidSessionId),
            self.session_id is Some ==> (r matches Ok(p) && error_built(self, p) && p.hmac.policy == self.hmac_policy
                && p.hmac.data@ == packet_tag(session_key@, signed_bytes(p.header, error_signed_fields(p)), self.hmac_policy) && p.hmac.data@.len() == spec_tag_size(self.hmac_policy)),
    {
        let policy = self.hmac_policy;
        let unsigned = match self.build() {
            Ok(p) => p,
            Err(e) => return Err(e),
        };
        let mut fields: Vec<u8> = Vec::new();
        fields.push(0u8);
        fields.push(unsigned.error_code.as_u8());
        let desc = unsigned.error_description.as_str().as_bytes();
        let mut rest: Vec<u8> = Vec::new();
        push_first_255(&mut rest, desc);
        match &unsigned.error_context {
            Some(c) => push_first_255(&mut rest, c.as_slice()),
            None => {},
        }
        push_slice(&mut fields, rest.as_slice());
        proof {
            assert(desc@ =~= vstd::utf8::encode_utf8(unsigned.error_description.0@));
            assert(fields@ =~= error_signed_fields(unsigned));
        }
        let hmac = sign_packet(&unsigned.header, fields.as_slice(), session_key, policy);
        Ok(ErrorPacket { hmac, ..unsigned })
    }
}

} // verus!
