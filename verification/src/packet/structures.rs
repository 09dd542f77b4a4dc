//! Packet structures of every packet type and their wire formats.
use vstd::prelude::*;
use crate::codec::{
    be_decode, be_encode, copy_into, push_be, push_slice, push_zeros, read_array32, read_array64,
    read_be, read_bytes, zeros,
};
use crate::packet::header::{header_bytes, spec_deserialize_header, PacketHeader};
use crate::types::{
    spec_tag_size, HmacPolicy, PacketFlags, PacketType, SessionIdLength,
};
use crate::values::{
    ErrorDescription, KdfParams, KeyId, RekeyReason, RekeyResult, RepairPriority, RepairResult,
    RepairType, SequenceRange, repair_type_code, BloomFilter, CandidateHash, ClockSkew, DiscoveryChallenge, DiscoveryTimeout, NetworkDelay,
    PolicyChangeReason, PolicyChangeResult, PskId, PskProof, RecoveryNonce, RecoveryParams,
    RecoveryReason, SecurityLevel, SequenceNegFlags, SessionId, SessionParams, SyncQuality,
    TimeDrift, Timestamp, reset_code, reset_of_code, termination_code, termination_of_code, ConnectionParams,
    EcdhPublicKey, ErrorCode, FragmentCount, FragmentId, FragmentIndex, FragmentSize,
    HeartbeatSequence, HmacTag, ProtocolVersion, ResetReason, RoundTripTime, SackBitmap,
    SackBlockCount, SackRange, SequenceNumber, SessionConfig, TerminationReason,
    ValidationError, ValidationResult, WindowSize,
};

verus! {

/// What writing a header followed by `first` and `second` into a buffer holding
/// `old` gives: the result and the new buffer contents. The header is written
/// once it fits; `first` is written once it fits too; the whole once all fits.
pub open spec fn spec_serialize_parts(
    h: PacketHeader,
    old: Seq<u8>,
    first: Seq<u8>,
    second: Seq<u8>,
) -> (Result<usize, ValidationError>, Seq<u8>) {
    let hs = h.spec_header_size();
    let n = old.len();
    if n < hs {
        (Err(ValidationError::BufferTooSmall), old)
    } else if n < hs + first.len() {
        (Err(ValidationError::BufferTooSmall), header_bytes(h) + old.subrange(hs as int, n as int))
    } else if n < hs + first.len() + second.len() {
        (
            Err(ValidationError::BufferTooSmall),
            header_bytes(h) + first + old.subrange((hs + first.len()) as int, n as int),
        )
    } else {
        (
            Ok((hs + first.len() + second.len()) as usize),
            header_bytes(h) + first + second + old.subrange(
                (hs + first.len() + second.len()) as int,
                n as int,
            ),
        )
    }
}

/// Writes the header, then `first`, then `second`, checking before each step that it fits.
pub fn serialize_parts(header: &PacketHeader, buffer: &mut [u8], first: &[u8], second: &[u8]) -> (r: Result<usize, ValidationError>)
    requires
        header.wf(),
    ensures
        (r, final(buffer)@) == spec_serialize_parts(*header, old(buffer)@, first@, second@),
{
    let header_size = match header.serialize(buffer) {
        Ok(n) => n,
        Err(e) => return Err(e),
    };
    proof {
        crate::packet::header::lemma_header_bytes_len(*header);
    }
    let len = buffer.len();
    if len - header_size < first.len() {
        return Err(ValidationError::BufferTooSmall);
    }
    copy_into(buffer, header_size, first);
    let off = header_size + first.len();
    if len - off < second.len() {
        proof {
            assert(buffer@ =~= header_bytes(*header) + first@ + old(buffer)@.subrange(
                off as int,
                len as int,
            ));
        }
        return Err(ValidationError::BufferTooSmall);
    }
    copy_into(buffer, off, second);
    proof {
        assert(buffer@ =~= header_bytes(*header) + first@ + second@ + old(buffer)@.subrange(
            (off + second@.len()) as int,
            len as int,
        ));
    }
    Ok(off + second.len())
}

/// Why parsing `bytes` as a packet of type `t` whose own fields take at least
/// `min_fields` bytes fails, if it does: the header's error, a wrong type, or
/// too few bytes for the header, its HMAC tag and the fields.
pub open spec fn body_parse_error(bytes: Seq<u8>, t: PacketType, min_fields: nat) -> Option<ValidationError> {
    match spec_deserialize_header(bytes) {
        Err(e) => Some(e),
        Ok(h) => {
            if h.packet_type != t {
                Some(ValidationError::InvalidPacketType)
            } else if bytes.len() < h.spec_header_size() + spec_tag_size(h.hmac_policy) + min_fields {
                Some(ValidationError::InvalidLength)
            } else {
                None
            }
        },
    }
}

/// The header that `bytes` starts with (meaningful when it parses).
pub open spec fn parsed_header(bytes: Seq<u8>) -> PacketHeader {
    spec_deserialize_header(bytes)->Ok_0
}

/// Where the packet-specific fields start: after the header and its HMAC tag.
pub open spec fn fields_offset(bytes: Seq<u8>) -> int {
    let h = parsed_header(bytes);
    (h.spec_header_size() + spec_tag_size(h.hmac_policy)) as int
}

/// The tag is the bytes between the header and the packet-specific fields.
pub open spec fn tag_parsed(bytes: Seq<u8>, tag: HmacTag) -> bool {
    let h = parsed_header(bytes);
    &&& tag.data@ == bytes.subrange(h.spec_header_size() as int, fields_offset(bytes))
    &&& tag.policy == h.hmac_policy
}

/// Parses the header, checks the packet type and that the fields fit, and reads the tag.
fn parse_prefix(bytes: &[u8], t: PacketType, min_fields: usize) -> (r: Result<(PacketHeader, HmacTag, usize), ValidationError>)
    requires
        min_fields <= 1024,
    ensures
        match body_parse_error(bytes@, t, min_fields as nat) {
            Some(e) => r == Err::<(PacketHeader, HmacTag, usize), ValidationError>(e),
            None => r matches Ok((h, tag, off)) && h == parsed_header(bytes@) && h.wf() && tag_parsed(bytes@, tag)
                && off == fields_offset(bytes@) && off + min_fields <= bytes@.len(),
        },
{
    let h = match PacketHeader::deserialize(bytes) {
        Ok(h) => h,
        Err(e) => return Err(e),
    };
    if h.packet_type() != t {
        return Err(ValidationError::InvalidPacketType);
    }
    let hs = h.header_size();
    let tl = h.hmac_policy().tag_size();
    if bytes.len() < hs + tl + min_fields {
        return Err(ValidationError::InvalidLength);
    }
    let data = read_bytes(bytes, hs, tl);
    Ok((h, HmacTag { data, policy: h.hmac_policy }, hs + tl))
}

// ---------------------------------------------------------------------------
// Connection establishment
// ---------------------------------------------------------------------------

/// SYN packet: opens a connection.
#[derive(Clone, Debug)]
pub struct SynPacket {
    pub header: PacketHeader,
    pub hmac: HmacTag,
    pub initial_sequence: SequenceNumber,
    pub protocol_version: ProtocolVersion,
    pub session_config: SessionConfig,
    pub connection_params: ConnectionParams,
    pub client_public_key: EcdhPublicKey,
    /// Proof of knowledge of the pre-shared key (HMAC-SHA256).
    pub psk_auth_hash: [u8; 32],
    /// Correlates a SYN with its SYN-ACK.
    pub key_exchange_id: u16,
}

/// The bytes that follow the header of a SYN packet.
pub open spec fn syn_body(p: SynPacket) -> Seq<u8> {
    p.hmac.data@ + be_encode(p.initial_sequence.0 as nat, 4) + seq![p.protocol_version.0]
        + p.client_public_key.0@ + p.psk_auth_hash@ + be_encode(p.key_exchange_id as nat, 2)
}

/// `p` is what the SYN packet in `bytes` holds; the session configuration and
/// connection parameters, which are not carried, take their defaults.
pub open spec fn syn_parsed(bytes: Seq<u8>, p: SynPacket) -> bool {
    let o = fields_offset(bytes);
    &&& p.header == parsed_header(bytes)
    &&& tag_parsed(bytes, p.hmac)
    &&& p.initial_sequence.0 == be_decode(bytes.subrange(o, o + 4))
    &&& p.protocol_version.0 == bytes[o + 4]
    &&& p.client_public_key.0@ == bytes.subrange(o + 5, o + 69)
    &&& p.psk_auth_hash@ == bytes.subrange(o + 69, o + 101)
    &&& p.key_exchange_id == be_decode(bytes.subrange(o + 101, o + 103))
    &&& p.session_config == SessionConfig {
        session_id_length: SessionIdLength::Bits64,
        timestamp_config: crate::types::TimestampConfig::Bits32,
        hmac_policy: crate::types::HmacPolicy::Medium,
    }
    &&& p.connection_params == ConnectionParams { window_size: 65535, max_fragment_size: 1400 }
}

impl SynPacket {
    /// Writes header, tag, initial sequence, protocol version, public key,
    /// PSK hash and key exchange identifier.
    pub fn serialize(&self, buffer: &mut [u8]) -> (r: Result<usize, ValidationError>)
        requires
            self.header.wf(),
        ensures
            (r, final(buffer)@) == spec_serialize_parts(self.header, old(buffer)@, syn_body(*self), Seq::empty()),
    {
        let mut body: Vec<u8> = Vec::new();
        push_slice(&mut body, self.hmac.data());
        push_be(&mut body, self.initial_sequence.0 as u64, 4);
        body.push(self.protocol_version.as_u8());
        push_slice(&mut body, self.client_public_key.0.as_slice());
        push_slice(&mut body, self.psk_auth_hash.as_slice());
        push_be(&mut body, self.key_exchange_id as u64, 2);
        let empty: Vec<u8> = Vec::new();
        proof {
            assert(body@ =~= syn_body(*self));
            assert(empty@ =~= Seq::<u8>::empty());
        }
        serialize_parts(&self.header, buffer, body.as_slice(), empty.as_slice())
    }

    pub fn deserialize(bytes: &[u8]) -> (r: Result<SynPacket, ValidationError>)
        ensures
            match body_parse_error(bytes@, PacketType::Syn, 103) {
                Some(e) => r == Err::<SynPacket, ValidationError>(e),
                None => r matches Ok(p) && syn_parsed(bytes@, p) && p.header.wf(),
            },
    {
        let (header, hmac, o) = match parse_prefix(bytes, PacketType::Syn, 103) {
            Ok(x) => x,
            Err(e) => return Err(e),
        };
        let initial_sequence = SequenceNumber::new(read_be(bytes, o, 4) as u32);
        let protocol_version = ProtocolVersion::new(bytes[o + 4]);
        let client_public_key = EcdhPublicKey::new(read_array64(bytes, o + 5));
        let psk_auth_hash = read_array32(bytes, o + 69);
        let key_exchange_id = read_be(bytes, o + 101, 2) as u16;
        proof {
            crate::codec::lemma_pow256_values();
            crate::codec::lemma_be_decode_bound(bytes@.subrange(o as int, o + 4));
            crate::codec::lemma_be_decode_bound(bytes@.subrange(o + 101, o + 103));
        }
        Ok(SynPacket {
            header,
            hmac,
            initial_sequence,
            protocol_version,
            session_config: SessionConfig::default(),
            connection_params: ConnectionParams::default(),
            client_public_key,
            psk_auth_hash,
            key_exchange_id,
        })
    }
}

/// SYN-ACK packet: answers a SYN.
#[derive(Clone, Debug)]
pub struct SynAckPacket {
    pub header: PacketHeader,
    pub hmac: HmacTag,
    pub ack_sequence: SequenceNumber,
    pub server_sequence: SequenceNumber,
    pub protocol_version: ProtocolVersion,
    pub session_config: SessionConfig,
    pub connection_params: ConnectionParams,
    pub server_public_key: EcdhPublicKey,
    /// Echo of the SYN's key exchange identifier.
    pub key_exchange_id: u16,
    /// HMAC-SHA256(shared secret, "verification" || key exchange identifier).
    pub shared_secret_verification: [u8; 32],
}

/// The bytes that follow the header of a SYN-ACK packet.
pub open spec fn syn_ack_body(p: SynAckPacket) -> Seq<u8> {
    p.hmac.data@ + be_encode(p.server_sequence.0 as nat, 4) + be_encode(p.ack_sequence.0 as nat, 4)
        + seq![p.protocol_version.0] + p.server_public_key.0@ + be_encode(p.key_exchange_id as nat, 2)
        + p.shared_secret_verification@
}

/// `p` is what the SYN-ACK packet in `bytes` holds.
pub open spec fn syn_ack_parsed(bytes: Seq<u8>, p: SynAckPacket) -> bool {
    let o = fields_offset(bytes);
    &&& p.header == parsed_header(bytes)
    &&& tag_parsed(bytes, p.hmac)
    &&& p.server_sequence.0 == be_decode(bytes.subrange(o, o + 4))
    &&& p.ack_sequence.0 == be_decode(bytes.subrange(o + 4, o + 8))
    &&& p.protocol_version.0 == bytes[o + 8]
    &&& p.server_public_key.0@ == bytes.subrange(o + 9, o + 73)
    &&& p.key_exchange_id == be_decode(bytes.subrange(o + 73, o + 75))
    &&& p.shared_secret_verification@ == bytes.subrange(o + 75, o + 107)
    &&& p.session_config == SessionConfig {
        session_id_length: SessionIdLength::Bits64,
        timestamp_config: crate::types::TimestampConfig::Bits32,
        hmac_policy: crate::types::HmacPolicy::Medium,
    }
    &&& p.connection_params == ConnectionParams { window_size: 65535, max_fragment_size: 1400 }
}

impl SynAckPacket {
    /// Writes header, tag, server sequence, acknowledged sequence, protocol
    /// version, public key, key exchange identifier and shared-secret verification.
    pub fn serialize(&self, buffer: &mut [u8]) -> (r: Result<usize, ValidationError>)
        requires
            self.header.wf(),
        ensures
            (r, final(buffer)@) == spec_serialize_parts(self.header, old(buffer)@, syn_ack_body(*self), Seq::empty()),
    {
        let mut body: Vec<u8> = Vec::new();
        push_slice(&mut body, self.hmac.data());
        push_be(&mut body, self.server_sequence.0 as u64, 4);
        push_be(&mut body, self.ack_sequence.0 as u64, 4);
        body.push(self.protocol_version.as_u8());
        push_slice(&mut body, self.server_public_key.0.as_slice());
        push_be(&mut body, self.key_exchange_id as u64, 2);
        push_slice(&mut body, self.shared_secret_verification.as_slice());
        let empty: Vec<u8> = Vec::new();
        proof {
            assert(body@ =~= syn_ack_body(*self));
            assert(empty@ =~= Seq::<u8>::empty());
        }
        serialize_parts(&self.header, buffer, body.as_slice(), empty.as_slice())
    }

    pub fn deserialize(bytes: &[u8]) -> (r: Result<SynAckPacket, ValidationError>)
        ensures
            match body_parse_error(bytes@, PacketType::SynAck, 107) {
                Some(e) => r == Err::<SynAckPacket, ValidationError>(e),
                None => r matches Ok(p) && syn_ack_parsed(bytes@, p) && p.header.wf(),
            },
    {
        let (header, hmac, o) = match parse_prefix(bytes, PacketType::SynAck, 107) {
            Ok(x) => x,
            Err(e) => return Err(e),
        };
        let server_sequence = SequenceNumber::new(read_be(bytes, o, 4) as u32);
        let ack_sequence = SequenceNumber::new(read_be(bytes, o + 4, 4) as u32);
        let protocol_version = ProtocolVersion::new(bytes[o + 8]);
        let server_public_key = EcdhPublicKey::new(read_array64(bytes, o + 9));
        let key_exchange_id = read_be(bytes, o + 73, 2) as u16;
        let shared_secret_verification = read_array32(bytes, o + 75);
        proof {
            crate::codec::lemma_pow256_values();
            crate::codec::lemma_be_decode_bound(bytes@.subrange(o as int, o + 4));
            crate::codec::lemma_be_decode_bound(bytes@.subrange(o + 4, o + 8));
            crate::codec::lemma_be_decode_bound(bytes@.subrange(o + 73, o + 75));
        }
        Ok(SynAckPacket {
            header,
            hmac,
            ack_sequence,
            server_sequence,
            protocol_version,
            session_config: SessionConfig::default(),
            connection_params: ConnectionParams::default(),
            server_public_key,
            key_exchange_id,
            shared_secret_verification,
        })
    }
}

// ---------------------------------------------------------------------------
// Data transmission
// ---------------------------------------------------------------------------

/// Selective acknowledgment data.
#[derive(Clone, Debug)]
pub struct SackData {
    pub block_count: SackBlockCount,
    pub primary_bitmap: SackBitmap,
    pub additional_ranges: Vec<SackRange>,
}

/// ACK packet.
#[derive(Clone, Debug)]
pub struct AckPacket {
    pub header: PacketHeader,
    pub hmac: HmacTag,
    pub window_size: WindowSize,
    pub sack_data: Option<SackData>,
}

/// The bytes that follow the header of an ACK packet; of the selective
/// acknowledgment only the block count and the primary bitmap are carried.
pub open spec fn ack_body(p: AckPacket) -> Seq<u8> {
    p.hmac.data@ + be_encode(p.window_size.0 as nat, 4) + match p.sack_data {
        Some(s) => seq![s.block_count.0] + be_encode(s.primary_bitmap.0 as nat, 4),
        None => Seq::<u8>::empty(),
    }
}

/// `p` is what the ACK packet in `bytes` holds: selective acknowledgment data
/// is read only when more than six bytes follow the window size.
pub open spec fn ack_parsed(bytes: Seq<u8>, p: AckPacket) -> bool {
    let o = fields_offset(bytes);
    &&& p.header == parsed_header(bytes)
    &&& tag_parsed(bytes, p.hmac)
    &&& p.window_size.0 == be_decode(bytes.subrange(o, o + 4))
    &&& if bytes.len() > o + 4 + 6 {
        p.sack_data matches Some(s) && s.block_count.0 == bytes[o + 4] && s.primary_bitmap.0
            == be_decode(bytes.subrange(o + 5, o + 9)) && s.additional_ranges@.len() == 0
    } else {
        p.sack_data is None
    }
}

impl AckPacket {
    /// Writes header, tag, window size and, when present, the selective acknowledgment.
    pub fn serialize(&self, buffer: &mut [u8]) -> (r: Result<usize, ValidationError>)
        requires
            self.header.wf(),
        ensures
            (r, final(buffer)@) == spec_serialize_parts(self.header, old(buffer)@, ack_body(*self), Seq::empty()),
    {
        let mut body: Vec<u8> = Vec::new();
        push_slice(&mut body, self.hmac.data());
        push_be(&mut body, self.window_size.0 as u64, 4);
        match &self.sack_data {
            Some(s) => {
                body.push(s.block_count.as_u8());
                push_be(&mut body, s.primary_bitmap.0 as u64, 4);
            },
            None => {},
        }
        let empty: Vec<u8> = Vec::new();
        proof {
            assert(body@ =~= ack_body(*self));
            assert(empty@ =~= Seq::<u8>::empty());
        }
        serialize_parts(&self.header, buffer, body.as_slice(), empty.as_slice())
    }

    pub fn deserialize(bytes: &[u8]) -> (r: Result<AckPacket, ValidationError>)
        ensures
            match body_parse_error(bytes@, PacketType::Ack, 4) {
                Some(e) => r == Err::<AckPacket, ValidationError>(e),
                None => r matches Ok(p) && ack_parsed(bytes@, p) && p.header.wf(),
            },
    {
        let (header, hmac, o) = match parse_prefix(bytes, PacketType::Ack, 4) {
            Ok(x) => x,
            Err(e) => return Err(e),
        };
        proof {
            crate::codec::lemma_pow256_values();
            crate::codec::lemma_be_decode_bound(bytes@.subrange(o as int, o + 4));
        }
        let window_size = WindowSize::new(read_be(bytes, o, 4) as u32);
        let sack_data = if bytes.len() - (o + 4) > 6 {
            proof {
                crate::codec::lemma_be_decode_bound(bytes@.subrange(o + 5, o + 9));
            }
            Some(SackData {
                block_count: SackBlockCount::new(bytes[o + 4]),
                primary_bitmap: SackBitmap::new(read_be(bytes, o + 5, 4) as u32),
                additional_ranges: Vec::new(),
            })
        } else {
            None
        };
        Ok(AckPacket { header, hmac, window_size, sack_data })
    }

    /// Checks the header, the packet type and that the window is open.
    pub fn validate(&self) -> (r: ValidationResult<()>)
        ensures
            r == (match self.header.validate_spec() {
                ValidationResult::Invalid(e) => ValidationResult::Invalid(e),
                ValidationResult::Valid(_) => if self.header.packet_type != PacketType::Ack {
                    ValidationResult::Invalid(ValidationError::InvalidPacketType)
                } else if self.window_size.0 == 0 {
                    ValidationResult::Invalid(ValidationError::InvalidWindowSize)
                } else {
                    ValidationResult::Valid(())
                },
            }),
    {
        match self.header.validate() {
            ValidationResult::Invalid(e) => return ValidationResult::Invalid(e),
            ValidationResult::Valid(_) => {},
        }
        if self.header.packet_type() != PacketType::Ack {
            return ValidationResult::Invalid(ValidationError::InvalidPacketType);
        }
        if self.window_size.as_u32() == 0 {
            return ValidationResult::Invalid(ValidationError::InvalidWindowSize);
        }
        ValidationResult::Valid(())
    }
}


impl SynPacket {
    /// Checks the header, the packet type, the protocol version (only 1 is
    /// spoken) and the initial sequence number.
    pub fn validate(&self) -> (r: ValidationResult<()>)
        ensures
            r == (match self.header.validate_spec() {
                ValidationResult::Invalid(e) => ValidationResult::Invalid(e),
                ValidationResult::Valid(_) => if self.header.packet_type != PacketType::Syn {
                    ValidationResult::Invalid(ValidationError::InvalidPacketType)
                } else if self.protocol_version.0 != 1 {
                    ValidationResult::Invalid(ValidationError::InvalidProtocolVersion)
                } else {
                    ValidationResult::Valid(())
                },
            }),
    {
        match self.header.validate() {
            ValidationResult::Invalid(e) => return ValidationResult::Invalid(e),
            ValidationResult::Valid(_) => {},
        }
        if self.header.packet_type() != PacketType::Syn {
            return ValidationResult::Invalid(ValidationError::InvalidPacketType);
        }
        if self.protocol_version.as_u8() == 0 || self.protocol_version.as_u8() > 1 {
            return ValidationResult::Invalid(ValidationError::InvalidProtocolVersion);
        }
        if !self.initial_sequence.is_valid() {
            return ValidationResult::Invalid(ValidationError::InvalidSequenceNumber);
        }
        ValidationResult::Valid(())
    }
}

impl SynAckPacket {
    /// Checks the header, the packet type, the protocol version and both sequence numbers.
    pub fn validate(&self) -> (r: ValidationResult<()>)
        ensures
            r == (match self.header.validate_spec() {
                ValidationResult::Invalid(e) => ValidationResult::Invalid(e),
                ValidationResult::Valid(_) => if self.header.packet_type != PacketType::SynAck {
                    ValidationResult::Invalid(ValidationError::InvalidPacketType)
                } else if self.protocol_version.0 != 1 {
                    ValidationResult::Invalid(ValidationError::InvalidProtocolVersion)
                } else {
                    ValidationResult::Valid(())
                },
            }),
    {
        match self.header.validate() {
            ValidationResult::Invalid(e) => return ValidationResult::Invalid(e),
            ValidationResult::Valid(_) => {},
        }
        if self.header.packet_type() != PacketType::SynAck {
            return ValidationResult::Invalid(ValidationError::InvalidPacketType);
        }
        if self.protocol_version.as_u8() == 0 || self.protocol_version.as_u8() > 1 {
            return ValidationResult::Invalid(ValidationError::InvalidProtocolVersion);
        }
        if !self.server_sequence.is_valid() || !self.ack_sequence.is_valid() {
            return ValidationResult::Invalid(ValidationError::InvalidSequenceNumber);
        }
        ValidationResult::Valid(())
    }
}

/// Fragmentation header carried by fragmented DATA packets.
#[derive(Clone, Copy, Debug)]
pub struct FragmentHeader {
    pub fragment_id: FragmentId,
    /// Zero-based position of the fragment.
    pub fragment_index: FragmentIndex,
    pub fragment_count: FragmentCount,
    pub fragment_size: FragmentSize,
}

/// The eight wire bytes of a fragmentation header.
pub open spec fn fragment_header_bytes(f: FragmentHeader) -> Seq<u8> {
    be_encode(f.fragment_id.0 as nat, 2) + be_encode(f.fragment_index.0 as nat, 2) + be_encode(
        f.fragment_count.0 as nat,
        2,
    ) + be_encode(f.fragment_size.0 as nat, 2)
}

/// DATA packet: carries application payload, possibly one fragment of it.
#[derive(Clone, Debug)]
pub struct DataPacket {
    pub header: PacketHeader,
    pub hmac: HmacTag,
    pub window_size: WindowSize,
    pub fragment_header: Option<FragmentHeader>,
    pub payload: Vec<u8>,
}

/// The bytes that follow the header of a DATA packet.
pub open spec fn data_body(p: DataPacket) -> Seq<u8> {
    p.hmac.data@ + be_encode(p.window_size.0 as nat, 4) + match p.fragment_header {
        Some(f) => fragment_header_bytes(f),
        None => Seq::<u8>::empty(),
    } + p.payload@
}

/// Whether the header of the packet in `bytes` announces a fragment.
pub open spec fn announces_fragment(bytes: Seq<u8>) -> bool {
    parsed_header(bytes).flags.0 & 0x40 != 0
}

/// Why parsing `bytes` as a DATA packet fails, if it does.
pub open spec fn data_parse_error(bytes: Seq<u8>) -> Option<ValidationError> {
    match body_parse_error(bytes, PacketType::Data, 4) {
        Some(e) => Some(e),
        None => if announces_fragment(bytes) && bytes.len() < fields_offset(bytes) + 12 {
            Some(ValidationError::InvalidLength)
        } else {
            None
        },
    }
}

/// `p` is what the DATA packet in `bytes` holds: the fragmentation header is
/// read when the header's fragment flag is set, and the payload is all that follows.
pub open spec fn data_parsed(bytes: Seq<u8>, p: DataPacket) -> bool {
    let o = fields_offset(bytes);
    &&& p.header == parsed_header(bytes)
    &&& tag_parsed(bytes, p.hmac)
    &&& p.window_size.0 == be_decode(bytes.subrange(o, o + 4))
    &&& if announces_fragment(bytes) {
        &&& p.fragment_header matches Some(f) && f.fragment_id.0 == be_decode(bytes.subrange(o + 4, o + 6))
            && f.fragment_index.0 == be_decode(bytes.subrange(o + 6, o + 8)) && f.fragment_count.0
            == be_decode(bytes.subrange(o + 8, o + 10)) && f.fragment_size.0 == be_decode(
            bytes.subrange(o + 10, o + 12),
        )
        &&& p.payload@ == bytes.subrange(o + 12, bytes.len() as int)
    } else {
        &&& p.fragment_header is None
        &&& p.payload@ == bytes.subrange(o + 4, bytes.len() as int)
    }
}

impl DataPacket {
    /// Writes header, tag, window size, the fragmentation header when present, and the payload.
    pub fn serialize(&self, buffer: &mut [u8]) -> (r: Result<usize, ValidationError>)
        requires
            self.header.wf(),
        ensures
            (r, final(buffer)@) == spec_serialize_parts(self.header, old(buffer)@, data_body(*self), Seq::empty()),
    {
        let mut body: Vec<u8> = Vec::new();
        push_slice(&mut body, self.hmac.data());
        push_be(&mut body, self.window_size.0 as u64, 4);
        match &self.fragment_header {
            Some(f) => {
                push_be(&mut body, f.fragment_id.0 as u64, 2);
                push_be(&mut body, f.fragment_index.0 as u64, 2);
                push_be(&mut body, f.fragment_count.0 as u64, 2);
                push_be(&mut body, f.fragment_size.0 as u64, 2);
            },
            None => {},
        }
        push_slice(&mut body, self.payload.as_slice());
        let empty: Vec<u8> = Vec::new();
        proof {
            assert(body@ =~= data_body(*self));
            assert(empty@ =~= Seq::<u8>::empty());
        }
        serialize_parts(&self.header, buffer, body.as_slice(), empty.as_slice())
    }

    pub fn deserialize(bytes: &[u8]) -> (r: Result<DataPacket, ValidationError>)
        ensures
            match data_parse_error(bytes@) {
                Some(e) => r == Err::<DataPacket, ValidationError>(e),
                None => r matches Ok(p) && data_parsed(bytes@, p) && p.header.wf(),
            },
    {
        let (header, hmac, o) = match parse_prefix(bytes, PacketType::Data, 4) {
            Ok(x) => x,
            Err(e) => return Err(e),
        };
        proof {
            crate::codec::lemma_pow256_values();
            crate::codec::lemma_be_decode_bound(bytes@.subrange(o as int, o + 4));
        }
        let window_size = WindowSize::new(read_be(bytes, o, 4) as u32);
        let len = bytes.len();
        if header.flags().is_fragmented() {
            if len - o < 12 {
                return Err(ValidationError::InvalidLength);
            }
            proof {
                crate::codec::lemma_be_decode_bound(bytes@.subrange(o + 4, o + 6));
                crate::codec::lemma_be_decode_bound(bytes@.subrange(o + 6, o + 8));
                crate::codec::lemma_be_decode_bound(bytes@.subrange(o + 8, o + 10));
                crate::codec::lemma_be_decode_bound(bytes@.subrange(o + 10, o + 12));
            }
            let f = FragmentHeader {
                fragment_id: FragmentId::new(read_be(bytes, o + 4, 2) as u16),
                fragment_index: FragmentIndex::new(read_be(bytes, o + 6, 2) as u16),
                fragment_count: FragmentCount::new(read_be(bytes, o + 8, 2) as u16),
                fragment_size: FragmentSize::from_raw(read_be(bytes, o + 10, 2) as u16),
            };
            let payload = read_bytes(bytes, o + 12, len - (o + 12));
            Ok(DataPacket { header, hmac, window_size, fragment_header: Some(f), payload })
        } else {
            let payload = read_bytes(bytes, o + 4, len - (o + 4));
            Ok(DataPacket { header, hmac, window_size, fragment_header: None, payload })
        }
    }

    /// What `validate` answers.
    pub open spec fn validate_spec(self) -> ValidationResult<()> {
        match self.header.validate_spec() {
            ValidationResult::Invalid(e) => ValidationResult::Invalid(e),
            ValidationResult::Valid(_) => if self.header.packet_type != PacketType::Data {
                ValidationResult::Invalid(ValidationError::InvalidPacketType)
            } else if self.window_size.0 == 0 {
                ValidationResult::Invalid(ValidationError::InvalidWindowSize)
            } else if self.fragment_header matches Some(f) && f.fragment_index.0 >= f.fragment_count.0 {
                ValidationResult::Invalid(ValidationError::InvalidFragmentIndex)
            } else if self.payload@.len() != self.header.payload_length.0 {
                ValidationResult::Invalid(ValidationError::InvalidPayloadLength)
            } else {
                ValidationResult::Valid(())
            },
        }
    }

    /// Checks the header, the packet type, the window, the fragment position
    /// and that the payload has the length the header announces.
    pub fn validate(&self) -> (r: ValidationResult<()>)
        ensures
            r == self.validate_spec(),
    {
        match self.header.validate() {
            ValidationResult::Invalid(e) => return ValidationResult::Invalid(e),
            ValidationResult::Valid(_) => {},
        }
        if self.header.packet_type() != PacketType::Data {
            return ValidationResult::Invalid(ValidationError::InvalidPacketType);
        }
        if self.window_size.as_u32() == 0 {
            return ValidationResult::Invalid(ValidationError::InvalidWindowSize);
        }
        match &self.fragment_header {
            Some(f) => {
                if f.fragment_index.as_u16() >= f.fragment_count.as_u16() {
                    return ValidationResult::Invalid(ValidationError::InvalidFragmentIndex);
                }
                if f.fragment_count.as_u16() == 0 {
                    return ValidationResult::Invalid(ValidationError::InvalidFragmentCount);
                }
            },
            None => {},
        }
        if self.payload.len() != self.header.get_payload_length().as_u16() as usize {
            return ValidationResult::Invalid(ValidationError::InvalidPayloadLength);
        }
        ValidationResult::Valid(())
    }
}

// ---------------------------------------------------------------------------
// Connection termination
// ---------------------------------------------------------------------------

/// FIN packet: closes a connection in order.
#[derive(Clone, Debug)]
pub struct FinPacket {
    pub header: PacketHeader,
    pub hmac: HmacTag,
    pub final_sequence: SequenceNumber,
    pub reason: TerminationReason,
}

/// The bytes that follow the header of a FIN packet.
pub open spec fn fin_body(p: FinPacket) -> Seq<u8> {
    p.hmac.data@ + be_encode(p.final_sequence.0 as nat, 4) + seq![termination_code(p.reason)]
}

/// Why parsing `bytes` as a FIN packet fails, if it does.
pub open spec fn fin_parse_error(bytes: Seq<u8>) -> Option<ValidationError> {
    match body_parse_error(bytes, PacketType::Fin, 5) {
        Some(e) => Some(e),
        None => if termination_of_code(bytes[fields_offset(bytes) + 4]) is None {
            Some(ValidationError::InvalidTerminationReason)
        } else {
            None
        },
    }
}

/// `p` is what the FIN packet in `bytes` holds.
pub open spec fn fin_parsed(bytes: Seq<u8>, p: FinPacket) -> bool {
    let o = fields_offset(bytes);
    &&& p.header == parsed_header(bytes)
    &&& tag_parsed(bytes, p.hmac)
    &&& p.final_sequence.0 == be_decode(bytes.subrange(o, o + 4))
    &&& termination_of_code(bytes[o + 4]) == Some(p.reason)
}

impl FinPacket {
    /// Writes header, tag, final sequence number and termination reason.
    pub fn serialize(&self, buffer: &mut [u8]) -> (r: Result<usize, ValidationError>)
        requires
            self.header.wf(),
        ensures
            (r, final(buffer)@) == spec_serialize_parts(self.header, old(buffer)@, fin_body(*self), Seq::empty()),
    {
        let mut body: Vec<u8> = Vec::new();
        push_slice(&mut body, self.hmac.data());
        push_be(&mut body, self.final_sequence.0 as u64, 4);
        body.push(self.reason.as_u8());
        let empty: Vec<u8> = Vec::new();
        proof {
            assert(body@ =~= fin_body(*self));
            assert(empty@ =~= Seq::<u8>::empty());
        }
        serialize_parts(&self.header, buffer, body.as_slice(), empty.as_slice())
    }

    pub fn deserialize(bytes: &[u8]) -> (r: Result<FinPacket, ValidationError>)
        ensures
            match fin_parse_error(bytes@) {
                Some(e) => r == Err::<FinPacket, ValidationError>(e),
                None => r matches Ok(p) && fin_parsed(bytes@, p) && p.header.wf(),
            },
    {
        let (header, hmac, o) = match parse_prefix(bytes, PacketType::Fin, 5) {
            Ok(x) => x,
            Err(e) => return Err(e),
        };
        proof {
            crate::codec::lemma_pow256_values();
            crate::codec::lemma_be_decode_bound(bytes@.subrange(o as int, o + 4));
        }
        let final_sequence = SequenceNumber::new(read_be(bytes, o, 4) as u32);
        let reason = match TerminationReason::from_u8(bytes[o + 4]) {
            Some(r) => r,
            None => return Err(ValidationError::InvalidTerminationReason),
        };
        Ok(FinPacket { header, hmac, final_sequence, reason })
    }
}

/// RST packet: aborts a connection.
#[derive(Clone, Debug)]
pub struct RstPacket {
    pub header: PacketHeader,
    pub hmac: HmacTag,
    pub reason: ResetReason,
    pub error_code: Option<ErrorCode>,
}

/// The bytes that follow the header of an RST packet.
pub open spec fn rst_body(p: RstPacket) -> Seq<u8> {
    p.hmac.data@ + seq![reset_code(p.reason)] + match p.error_code {
        Some(c) => seq![c.0],
        None => Seq::<u8>::empty(),
    }
}

/// Why parsing `bytes` as an RST packet fails, if it does.
pub open spec fn rst_parse_error(bytes: Seq<u8>) -> Option<ValidationError> {
    match body_parse_error(bytes, PacketType::Rst, 1) {
        Some(e) => Some(e),
        None => if reset_of_code(bytes[fields_offset(bytes)]) is None {
            Some(ValidationError::InvalidResetReason)
        } else {
            None
        },
    }
}

/// `p` is what the RST packet in `bytes` holds: an error code is read when a
/// byte follows the reason.
pub open spec fn rst_parsed(bytes: Seq<u8>, p: RstPacket) -> bool {
    let o = fields_offset(bytes);
    &&& p.header == parsed_header(bytes)
    &&& tag_parsed(bytes, p.hmac)
    &&& reset_of_code(bytes[o]) == Some(p.reason)
    &&& if bytes.len() > o + 1 {
        p.error_code == Some(ErrorCode(bytes[o + 1]))
    } else {
        p.error_code is None
    }
}

impl RstPacket {
    /// Writes header, tag, reset reason and, when present, the error code.
    pub fn serialize(&self, buffer: &mut [u8]) -> (r: Result<usize, ValidationError>)
        requires
            self.header.wf(),
        ensures
            (r, final(buffer)@) == spec_serialize_parts(self.header, old(buffer)@, rst_body(*self), Seq::empty()),
    {
        let mut body: Vec<u8> = Vec::new();
        push_slice(&mut body, self.hmac.data());
        body.push(self.reason.as_u8());
        match self.error_code {
            Some(c) => body.push(c.as_u8()),
            None => {},
        }
        let empty: Vec<u8> = Vec::new();
        proof {
            assert(body@ =~= rst_body(*self));
            assert(empty@ =~= Seq::<u8>::empty());
        }
        serialize_parts(&self.header, buffer, body.as_slice(), empty.as_slice())
    }

    pub fn deserialize(bytes: &[u8]) -> (r: Result<RstPacket, ValidationError>)
        ensures
            match rst_parse_error(bytes@) {
                Some(e) => r == Err::<RstPacket, ValidationError>(e),
                None => r matches Ok(p) && rst_parsed(bytes@, p) && p.header.wf(),
            },
    {
        let (header, hmac, o) = match parse_prefix(bytes, PacketType::Rst, 1) {
            Ok(x) => x,
            Err(e) => return Err(e),
        };
        let reason = match ResetReason::from_u8(bytes[o]) {
            Some(r) => r,
            None => return Err(ValidationError::InvalidResetReason),
        };
        let error_code = if bytes.len() > o + 1 {
            Some(ErrorCode::new(bytes[o + 1]))
        } else {
            None
        };
        Ok(RstPacket { header, hmac, reason, error_code })
    }
}

// ---------------------------------------------------------------------------
// Keep-alive
// ---------------------------------------------------------------------------

/// HEARTBEAT packet: keeps a connection alive and measures round trips.
#[derive(Clone, Debug)]
pub struct HeartbeatPacket {
    pub header: PacketHeader,
    pub hmac: HmacTag,
    pub heartbeat_sequence: HeartbeatSequence,
    pub rtt_measurement: Option<RoundTripTime>,
}

/// The bytes that follow the header of a HEARTBEAT packet.
pub open spec fn heartbeat_body(p: HeartbeatPacket) -> Seq<u8> {
    p.hmac.data@ + be_encode(p.heartbeat_sequence.0 as nat, 4) + match p.rtt_measurement {
        Some(t) => be_encode(t.0 as nat, 8),
        None => Seq::<u8>::empty(),
    }
}

/// Why parsing `bytes` as a HEARTBEAT packet fails, if it does: fewer than
/// eighteen bytes are refused before the header is looked at.
pub open spec fn heartbeat_parse_error(bytes: Seq<u8>) -> Option<ValidationError> {
    if bytes.len() < 18 {
        Some(ValidationError::InvalidLength)
    } else {
        body_parse_error(bytes, PacketType::Heartbeat, 4)
    }
}

/// `p` is what the HEARTBEAT packet in `bytes` holds: a round-trip time is
/// read when eight bytes follow the heartbeat sequence.
pub open spec fn heartbeat_parsed(bytes: Seq<u8>, p: HeartbeatPacket) -> bool {
    let o = fields_offset(bytes);
    &&& p.header == parsed_header(bytes)
    &&& tag_parsed(bytes, p.hmac)
    &&& p.heartbeat_sequence.0 == be_decode(bytes.subrange(o, o + 4))
    &&& if bytes.len() >= o + 12 {
        p.rtt_measurement matches Some(t) && t.0 == be_decode(bytes.subrange(o + 4, o + 12))
    } else {
        p.rtt_measurement is None
    }
}

impl HeartbeatPacket {
    /// Writes header, tag, heartbeat sequence and, when present, the round-trip time.
    pub fn serialize(&self, buffer: &mut [u8]) -> (r: Result<usize, ValidationError>)
        requires
            self.header.wf(),
        ensures
            (r, final(buffer)@) == spec_serialize_parts(self.header, old(buffer)@, heartbeat_body(*self), Seq::empty()),
    {
        let mut body: Vec<u8> = Vec::new();
        push_slice(&mut body, self.hmac.data());
        push_be(&mut body, self.heartbeat_sequence.0 as u64, 4);
        match self.rtt_measurement {
            Some(t) => push_be(&mut body, t.as_nanos(), 8),
            None => {},
        }
        let empty: Vec<u8> = Vec::new();
        proof {
            assert(body@ =~= heartbeat_body(*self));
            assert(empty@ =~= Seq::<u8>::empty());
        }
        serialize_parts(&self.header, buffer, body.as_slice(), empty.as_slice())
    }

    pub fn deserialize(bytes: &[u8]) -> (r: Result<HeartbeatPacket, ValidationError>)
        ensures
            match heartbeat_parse_error(bytes@) {
                Some(e) => r == Err::<HeartbeatPacket, ValidationError>(e),
                None => r matches Ok(p) && heartbeat_parsed(bytes@, p) && p.header.wf(),
            },
    {
        if bytes.len() < 18 {
            return Err(ValidationError::InvalidLength);
        }
        let (header, hmac, o) = match parse_prefix(bytes, PacketType::Heartbeat, 4) {
            Ok(x) => x,
            Err(e) => return Err(e),
        };
        proof {
            crate::codec::lemma_pow256_values();
            crate::codec::lemma_be_decode_bound(bytes@.subrange(o as int, o + 4));
        }
        let heartbeat_sequence = HeartbeatSequence::new(read_be(bytes, o, 4) as u32);
        let rtt_measurement = if bytes.len() - o >= 12 {
            proof {
                crate::codec::lemma_be_decode_bound(bytes@.subrange(o + 4, o + 12));
            }
            Some(RoundTripTime::from_nanos(read_be(bytes, o + 4, 8)))
        } else {
            None
        };
        Ok(HeartbeatPacket { header, hmac, heartbeat_sequence, rtt_measurement })
    }
}


// ---------------------------------------------------------------------------
// Control
// ---------------------------------------------------------------------------

/// Time synchronization request.
#[derive(Clone, Copy, Debug)]
pub struct TimeSyncRequestPayload {
    pub client_timestamp: Timestamp,
    pub sync_quality: SyncQuality,
    pub max_drift: TimeDrift,
}

/// Time synchronization response.
#[derive(Clone, Copy, Debug)]
pub struct TimeSyncResponsePayload {
    pub client_timestamp: Timestamp,
    pub server_timestamp: Timestamp,
    pub network_delay: NetworkDelay,
    pub clock_skew: ClockSkew,
}

/// Recovery request.
#[derive(Clone, Copy, Debug)]
pub struct RecoveryPayload {
    pub reason: RecoveryReason,
    pub nonce: RecoveryNonce,
    pub last_good_sequence: SequenceNumber,
    pub recovery_params: RecoveryParams,
}

/// Sequence number negotiation.
#[derive(Clone, Copy, Debug)]
pub struct SequenceNegPayload {
    pub proposed_sequence: SequenceNumber,
    pub window_size: WindowSize,
    pub flags: SequenceNegFlags,
}

/// Request to change the HMAC policy.
#[derive(Clone, Copy, Debug)]
pub struct HmacPolicyRequestPayload {
    pub requested_policy: HmacPolicy,
    pub security_level: SecurityLevel,
    pub reason: PolicyChangeReason,
}

/// Answer to an HMAC policy change.
#[derive(Clone, Copy, Debug)]
pub struct HmacPolicyResponsePayload {
    pub accepted_policy: HmacPolicy,
    pub result: PolicyChangeResult,
    pub effective_timestamp: Timestamp,
}

/// What a CONTROL packet carries.
#[derive(Clone, Copy, Debug)]
pub enum ControlPayload {
    TimeSyncRequest(TimeSyncRequestPayload),
    TimeSyncResponse(TimeSyncResponsePayload),
    Recovery(RecoveryPayload),
    SequenceNeg(SequenceNegPayload),
    HmacPolicyRequest(HmacPolicyRequestPayload),
    HmacPolicyResponse(HmacPolicyResponsePayload),
}

/// CONTROL packet.
#[derive(Clone, Debug)]
pub struct ControlPacket {
    pub header: PacketHeader,
    pub hmac: HmacTag,
    pub payload: ControlPayload,
}

/// The byte that tells the control payloads apart on the wire.
pub open spec fn control_discriminant(p: ControlPayload) -> u8 {
    match p {
        ControlPayload::TimeSyncRequest(_) => 0x01,
        ControlPayload::TimeSyncResponse(_) => 0x02,
        ControlPayload::Recovery(_) => 0x03,
        ControlPayload::SequenceNeg(_) => 0x04,
        ControlPayload::HmacPolicyRequest(_) => 0x05,
        ControlPayload::HmacPolicyResponse(_) => 0x06,
    }
}

/// The fields a control payload is written with after its discriminant:
/// recovery and HMAC policy payloads write none; signed numbers are written in
/// two's complement.
pub open spec fn control_fields(p: ControlPayload) -> Seq<u8> {
    match p {
        ControlPayload::TimeSyncRequest(r) => be_encode(r.client_timestamp.0 as nat, 8) + seq![
            r.sync_quality.0,
        ] + be_encode(r.max_drift.0 as u32 as nat, 4),
        ControlPayload::TimeSyncResponse(r) => be_encode(r.client_timestamp.0 as nat, 8) + be_encode(
            r.server_timestamp.0 as nat,
            8,
        ) + be_encode(r.network_delay.0 as nat, 8) + be_encode(r.clock_skew.0 as u64 as nat, 8),
        ControlPayload::SequenceNeg(r) => be_encode(r.proposed_sequence.0 as nat, 4) + be_encode(
            r.window_size.0 as nat,
            4,
        ) + seq![r.flags.0],
        _ => Seq::<u8>::empty(),
    }
}

impl ControlPacket {
    /// Writes header, tag and discriminant, checking that they fit, then the
    /// payload's fields, checking again.
    pub fn serialize(&self, buffer: &mut [u8]) -> (r: Result<usize, ValidationError>)
        requires
            self.header.wf(),
        ensures
            (r, final(buffer)@) == spec_serialize_parts(
                self.header,
                old(buffer)@,
                self.hmac.data@ + seq![control_discriminant(self.payload)],
                control_fields(self.payload),
            ),
    {
        let mut first: Vec<u8> = Vec::new();
        push_slice(&mut first, self.hmac.data());
        let mut second: Vec<u8> = Vec::new();
        match &self.payload {
            ControlPayload::TimeSyncRequest(r) => {
                first.push(0x01);
                push_be(&mut second, r.client_timestamp.as_nanos(), 8);
                second.push(r.sync_quality.as_u8());
                let drift: u32 = r.max_drift.as_i32() as u32;
                push_be(&mut second, drift as u64, 4);
            },
            ControlPayload::TimeSyncResponse(r) => {
                first.push(0x02);
                push_be(&mut second, r.client_timestamp.as_nanos(), 8);
                push_be(&mut second, r.server_timestamp.as_nanos(), 8);
                push_be(&mut second, r.network_delay.as_nanos(), 8);
                let skew: u64 = r.clock_skew.as_i64() as u64;
                push_be(&mut second, skew, 8);
            },
            ControlPayload::Recovery(_) => {
                first.push(0x03);
            },
            ControlPayload::SequenceNeg(r) => {
                first.push(0x04);
                push_be(&mut second, r.proposed_sequence.as_u32() as u64, 4);
                push_be(&mut second, r.window_size.as_u32() as u64, 4);
                second.push(r.flags.as_u8());
            },
            ControlPayload::HmacPolicyRequest(_) => {
                first.push(0x05);
            },
            ControlPayload::HmacPolicyResponse(_) => {
                first.push(0x06);
            },
        }
        proof {
            assert(first@ =~= self.hmac.data@ + seq![control_discriminant(self.payload)]);
            assert(second@ =~= control_fields(self.payload));
        }
        serialize_parts(&self.header, buffer, first.as_slice(), second.as_slice())
    }
}

// ---------------------------------------------------------------------------
// Discovery
// ---------------------------------------------------------------------------

/// Discovery request: a challenge and a Bloom filter of the keys held.
#[derive(Clone, Debug)]
pub struct DiscoveryRequestPayload {
    pub challenge: DiscoveryChallenge,
    pub bloom_filter: BloomFilter,
    pub timeout: DiscoveryTimeout,
}

/// Discovery response: the candidate keys in common.
#[derive(Clone, Debug)]
pub struct DiscoveryResponsePayload {
    pub challenge: DiscoveryChallenge,
    pub psk_proofs: Vec<PskProof>,
    pub candidate_hashes: Vec<CandidateHash>,
    pub response_timestamp: Timestamp,
}

/// Discovery confirmation: the key settled on.
#[derive(Clone, Copy, Debug)]
pub struct DiscoveryConfirmPayload {
    pub selected_psk: PskId,
    pub confirmation_proof: PskProof,
    pub session_params: SessionParams,
}

/// What a DISCOVERY packet carries.
#[derive(Clone, Debug)]
pub enum DiscoveryPayload {
    Request(DiscoveryRequestPayload),
    Response(DiscoveryResponsePayload),
    Confirm(DiscoveryConfirmPayload),
}

/// DISCOVERY packet.
#[derive(Clone, Debug)]
pub struct DiscoveryPacket {
    pub header: PacketHeader,
    pub hmac: HmacTag,
    pub payload: DiscoveryPayload,
}

/// The candidate hashes one after the other.
pub open spec fn hashes_bytes(hs: Seq<CandidateHash>) -> Seq<u8>
    decreases hs.len(),
{
    if hs.len() == 0 {
        Seq::empty()
    } else {
        hashes_bytes(hs.drop_last()) + hs.last().0@
    }
}

pub proof fn lemma_hashes_bytes_len(hs: Seq<CandidateHash>)
    ensures
        hashes_bytes(hs).len() == 32 * hs.len(),
    decreases hs.len(),
{
    if hs.len() > 0 {
        lemma_hashes_bytes_len(hs.drop_last());
    }
}

/// The byte that tells the discovery payloads apart on the wire.
pub open spec fn discovery_discriminant(p: DiscoveryPayload) -> u8 {
    match p {
        DiscoveryPayload::Request(_) => 0x01,
        DiscoveryPayload::Response(_) => 0x02,
        DiscoveryPayload::Confirm(_) => 0x03,
    }
}

/// The fields a discovery payload is written with after its discriminant.
/// A request: the first eight challenge bytes, the low four bytes of the
/// timeout, the fingerprint count (one per 32 filter bytes, at most 65535), the
/// low two bytes of the filter length, four zero bytes and the filter. A
/// response: eight zero bytes, the low two bytes of the candidate count, 1 when
/// there are candidates and 0 otherwise, four zero bytes, the candidate hashes
/// and the response timestamp. A confirmation: the first eight bytes of the key
/// identifier, the proof padded with zeros to 32 bytes, the status 1 and
/// fourteen zero bytes.
pub open spec fn discovery_fields(p: DiscoveryPayload) -> Seq<u8> {
    match p {
        DiscoveryPayload::Request(r) => {
            let n = r.bloom_filter.bits@.len();
            r.challenge.0@.subrange(0, 8) + be_encode(r.timeout.0 as nat, 4) + be_encode(
                if n / 32 < 65535 { n / 32 } else { 65535 },
                2,
            ) + be_encode(n, 2) + zeros(4) + r.bloom_filter.bits@
        },
        DiscoveryPayload::Response(r) => {
            let k = r.candidate_hashes@.len();
            zeros(8) + be_encode(k, 2) + be_encode(if k > 0 { 1 } else { 0 }, 2) + zeros(4)
                + hashes_bytes(r.candidate_hashes@) + be_encode(r.response_timestamp.0 as nat, 8)
        },
        DiscoveryPayload::Confirm(c) => c.selected_psk.0@.subrange(0, 8) + c.confirmation_proof.0@
            + zeros(16) + be_encode(1, 2) + zeros(14),
    }
}

/// A response is refused for want of room only when 20 bytes and the hashes do
/// not fit after the discriminant, though it takes four bytes more: a buffer
/// of a length in between is not one `serialize` takes.
pub open spec fn discovery_buffer_ok(p: DiscoveryPacket, len: nat) -> bool {
    match p.payload {
        DiscoveryPayload::Response(r) => {
            let start = p.header.spec_header_size() + p.hmac.data@.len() + 1;
            let k = r.candidate_hashes@.len();
            !(start + 20 + 32 * k <= len < start + 24 + 32 * k)
        },
        _ => true,
    }
}

impl DiscoveryPacket {
    /// Writes header, tag and discriminant, checking that they fit, then the
    /// payload's fields, checking again.
    pub fn serialize(&self, buffer: &mut [u8]) -> (r: Result<usize, ValidationError>)
        requires
            self.header.wf(),
            discovery_buffer_ok(*self, old(buffer)@.len()),
        ensures
            (r, final(buffer)@) == spec_serialize_parts(
                self.header,
                old(buffer)@,
                self.hmac.data@ + seq![discovery_discriminant(self.payload)],
                discovery_fields(self.payload),
            ),
    {
        let mut first: Vec<u8> = Vec::new();
        push_slice(&mut first, self.hmac.data());
        let mut second: Vec<u8> = Vec::new();
        match &self.payload {
            DiscoveryPayload::Request(r) => {
                first.push(0x01);
                let n = r.bloom_filter.bits.len();
                let head = read_bytes(r.challenge.0.as_slice(), 0, 8);
                push_slice(&mut second, head.as_slice());
                push_be(&mut second, r.timeout.as_u64(), 4);
                let fingerprints: u64 = if n / 32 < 65535 { (n / 32) as u64 } else { 65535 };
                push_be(&mut second, fingerprints, 2);
                push_be(&mut second, n as u64, 2);
                push_zeros(&mut second, 4);
                push_slice(&mut second, r.bloom_filter.bits.as_slice());
                proof {
                    assert(second@ =~= discovery_fields(self.payload));
                }
            },
            DiscoveryPayload::Response(r) => {
                first.push(0x02);
                let k = r.candidate_hashes.len();
                push_zeros(&mut second, 8);
                push_be(&mut second, k as u64, 2);
                let status: u64 = if k > 0 { 1 } else { 0 };
                push_be(&mut second, status, 2);
                push_zeros(&mut second, 4);
                let ghost before = second@;
                let mut i: usize = 0;
                while i < k
                    invariant
                        i <= k,
                        k == r.candidate_hashes@.len(),
                        second@ == before + hashes_bytes(r.candidate_hashes@.subrange(0, i as int)),
                    decreases k - i,
                {
                    let h = r.candidate_hashes[i].as_bytes();
                    push_slice(&mut second, h.as_slice());
                    proof {
                        let s = r.candidate_hashes@.subrange(0, i + 1);
                        assert(s.drop_last() =~= r.candidate_hashes@.subrange(0, i as int));
                    }
                    i = i + 1;
                }
                proof {
                    assert(r.candidate_hashes@.subrange(0, k as int) =~= r.candidate_hashes@);
                }
                push_be(&mut second, r.response_timestamp.as_nanos(), 8);
                proof {
                    assert(second@ =~= discovery_fields(self.payload));
                }
            },
            DiscoveryPayload::Confirm(c) => {
                first.push(0x03);
                let head = read_bytes(c.selected_psk.0.as_slice(), 0, 8);
                push_slice(&mut second, head.as_slice());
                push_slice(&mut second, c.confirmation_proof.0.as_slice());
                push_zeros(&mut second, 16);
                push_be(&mut second, 1, 2);
                push_zeros(&mut second, 14);
                proof {
                    assert(second@ =~= discovery_fields(self.payload));
                }
            },
        }
        proof {
            assert(first@ =~= self.hmac.data@ + seq![discovery_discriminant(self.payload)]);
        }
        serialize_parts(&self.header, buffer, first.as_slice(), second.as_slice())
    }
}


// ---------------------------------------------------------------------------
// Management
// ---------------------------------------------------------------------------

/// Request to change the session key.
#[derive(Clone, Debug)]
pub struct RekeyRequestPayload {
    pub key_id: KeyId,
    pub kdf_params: KdfParams,
    pub reason: RekeyReason,
    pub effective_timestamp: Timestamp,
}

/// Answer to a rekey.
#[derive(Clone, Copy, Debug)]
pub struct RekeyResponsePayload {
    pub key_id: KeyId,
    pub result: RekeyResult,
    pub confirmation_timestamp: Timestamp,
}

/// Request to repair part of a session.
#[derive(Clone, Copy, Debug)]
pub struct RepairRequestPayload {
    pub repair_type: RepairType,
    pub sequence_range: SequenceRange,
    pub priority: RepairPriority,
}

/// Answer to a repair.
#[derive(Clone, Debug)]
pub struct RepairResponsePayload {
    pub result: RepairResult,
    pub repaired_data: Option<Vec<u8>>,
    pub completion_timestamp: Timestamp,
}

/// Confirmation of the sequence state after a repair.
#[derive(Clone, Copy, Debug)]
pub struct RepairConfirmPayload {
    /// Matches the confirmation with its repair request.
    pub repair_nonce: RecoveryNonce,
    pub confirmed_sequence: SequenceNumber,
    /// First eight bytes of the confirmation HMAC.
    pub confirmation_hmac: [u8; 8],
}

/// What a MANAGEMENT packet carries.
#[derive(Clone, Debug)]
pub enum ManagementPayload {
    RekeyRequest(RekeyRequestPayload),
    RekeyResponse(RekeyResponsePayload),
    RepairRequest(RepairRequestPayload),
    RepairResponse(RepairResponsePayload),
    RepairConfirm(RepairConfirmPayload),
}

/// MANAGEMENT packet.
#[derive(Clone, Debug)]
pub struct ManagementPacket {
    pub header: PacketHeader,
    pub hmac: HmacTag,
    pub payload: ManagementPayload,
}

/// The byte that tells the management payloads apart on the wire.
pub open spec fn management_discriminant(p: ManagementPayload) -> u8 {
    match p {
        ManagementPayload::RekeyRequest(_) => 0x01,
        ManagementPayload::RekeyResponse(_) => 0x02,
        ManagementPayload::RepairRequest(_) => 0x03,
        ManagementPayload::RepairResponse(_) => 0x04,
        ManagementPayload::RepairConfirm(_) => 0x05,
    }
}

/// The fields a management payload is written with after its discriminant:
/// rekeys write the first four key identifier bytes and zeros for the
/// commitment; a repair request its type and sequence range and eight zero
/// bytes; a repair response twelve zero bytes and its completion time; a
/// repair confirmation its nonce, sequence number and HMAC bytes.
pub open spec fn management_fields(p: ManagementPayload) -> Seq<u8> {
    match p {
        ManagementPayload::RekeyRequest(r) => r.key_id.0@.subrange(0, 4) + zeros(40),
        ManagementPayload::RekeyResponse(r) => r.key_id.0@.subrange(0, 4) + zeros(48),
        ManagementPayload::RepairRequest(r) => be_encode(repair_type_code(r.repair_type) as nat, 4)
            + be_encode(r.sequence_range.start.0 as nat, 4) + be_encode(
            r.sequence_range.end.0 as nat,
            4,
        ) + zeros(8),
        ManagementPayload::RepairResponse(r) => zeros(12) + be_encode(
            r.completion_timestamp.0 as nat,
            8,
        ),
        ManagementPayload::RepairConfirm(r) => be_encode(r.repair_nonce.0 as nat, 4) + be_encode(
            r.confirmed_sequence.0 as nat,
            4,
        ) + r.confirmation_hmac@,
    }
}

impl ManagementPacket {
    /// Writes header, tag and discriminant, checking that they fit, then the
    /// payload's fields, checking again.
    pub fn serialize(&self, buffer: &mut [u8]) -> (r: Result<usize, ValidationError>)
        requires
            self.header.wf(),
        ensures
            (r, final(buffer)@) == spec_serialize_parts(
                self.header,
                old(buffer)@,
                self.hmac.data@ + seq![management_discriminant(self.payload)],
                management_fields(self.payload),
            ),
    {
        let mut first: Vec<u8> = Vec::new();
        push_slice(&mut first, self.hmac.data());
        let mut second: Vec<u8> = Vec::new();
        match &self.payload {
            ManagementPayload::RekeyRequest(r) => {
                first.push(0x01);
                let head = read_bytes(r.key_id.0.as_slice(), 0, 4);
                push_slice(&mut second, head.as_slice());
                push_zeros(&mut second, 40);
            },
            ManagementPayload::RekeyResponse(r) => {
                first.push(0x02);
                let head = read_bytes(r.key_id.0.as_slice(), 0, 4);
                push_slice(&mut second, head.as_slice());
                push_zeros(&mut second, 48);
            },
            ManagementPayload::RepairRequest(r) => {
                first.push(0x03);
                push_be(&mut second, r.repair_type.as_u32() as u64, 4);
                push_be(&mut second, r.sequence_range.start.as_u32() as u64, 4);
                push_be(&mut second, r.sequence_range.end.as_u32() as u64, 4);
                push_zeros(&mut second, 8);
            },
            ManagementPayload::RepairResponse(r) => {
                first.push(0x04);
                push_zeros(&mut second, 12);
                push_be(&mut second, r.completion_timestamp.as_nanos(), 8);
            },
            ManagementPayload::RepairConfirm(r) => {
                first.push(0x05);
                push_be(&mut second, r.repair_nonce.0 as u64, 4);
                push_be(&mut second, r.confirmed_sequence.as_u32() as u64, 4);
                push_slice(&mut second, r.confirmation_hmac.as_slice());
            },
        }
        proof {
            assert(first@ =~= self.hmac.data@ + seq![management_discriminant(self.payload)]);
            assert(second@ =~= management_fields(self.payload));
        }
        serialize_parts(&self.header, buffer, first.as_slice(), second.as_slice())
    }
}

// ---------------------------------------------------------------------------
// Errors
// ---------------------------------------------------------------------------

/// ERROR packet: reports an error to the peer.
#[derive(Clone, Debug)]
pub struct ErrorPacket {
    pub header: PacketHeader,
    pub hmac: HmacTag,
    pub error_code: ErrorCode,
    pub error_description: ErrorDescription,
    pub error_context: Option<Vec<u8>>,
}

/// At most the first 255 bytes of a description's UTF-8 encoding are written.
pub open spec fn written_description(d: ErrorDescription) -> Seq<u8> {
    let b = vstd::utf8::encode_utf8(d.0@);
    if b.len() <= 255 {
        b
    } else {
        b.subrange(0, 255)
    }
}

/// The bytes that follow the header of an ERROR packet: tag, error code, the
/// description's length and bytes, and the context.
pub open spec fn error_body(p: ErrorPacket) -> Seq<u8> {
    p.hmac.data@ + seq![p.error_code.0, written_description(p.error_description).len() as u8]
        + written_description(p.error_description) + match p.error_context {
        Some(c) => c@,
        None => Seq::<u8>::empty(),
    }
}

/// The tag length an ERROR packet's header calls for.
pub open spec fn error_tag_len(bytes: Seq<u8>) -> int {
    spec_tag_size(spec_deserialize_header(bytes.subrange(0, 18))->Ok_0.hmac_policy) as int
}

/// Why parsing `bytes` as an ERROR packet fails, if it does: the header is read
/// from the first eighteen bytes alone and the tag always starts at byte 18.
pub open spec fn error_parse_error(bytes: Seq<u8>) -> Option<ValidationError> {
    if bytes.len() < 18 {
        Some(ValidationError::InvalidLength)
    } else {
        match spec_deserialize_header(bytes.subrange(0, 18)) {
            Err(e) => Some(e),
            Ok(h) => if h.packet_type != PacketType::Error {
                Some(ValidationError::InvalidPacketType)
            } else if bytes.len() < 18 + error_tag_len(bytes) + 2 {
                Some(ValidationError::InvalidLength)
            } else if bytes.len() < 18 + error_tag_len(bytes) + 2 + bytes[18 + error_tag_len(bytes) + 1] {
                Some(ValidationError::InvalidLength)
            } else if !vstd::utf8::valid_utf8(
                bytes.subrange(
                    18 + error_tag_len(bytes) + 2,
                    18 + error_tag_len(bytes) + 2 + bytes[18 + error_tag_len(bytes) + 1],
                ),
            ) {
                Some(ValidationError::InvalidErrorDescription)
            } else {
                None
            },
        }
    }
}

/// `p` is what the ERROR packet in `bytes` holds: the context is what follows
/// the description, when anything does.
pub open spec fn error_parsed(bytes: Seq<u8>, p: ErrorPacket) -> bool {
    let t = error_tag_len(bytes);
    let o = 18 + t;
    let d = bytes[o + 1] as int;
    &&& p.header == spec_deserialize_header(bytes.subrange(0, 18))->Ok_0
    &&& p.hmac.data@ == bytes.subrange(18, o)
    &&& p.hmac.policy == p.header.hmac_policy
    &&& p.error_code.0 == bytes[o]
    &&& p.error_description.0@ == vstd::utf8::decode_utf8(bytes.subrange(o + 2, o + 2 + d))
    &&& if o + 2 + d < bytes.len() {
        p.error_context matches Some(c) && c@ == bytes.subrange(o + 2 + d, bytes.len() as int)
    } else {
        p.error_context is None
    }
}

/// Calls `String::from_utf8`, which std documents to fail exactly when the
/// bytes are not valid UTF-8 and otherwise to give the string they encode.
#[verifier::external_body]
fn string_from_utf8(bytes: Vec<u8>) -> (r: Option<String>)
    ensures
        r is Some <==> vstd::utf8::valid_utf8(bytes@),
        r matches Some(s) ==> s@ == vstd::utf8::decode_utf8(bytes@),
{
    String::from_utf8(bytes).ok()
}

impl ErrorPacket {
    /// Writes header, tag, error code, description (length first, at most 255
    /// bytes) and context.
    pub fn serialize(&self, buffer: &mut [u8]) -> (r: Result<usize, ValidationError>)
        requires
            self.header.wf(),
        ensures
            (r, final(buffer)@) == spec_serialize_parts(self.header, old(buffer)@, error_body(*self), Seq::empty()),
    {
        let desc = self.error_description.as_str().as_bytes();
        let dl: usize = if desc.len() <= 255 { desc.len() } else { 255 };
        let mut body: Vec<u8> = Vec::new();
        push_slice(&mut body, self.hmac.data());
        body.push(self.error_code.as_u8());
        body.push(dl as u8);
        let head = read_bytes(desc, 0, dl);
        push_slice(&mut body, head.as_slice());
        match &self.error_context {
            Some(c) => push_slice(&mut body, c.as_slice()),
            None => {},
        }
        let empty: Vec<u8> = Vec::new();
        proof {
            assert(desc@ =~= vstd::utf8::encode_utf8(self.error_description.0@));
            assert(head@ =~= written_description(self.error_description));
            assert(body@ =~= error_body(*self));
            assert(empty@ =~= Seq::<u8>::empty());
        }
        serialize_parts(&self.header, buffer, body.as_slice(), empty.as_slice())
    }

    pub fn deserialize(bytes: &[u8]) -> (r: Result<ErrorPacket, ValidationError>)
        ensures
            match error_parse_error(bytes@) {
                Some(e) => r == Err::<ErrorPacket, ValidationError>(e),
                None => r matches Ok(p) && error_parsed(bytes@, p),
            },
    {
        if bytes.len() < 18 {
            return Err(ValidationError::InvalidLength);
        }
        let head = read_bytes(bytes, 0, 18);
        let header = match PacketHeader::deserialize(head.as_slice()) {
            Ok(h) => h,
            Err(e) => return Err(e),
        };
        if header.packet_type() != PacketType::Error {
            return Err(ValidationError::InvalidPacketType);
        }
        let tl = header.hmac_policy().tag_size();
        if bytes.len() < 18 + tl + 2 {
            return Err(ValidationError::InvalidLength);
        }
        let hmac = HmacTag { data: read_bytes(bytes, 18, tl), policy: header.hmac_policy };
        let o = 18 + tl;
        let error_code = ErrorCode::new(bytes[o]);
        let d = bytes[o + 1] as usize;
        if bytes.len() - (o + 2) < d {
            return Err(ValidationError::InvalidLength);
        }
        let text = match string_from_utf8(read_bytes(bytes, o + 2, d)) {
            Some(t) => t,
            None => return Err(ValidationError::InvalidErrorDescription),
        };
        let end = o + 2 + d;
        let error_context = if end < bytes.len() {
            Some(read_bytes(bytes, end, bytes.len() - end))
        } else {
            None
        };
        Ok(ErrorPacket {
            header,
            hmac,
            error_code,
            error_description: ErrorDescription::new(text),
            error_context,
        })
    }
}

// ---------------------------------------------------------------------------
// Any packet
// ---------------------------------------------------------------------------

/// A packet of any type.
#[derive(Clone, Debug)]
pub enum Packet {
    Syn(SynPacket),
    SynAck(SynAckPacket),
    Ack(AckPacket),
    Data(DataPacket),
    Fin(FinPacket),
    Rst(RstPacket),
    Heartbeat(HeartbeatPacket),
    Error(ErrorPacket),
    Control(ControlPacket),
    Management(ManagementPacket),
    Discovery(DiscoveryPacket),
}

/// The header of a packet of any type.
pub open spec fn packet_header(p: Packet) -> PacketHeader {
    match p {
        Packet::Syn(x) => x.header,
        Packet::SynAck(x) => x.header,
        Packet::Ack(x) => x.header,
        Packet::Data(x) => x.header,
        Packet::Fin(x) => x.header,
        Packet::Rst(x) => x.header,
        Packet::Heartbeat(x) => x.header,
        Packet::Error(x) => x.header,
        Packet::Control(x) => x.header,
        Packet::Management(x) => x.header,
        Packet::Discovery(x) => x.header,
    }
}

/// The HMAC tag of a packet of any type.
pub open spec fn packet_hmac(p: Packet) -> HmacTag {
    match p {
        Packet::Syn(x) => x.hmac,
        Packet::SynAck(x) => x.hmac,
        Packet::Ack(x) => x.hmac,
        Packet::Data(x) => x.hmac,
        Packet::Fin(x) => x.hmac,
        Packet::Rst(x) => x.hmac,
        Packet::Heartbeat(x) => x.hmac,
        Packet::Error(x) => x.hmac,
        Packet::Control(x) => x.hmac,
        Packet::Management(x) => x.hmac,
        Packet::Discovery(x) => x.hmac,
    }
}

impl Packet {
    /// A DATA packet with a default tag, a 65535-byte window and no fragmentation.
    pub fn new(header: PacketHeader, payload: Vec<u8>) -> (r: Packet)
        ensures
            r matches Packet::Data(d) && d.header == header && d.hmac.data@ == Seq::new(
                16,
                |i: int| 0u8,
            ) && d.hmac.policy == HmacPolicy::Medium && d.window_size.0 == 65535
                && d.fragment_header is None && d.payload@ == payload@,
    {
        Packet::Data(
            DataPacket {
                header,
                hmac: HmacTag::default(),
                window_size: WindowSize::new(65535),
                fragment_header: None,
                payload,
            },
        )
    }

    pub fn header(&self) -> (r: &PacketHeader)
        ensures
            *r == packet_header(*self),
    {
        match self {
            Packet::Syn(p) => &p.header,
            Packet::SynAck(p) => &p.header,
            Packet::Ack(p) => &p.header,
            Packet::Data(p) => &p.header,
            Packet::Fin(p) => &p.header,
            Packet::Rst(p) => &p.header,
            Packet::Heartbeat(p) => &p.header,
            Packet::Error(p) => &p.header,
            Packet::Control(p) => &p.header,
            Packet::Management(p) => &p.header,
            Packet::Discovery(p) => &p.header,
        }
    }

    pub fn packet_type(&self) -> (r: PacketType)
        ensures
            r == packet_header(*self).packet_type,
    {
        self.header().packet_type()
    }

    pub fn session_id(&self) -> (r: SessionId)
        ensures
            r == packet_header(*self).session_id,
    {
        self.header().session_id()
    }

    pub fn sequence_number(&self) -> (r: SequenceNumber)
        ensures
            r == packet_header(*self).sequence_number,
    {
        self.header().sequence_number()
    }

    /// Whether the packet's type calls for an acknowledgment.
    pub fn requires_ack(&self) -> (r: bool)
        ensures
            r == crate::types::spec_requires_ack(packet_header(*self).packet_type),
    {
        self.packet_type().requires_ack()
    }

    /// Whether the packet's type belongs to connection setup or teardown.
    pub fn is_connection_packet(&self) -> (r: bool)
        ensures
            r == crate::types::spec_is_connection_packet(packet_header(*self).packet_type),
    {
        self.packet_type().is_connection_packet()
    }

    /// Whether this is a DATA packet.
    pub fn carries_data(&self) -> (r: bool)
        ensures
            r == (*self is Data),
    {
        match self {
            Packet::Data(_) => true,
            _ => false,
        }
    }

    pub fn flags(&self) -> (r: PacketFlags)
        ensures
            r == packet_header(*self).flags,
    {
        self.header().flags()
    }

    pub fn timestamp(&self) -> (r: Timestamp)
        ensures
            r == packet_header(*self).timestamp,
    {
        self.header().timestamp()
    }

    pub fn hmac(&self) -> (r: &HmacTag)
        ensures
            *r == packet_hmac(*self),
    {
        match self {
            Packet::Syn(p) => &p.hmac,
            Packet::SynAck(p) => &p.hmac,
            Packet::Ack(p) => &p.hmac,
            Packet::Data(p) => &p.hmac,
            Packet::Fin(p) => &p.hmac,
            Packet::Rst(p) => &p.hmac,
            Packet::Heartbeat(p) => &p.hmac,
            Packet::Error(p) => &p.hmac,
            Packet::Control(p) => &p.hmac,
            Packet::Management(p) => &p.hmac,
            Packet::Discovery(p) => &p.hmac,
        }
    }

    /// Accepts every packet: each packet type checks itself.
    pub fn validate(&self) -> (r: Result<(), ValidationError>)
        ensures
            r == Ok::<(), ValidationError>(()),
    {
        Ok(())
    }

    /// Header and tag size plus the payload length the header announces.
    pub fn total_size(&self) -> (r: usize)
        ensures
            r == packet_header(*self).spec_header_size() + spec_tag_size(packet_header(*self).hmac_policy)
                + packet_header(*self).payload_length.0,
    {
        self.header().total_size() + self.header().payload_length().as_u16() as usize
    }

    /// The payload of a DATA packet; other packets carry none.
    pub fn payload(&self) -> (r: &[u8])
        ensures
            r@ == (match *self {
                Packet::Data(d) => d.payload@,
                _ => Seq::<u8>::empty(),
            }),
    {
        match self {
            Packet::Data(p) => p.payload.as_slice(),
            _ => {
                let e: &[u8] = &[];
                e
            },
        }
    }
}

} // verus!
