//! The common packet header and its adaptive wire layout.
use vstd::prelude::*;
use crate::codec::{be_decode, be_encode, push_be, read_be, lemma_be_encode_len, lemma_decode_encode, lemma_encode_decode, lemma_pow256_values, pow256};
use crate::types::{
    packet_type_code, packet_type_of_code, policy_for_type, spec_requires_strong_hmac,
    spec_sid_len, spec_tag_size, spec_ts_len, HmacPolicy, PacketFlags, PacketType,
    SessionIdLength, SubType, TimestampConfig, VersionByte,
};
use crate::values::{
    AckNumber, EpochType, PayloadLength, SequenceNumber, SessionId, Timestamp, ValidationError,
    ValidationResult,
};

verus! {

/// Common header of every packet.
#[derive(Clone, Copy, Debug, PartialEq, Eq)]
pub struct PacketHeader {
    pub version_byte: VersionByte,
    pub packet_type: PacketType,
    pub sub_type: SubType,
    pub flags: PacketFlags,
    pub session_id: SessionId,
    pub sequence_number: SequenceNumber,
    pub ack_number: AckNumber,
    pub timestamp: Timestamp,
    pub payload_length: PayloadLength,
    pub security_validated: bool,
    pub session_id_length: SessionIdLength,
    pub timestamp_config: TimestampConfig,
    pub hmac_policy: HmacPolicy,
    pub epoch_type: EpochType,
    pub requires_strong_hmac: bool,
}

/// Connection establishment follows the daily epoch, everything else the monthly one.
pub open spec fn epoch_for(t: PacketType) -> EpochType {
    if t == PacketType::Syn || t == PacketType::SynAck {
        EpochType::Daily
    } else {
        EpochType::Monthly
    }
}

/// The header that `PacketHeader::new` builds.
pub open spec fn header_new(
    version_byte: VersionByte,
    packet_type: PacketType,
    sub_type: SubType,
    flags: PacketFlags,
    session_id: SessionId,
    sequence_number: SequenceNumber,
    ack_number: AckNumber,
    timestamp: Timestamp,
    payload_length: PayloadLength,
    hmac_policy: HmacPolicy,
) -> PacketHeader {
    PacketHeader {
        version_byte,
        packet_type,
        sub_type,
        flags,
        session_id,
        sequence_number,
        ack_number,
        timestamp,
        payload_length,
        security_validated: false,
        session_id_length: version_byte.spec_session_id_length(),
        timestamp_config: version_byte.spec_timestamp_config(),
        hmac_policy,
        epoch_type: epoch_for(packet_type),
        requires_strong_hmac: spec_requires_strong_hmac(packet_type),
    }
}

/// Size in bytes of a header laid out by `vb`.
pub open spec fn layout_size(vb: VersionByte) -> nat {
    4 + spec_sid_len(vb.spec_session_id_length()) + 4 + 4 + spec_ts_len(vb.spec_timestamp_config())
        + 2
}

/// The wire bytes of a header.
pub open spec fn header_bytes(h: PacketHeader) -> Seq<u8> {
    seq![h.version_byte.0, packet_type_code(h.packet_type), h.sub_type.0, h.flags.0]
        + be_encode(h.session_id.0 as nat, spec_sid_len(h.version_byte.spec_session_id_length()))
        + be_encode(h.sequence_number.0 as nat, 4) + be_encode(h.ack_number.0 as nat, 4)
        + be_encode(h.timestamp.0 as nat / 1_000_000, spec_ts_len(h.version_byte.spec_timestamp_config()))
        + be_encode(h.payload_length.0 as nat, 2)
}

/// The session identifier that a header laid out by `vb` carries at the start of `s`.
pub open spec fn decoded_session_id(vb: VersionByte, s: Seq<u8>) -> u64 {
    if vb.spec_session_id_length() == SessionIdLength::Bits128 {
        be_decode(s.subrange(8, 16)) as u64
    } else {
        be_decode(s.subrange(0, spec_sid_len(vb.spec_session_id_length()) as int)) as u64
    }
}

/// What deserializing `bytes` gives.
pub open spec fn spec_deserialize_header(bytes: Seq<u8>) -> Result<PacketHeader, ValidationError> {
    if bytes.len() < 4 {
        Err(ValidationError::InvalidLength)
    } else if packet_type_of_code(bytes[1]) is None {
        Err(ValidationError::InvalidPacketType)
    } else if bytes.len() < layout_size(VersionByte(bytes[0])) {
        Err(ValidationError::InvalidLength)
    } else {
        let vb = VersionByte(bytes[0]);
        let t = packet_type_of_code(bytes[1])->Some_0;
        let sl = spec_sid_len(vb.spec_session_id_length()) as int;
        let tl = spec_ts_len(vb.spec_timestamp_config()) as int;
        let sid = decoded_session_id(vb, bytes.subrange(4, 4 + sl));
        let seq = be_decode(bytes.subrange(4 + sl, 8 + sl)) as u32;
        let ack = be_decode(bytes.subrange(8 + sl, 12 + sl)) as u32;
        let ms = be_decode(bytes.subrange(12 + sl, 12 + sl + tl));
        let pl = be_decode(bytes.subrange(12 + sl + tl, 14 + sl + tl)) as u16;
        Ok(
            header_new(
                vb,
                t,
                SubType(bytes[2]),
                PacketFlags(bytes[3]),
                SessionId(sid),
                SequenceNumber(seq),
                AckNumber(ack),
                Timestamp((ms * 1_000_000) as u64),
                PayloadLength(pl),
                policy_for_type(t),
            ),
        )
    }
}

impl PacketHeader {
    /// The header's cached layout and derived fields agree with its version byte and type.
    pub open spec fn wf(self) -> bool {
        &&& self.session_id_length == self.version_byte.spec_session_id_length()
        &&& self.timestamp_config == self.version_byte.spec_timestamp_config()
        &&& self.epoch_type == epoch_for(self.packet_type)
        &&& self.requires_strong_hmac == spec_requires_strong_hmac(self.packet_type)
        &&& !self.security_validated
    }

    pub open spec fn spec_header_size(self) -> nat {
        4 + spec_sid_len(self.session_id_length) + 4 + 4 + spec_ts_len(self.timestamp_config) + 2
    }

    /// Builds a header; the layout follows the version byte, the epoch and the
    /// HMAC strength follow the packet type.
    pub fn new(
        version_byte: VersionByte,
        packet_type: PacketType,
        sub_type: SubType,
        flags: PacketFlags,
        session_id: SessionId,
        sequence_number: SequenceNumber,
        ack_number: AckNumber,
        timestamp: Timestamp,
        payload_length: PayloadLength,
        hmac_policy: HmacPolicy,
    ) -> (r: PacketHeader)
        ensures
            r == header_new(
                version_byte,
                packet_type,
                sub_type,
                flags,
                session_id,
                sequence_number,
                ack_number,
                timestamp,
                payload_length,
                hmac_policy,
            ),
            r.wf(),
    {
        let session_id_length = version_byte.session_id_length();
        let timestamp_config = version_byte.timestamp_config();
        let epoch_type = if packet_type == PacketType::Syn || packet_type == PacketType::SynAck {
            EpochType::Daily
        } else {
            EpochType::Monthly
        };
        let requires_strong_hmac = packet_type.requires_strong_hmac();
        PacketHeader {
            version_byte,
            packet_type,
            sub_type,
            flags,
            session_id,
            sequence_number,
            ack_number,
            timestamp,
            payload_length,
            security_validated: false,
            session_id_length,
            timestamp_config,
            hmac_policy,
            epoch_type,
            requires_strong_hmac,
        }
    }

    pub fn version_byte(&self) -> (r: VersionByte)
        ensures
            r == self.version_byte,
    {
        self.version_byte
    }

    pub fn packet_type(&self) -> (r: PacketType)
        ensures
            r == self.packet_type,
    {
        self.packet_type
    }

    pub fn sub_type(&self) -> (r: SubType)
        ensures
            r == self.sub_type,
    {
        self.sub_type
    }

    pub fn flags(&self) -> (r: PacketFlags)
        ensures
            r == self.flags,
    {
        self.flags
    }

    pub fn session_id(&self) -> (r: SessionId)
        ensures
            r == self.session_id,
    {
        self.session_id
    }

    pub fn sequence_number(&self) -> (r: SequenceNumber)
        ensures
            r == self.sequence_number,
    {
        self.sequence_number
    }

    pub fn ack_number(&self) -> (r: AckNumber)
        ensures
            r == self.ack_number,
    {
        self.ack_number
    }

    pub fn timestamp(&self) -> (r: Timestamp)
        ensures
            r == self.timestamp,
    {
        self.timestamp
    }

    pub fn payload_length(&self) -> (r: PayloadLength)
        ensures
            r == self.payload_length,
    {
        self.payload_length
    }

    /// The payload length (same as `payload_length`).
    pub fn get_payload_length(&self) -> (r: PayloadLength)
        ensures
            r == self.payload_length,
    {
        self.payload_length
    }

    pub fn hmac_policy(&self) -> (r: HmacPolicy)
        ensures
            r == self.hmac_policy,
    {
        self.hmac_policy
    }

    /// Header size in bytes, without the HMAC tag.
    pub fn header_size(&self) -> (r: usize)
        ensures
            r == self.spec_header_size(),
    {
        4 + self.session_id_length.len() + 4 + 4 + self.timestamp_config.len() + 2
    }

    /// Header size in bytes, with the HMAC tag.
    pub fn total_size(&self) -> (r: usize)
        ensures
            r == self.spec_header_size() + spec_tag_size(self.hmac_policy),
    {
        self.header_size() + self.hmac_policy.tag_size()
    }

    /// The header's wire bytes, as a new vector.
    pub fn to_bytes(&self) -> (r: Vec<u8>)
        ensures
            r@ == header_bytes(*self),
    {
        let mut out: Vec<u8> = Vec::new();
        out.push(self.version_byte.as_u8());
        out.push(self.packet_type.as_u8());
        out.push(self.sub_type.as_u8());
        out.push(self.flags.as_u8());
        proof {
            assert(out@ =~= seq![self.version_byte.0, packet_type_code(self.packet_type), self.sub_type.0, self.flags.0]);
        }
        push_be(&mut out, self.session_id.0, self.version_byte.session_id_length().byte_size());
        push_be(&mut out, self.sequence_number.0 as u64, 4);
        push_be(&mut out, self.ack_number.0 as u64, 4);
        push_be(&mut out, self.timestamp.as_millis(), self.version_byte.timestamp_config().byte_size());
        push_be(&mut out, self.payload_length.0 as u64, 2);
        out
    }

    /// Writes the header at the start of `buffer` and returns its size.
    pub fn serialize(&self, buffer: &mut [u8]) -> (r: Result<usize, ValidationError>)
        requires
            self.wf(),
        ensures
            old(buffer)@.len() < self.spec_header_size() ==> r == Err::<usize, ValidationError>(
                ValidationError::BufferTooSmall,
            ) && final(buffer)@ == old(buffer)@,
            old(buffer)@.len() >= self.spec_header_size() ==> r == Ok::<usize, ValidationError>(
                self.spec_header_size() as usize,
            ) && final(buffer)@ == header_bytes(*self) + old(buffer)@.subrange(
                self.spec_header_size() as int,
                old(buffer)@.len() as int,
            ),
    {
        let size = self.header_size();
        if buffer.len() < size {
            return Err(ValidationError::BufferTooSmall);
        }
        let bytes = self.to_bytes();
        proof {
            lemma_header_bytes_len(*self);
        }
        crate::codec::copy_into(buffer, 0, bytes.as_slice());
        proof {
            assert(buffer@ =~= header_bytes(*self) + old(buffer)@.subrange(
                self.spec_header_size() as int,
                old(buffer)@.len() as int,
            ));
        }
        Ok(size)
    }

    /// Parses a header from the start of `bytes`; the HMAC strength follows the packet type.
    pub fn deserialize(bytes: &[u8]) -> (r: Result<PacketHeader, ValidationError>)
        ensures
            r == spec_deserialize_header(bytes@),
            r matches Ok(h) ==> h.wf(),
    {
        if bytes.len() < 4 {
            return Err(ValidationError::InvalidLength);
        }
        let version_byte = VersionByte::from_raw(bytes[0]);
        let packet_type = match PacketType::from_u8(bytes[1]) {
            Some(t) => t,
            None => return Err(ValidationError::InvalidPacketType),
        };
        let sub_type = SubType::new(bytes[2]);
        let flags = PacketFlags::from_u8(bytes[3]);
        let session_id_length = version_byte.session_id_length();
        let timestamp_config = version_byte.timestamp_config();
        let sl = session_id_length.len();
        let tl = timestamp_config.len();
        let expected_size = 4 + sl + 4 + 4 + tl + 2;
        if bytes.len() < expected_size {
            return Err(ValidationError::InvalidLength);
        }
        let ghost sid_bytes = bytes@.subrange(4, 4 + sl as int);
        let sid: u64 = if sl == 16 {
            let v = read_be(bytes, 12, 8);
            proof {
                assert(sid_bytes.subrange(8, 16) =~= bytes@.subrange(12, 20));
            }
            v
        } else {
            let v = read_be(bytes, 4, sl);
            proof {
                assert(sid_bytes.subrange(0, sl as int) =~= bytes@.subrange(4, 4 + sl as int));
            }
            v
        };
        let seq = read_be(bytes, 4 + sl, 4);
        let ack = read_be(bytes, 8 + sl, 4);
        let ms = read_be(bytes, 12 + sl, tl);
        let pl = read_be(bytes, 12 + sl + tl, 2);
        proof {
            lemma_pow256_values();
            crate::codec::lemma_be_decode_bound(bytes@.subrange(4 + sl as int, 8 + sl as int));
            crate::codec::lemma_be_decode_bound(bytes@.subrange(8 + sl as int, 12 + sl as int));
            crate::codec::lemma_be_decode_bound(bytes@.subrange(12 + sl as int, 12 + sl + tl as int));
            crate::codec::lemma_be_decode_bound(bytes@.subrange(12 + sl + tl as int, 14 + sl + tl as int));
            crate::codec::lemma_pow256_mono(tl as nat, 4);
        }
        let hmac_policy = if packet_type.requires_strong_hmac() {
            HmacPolicy::Strong
        } else {
            HmacPolicy::Medium
        };
        let h = PacketHeader::new(
            version_byte,
            packet_type,
            sub_type,
            flags,
            SessionId::new(sid),
            SequenceNumber::new(seq as u32),
            AckNumber::new(ack as u32),
            Timestamp::from_millis(ms),
            PayloadLength::new(pl as u16),
            hmac_policy,
        );
        Ok(h)
    }

    /// What `validate` answers.
    pub open spec fn validate_spec(self) -> ValidationResult<()> {
        if self.version_byte.spec_protocol_version() == 0
            || self.version_byte.spec_protocol_version() > 1 {
            ValidationResult::Invalid(ValidationError::InvalidProtocolVersion)
        } else if self.session_id.0 == 0 {
            ValidationResult::Invalid(ValidationError::InvalidSessionId)
        } else {
            ValidationResult::Valid(())
        }
    }

    /// Checks the protocol version (only version 1 is spoken) and the session identifier.
    pub fn validate(&self) -> (r: ValidationResult<()>)
        ensures
            r == self.validate_spec(),
    {
        if self.version_byte.protocol_version() == 0 || self.version_byte.protocol_version() > 1 {
            return ValidationResult::Invalid(ValidationError::InvalidProtocolVersion);
        }
        if !self.session_id.is_valid() {
            return ValidationResult::Invalid(ValidationError::InvalidSessionId);
        }
        ValidationResult::Valid(())
    }
}

pub proof fn lemma_header_bytes_len(h: PacketHeader)
    ensures
        header_bytes(h).len() == layout_size(h.version_byte),
{
    lemma_be_encode_len(h.session_id.0 as nat, spec_sid_len(h.version_byte.spec_session_id_length()));
    lemma_be_encode_len(h.sequence_number.0 as nat, 4);
    lemma_be_encode_len(h.ack_number.0 as nat, 4);
    lemma_be_encode_len(h.timestamp.0 as nat / 1_000_000, spec_ts_len(h.version_byte.spec_timestamp_config()));
    lemma_be_encode_len(h.payload_length.0 as nat, 2);
}

/// A header with a 128-bit session identifier carries, after its first four
/// bytes, eight zero bytes and then the identifier's eight bytes.
pub proof fn lemma_wide_session_id_layout(h: PacketHeader)
    requires
        h.version_byte.spec_session_id_length() == SessionIdLength::Bits128,
    ensures
        header_bytes(h).subrange(4, 12) == Seq::new(8, |i: int| 0u8),
        header_bytes(h).subrange(12, 20) == be_encode(h.session_id.0 as nat, 8),
{
    assert(pow256(8) == 0x1_0000_0000_0000_0000) by {
        reveal_with_fuel(pow256, 9);
    }
    crate::codec::lemma_be_encode_wide(h.session_id.0 as nat);
    lemma_be_encode_len(h.session_id.0 as nat, 8);
    let e0 = seq![h.version_byte.0, packet_type_code(h.packet_type), h.sub_type.0, h.flags.0];
    let e1 = be_encode(h.session_id.0 as nat, 16);
    lemma_be_encode_len(h.session_id.0 as nat, 16);
    let hb = header_bytes(h);
    assert(hb == e0 + e1 + (hb.subrange(20, hb.len() as int))) by {
        lemma_header_bytes_len(h);
        assert(hb =~= e0 + e1 + hb.subrange(20, hb.len() as int));
    }
    assert(hb.subrange(4, 12) =~= Seq::new(8, |i: int| 0u8));
    assert(hb.subrange(12, 20) =~= be_encode(h.session_id.0 as nat, 8));
}

/// Reading back the bytes that a header was written as gives the header's
/// type, sub-type, flags, session identifier (where it fits the session
/// identifier width), sequence and acknowledgment numbers and payload length,
/// the timestamp truncated to whole milliseconds modulo the timestamp width,
/// and the HMAC strength of the packet type; whatever follows the header is
/// ignored. A 128-bit session identifier is written as eight zero bytes and
/// its eight bytes, and read back from the latter.
pub proof fn lemma_header_roundtrip(h: PacketHeader, rest: Seq<u8>)
    requires
        h.wf(),
        h.session_id.0 < pow256(spec_sid_len(h.version_byte.spec_session_id_length())),
    ensures
        spec_deserialize_header(header_bytes(h) + rest) == Ok::<PacketHeader, ValidationError>(
            header_new(
                h.version_byte,
                h.packet_type,
                h.sub_type,
                h.flags,
                h.session_id,
                h.sequence_number,
                h.ack_number,
                Timestamp(
                    (((h.timestamp.0 as nat / 1_000_000) % pow256(
                        spec_ts_len(h.version_byte.spec_timestamp_config()),
                    )) * 1_000_000) as u64,
                ),
                h.payload_length,
                policy_for_type(h.packet_type),
            ),
        ),
{
    let vb = h.version_byte;
    let sl = spec_sid_len(vb.spec_session_id_length());
    let tl = spec_ts_len(vb.spec_timestamp_config());
    let ms = h.timestamp.0 as nat / 1_000_000;
    let e0 = seq![h.version_byte.0, packet_type_code(h.packet_type), h.sub_type.0, h.flags.0];
    let e1 = be_encode(h.session_id.0 as nat, sl);
    let e2 = be_encode(h.sequence_number.0 as nat, 4);
    let e3 = be_encode(h.ack_number.0 as nat, 4);
    let e4 = be_encode(ms, tl);
    let e5 = be_encode(h.payload_length.0 as nat, 2);
    lemma_header_bytes_len(h);
    lemma_be_encode_len(h.session_id.0 as nat, sl);
    lemma_be_encode_len(h.sequence_number.0 as nat, 4);
    lemma_be_encode_len(h.ack_number.0 as nat, 4);
    lemma_be_encode_len(ms, tl);
    lemma_be_encode_len(h.payload_length.0 as nat, 2);
    let b = header_bytes(h) + rest;
    assert(b[0] == vb.0);
    assert(b[1] == packet_type_code(h.packet_type));
    assert(b[2] == h.sub_type.0);
    assert(b[3] == h.flags.0);
    assert(VersionByte(b[0]) == vb);
    crate::types::lemma_packet_type_code_roundtrip(h.packet_type);
    let sl_i = sl as int;
    let tl_i = tl as int;
    assert(b.subrange(4, 4 + sl_i) =~= e1);
    assert(b.subrange(4, 4 + sl_i).subrange(0, sl_i) =~= e1);
    assert(b.subrange(4 + sl_i, 8 + sl_i) =~= e2);
    assert(b.subrange(8 + sl_i, 12 + sl_i) =~= e3);
    assert(b.subrange(12 + sl_i, 12 + sl_i + tl_i) =~= e4);
    assert(b.subrange(12 + sl_i + tl_i, 14 + sl_i + tl_i) =~= e5);
    lemma_decode_encode(h.session_id.0 as nat, sl);
    lemma_decode_encode(h.sequence_number.0 as nat, 4);
    lemma_decode_encode(h.ack_number.0 as nat, 4);
    lemma_decode_encode(ms, tl);
    lemma_decode_encode(h.payload_length.0 as nat, 2);
    lemma_pow256_values();
    crate::codec::lemma_pow256_pos(tl);
    assert(ms % pow256(tl) < pow256(tl)) by {
        vstd::arithmetic::div_mod::lemma_mod_bound(ms as int, pow256(tl) as int);
    }
    crate::codec::lemma_pow256_mono(tl, 4);
    let m = ms % pow256(tl);
    assert(m * 1_000_000 <= u64::MAX) by (nonlinear_arith)
        requires
            m < 0x1_0000_0000,
    ;
    vstd::arithmetic::div_mod::lemma_small_mod(h.session_id.0 as nat, pow256(sl));
    vstd::arithmetic::div_mod::lemma_small_mod(h.sequence_number.0 as nat, pow256(4));
    vstd::arithmetic::div_mod::lemma_small_mod(h.ack_number.0 as nat, pow256(4));
    vstd::arithmetic::div_mod::lemma_small_mod(h.payload_length.0 as nat, pow256(2));
    if vb.spec_session_id_length() == SessionIdLength::Bits128 {
        assert(pow256(8) == 0x1_0000_0000_0000_0000) by {
            reveal_with_fuel(pow256, 9);
        }
        crate::codec::lemma_be_encode_wide(h.session_id.0 as nat);
        assert(e1.subrange(8, 16) =~= be_encode(h.session_id.0 as nat, 8));
        assert(b.subrange(4, 4 + sl_i).subrange(8, 16) =~= be_encode(h.session_id.0 as nat, 8));
        lemma_decode_encode(h.session_id.0 as nat, 8);
        vstd::arithmetic::div_mod::lemma_small_mod(h.session_id.0 as nat, pow256(8));
    }
    assert(decoded_session_id(vb, b.subrange(4, 4 + sl_i)) == h.session_id.0);
    let r = spec_deserialize_header(b);
    assert(r is Ok);
    assert(r->Ok_0.session_id == h.session_id);
    assert(r->Ok_0.sequence_number == h.sequence_number);
    assert(r->Ok_0.ack_number == h.ack_number);
    assert(r->Ok_0.payload_length == h.payload_length);
    assert(r->Ok_0.timestamp == Timestamp((m * 1_000_000) as u64));
}

} // verus!
