//! The packet parser: checks raw bytes, authenticates them, refuses replays and
//! reads them into packet structures.
use vstd::prelude::*;
use crate::codec::{be_decode, be_encode, lemma_be_encode_len, lemma_decode_encode, lemma_pow256_values, padded16, padded32, read_array16, read_be, read_bytes, zeros};
use crate::packet::header::{spec_deserialize_header, PacketHeader};
use crate::packet::hmac::{max_hmac_message, packet_tag, HmacCalculator};
use crate::packet::replay::{lemma_accepted_is_rejected, AntiReplayConfig, AntiReplayEngine, ReplayWindow};
use crate::packet::builder::{signed_bytes, syn_ack_signed_fields};
use crate::packet::header::header_bytes;
use crate::packet::roundtrip::{header_encodable, header_read_back, lemma_fields_follow_header};
use crate::packet::structures::{
    ack_parsed, body_parse_error, control_fields, data_parse_error, data_parsed, syn_ack_body, syn_ack_parsed, syn_parsed,
    AckPacket, ControlPacket, ControlPayload, DataPacket, DiscoveryConfirmPayload, DiscoveryPacket,
    DiscoveryPayload, DiscoveryRequestPayload, DiscoveryResponsePayload, ErrorPacket,
    FinPacket, HeartbeatPacket, HmacPolicyRequestPayload, HmacPolicyResponsePayload,
    ManagementPacket, ManagementPayload, Packet, RecoveryPayload, RekeyRequestPayload,
    RekeyResponsePayload, RepairRequestPayload, RepairResponsePayload, RstPacket,
    SequenceNegPayload, SynAckPacket, SynPacket, TimeSyncRequestPayload, TimeSyncResponsePayload,
};
use crate::types::{
    control_sub_type_of, discovery_sub_type_of, hmac_policy_of, management_sub_type_of,
    packet_type_code, packet_type_of_code, policy_for_type, spec_tag_size, ControlSubType, DiscoverySubType,
    HmacPolicy, ManagementSubType, PacketType, TimestampConfig, VersionByte,
};
use crate::values::{
    policy_change_reason_of, policy_change_result_of, recovery_level_of, recovery_reason_of,
    reset_of_code, security_level_of, termination_of_code, BloomFilter, CandidateHash, ClockSkew,
    DiscoveryChallenge, DiscoveryTimeout, ElementCount, EpochType, ErrorCode, ErrorDescription,
    FlowControlConfig, HashFunctionCount, HeartbeatSequence, HmacTag, KdfIterations, KdfParams,
    KdfSalt, KeyId, KeySize, NetworkDelay, PolicyChangeReason, PolicyChangeResult, PskId,
    PskProof, RecoveryLevel, RecoveryNonce, RecoveryParams, RecoveryReason, RekeyReason,
    RekeyResult, RepairPriority, RepairResult, RepairType, ResetReason, RoundTripTime,
    SecurityLevel, SequenceNegFlags, SequenceNumber, SequenceRange, SessionId, SessionParams,
    SyncQuality, TerminationReason, TimeDrift, Timestamp, ValidationError, WindowScale,
    WindowSize,
};

verus! {

/// The big-endian number in the `n` bytes of `p` at `i`.
pub open spec fn be_at(p: Seq<u8>, i: int, n: int) -> nat {
    be_decode(p.subrange(i, i + n))
}

// ---------------------------------------------------------------------------
// Control payloads
// ---------------------------------------------------------------------------

/// A time synchronization request: client time (8 bytes), sync quality (1),
/// largest drift (4, two's complement).
pub open spec fn spec_time_sync_request(p: Seq<u8>) -> Result<TimeSyncRequestPayload, ValidationError> {
    if p.len() < 13 {
        Err(ValidationError::InvalidLength)
    } else {
        Ok(TimeSyncRequestPayload {
            client_timestamp: Timestamp(be_at(p, 0, 8) as u64),
            sync_quality: SyncQuality(p[8]),
            max_drift: TimeDrift(be_at(p, 9, 4) as u32 as i32),
        })
    }
}

/// A time synchronization response: client time, server time, network delay
/// and clock skew (two's complement), 8 bytes each.
pub open spec fn spec_time_sync_response(p: Seq<u8>) -> Result<TimeSyncResponsePayload, ValidationError> {
    if p.len() < 32 {
        Err(ValidationError::InvalidLength)
    } else {
        Ok(TimeSyncResponsePayload {
            client_timestamp: Timestamp(be_at(p, 0, 8) as u64),
            server_timestamp: Timestamp(be_at(p, 8, 8) as u64),
            network_delay: NetworkDelay(be_at(p, 16, 8) as u64),
            clock_skew: ClockSkew(be_at(p, 24, 8) as u64 as i64),
        })
    }
}

/// A recovery request: reason (1 byte), nonce (4), last good sequence number
/// (4), recovery level (1); an unknown reason or level is refused.
pub open spec fn spec_recovery(p: Seq<u8>) -> Result<RecoveryPayload, ValidationError> {
    if p.len() < 10 {
        Err(ValidationError::InvalidLength)
    } else if recovery_reason_of(p[0]) is None || recovery_level_of(p[9]) is None {
        Err(ValidationError::InvalidPacketType)
    } else {
        Ok(RecoveryPayload {
            reason: recovery_reason_of(p[0])->Some_0,
            nonce: RecoveryNonce(be_at(p, 1, 4) as u32),
            last_good_sequence: SequenceNumber(be_at(p, 5, 4) as u32),
            recovery_params: RecoveryParams { level: recovery_level_of(p[9])->Some_0 },
        })
    }
}

/// A sequence negotiation: proposed sequence number (4 bytes), window (4), flags (1).
pub open spec fn spec_sequence_neg(p: Seq<u8>) -> Result<SequenceNegPayload, ValidationError> {
    if p.len() < 9 {
        Err(ValidationError::InvalidLength)
    } else {
        Ok(SequenceNegPayload {
            proposed_sequence: SequenceNumber(be_at(p, 0, 4) as u32),
            window_size: WindowSize(be_at(p, 4, 4) as u32),
            flags: SequenceNegFlags(p[8]),
        })
    }
}

/// An HMAC policy request: policy, security level and reason, a byte each;
/// an unknown value is refused.
pub open spec fn spec_hmac_policy_request(p: Seq<u8>) -> Result<HmacPolicyRequestPayload, ValidationError> {
    if p.len() < 3 {
        Err(ValidationError::InvalidLength)
    } else if hmac_policy_of(p[0]) is None || security_level_of(p[1]) is None
        || policy_change_reason_of(p[2]) is None {
        Err(ValidationError::InvalidPacketType)
    } else {
        Ok(HmacPolicyRequestPayload {
            requested_policy: hmac_policy_of(p[0])->Some_0,
            security_level: security_level_of(p[1])->Some_0,
            reason: policy_change_reason_of(p[2])->Some_0,
        })
    }
}

/// An HMAC policy response: policy and result, a byte each, and the time it
/// takes effect (8 bytes); an unknown value is refused.
pub open spec fn spec_hmac_policy_response(p: Seq<u8>) -> Result<HmacPolicyResponsePayload, ValidationError> {
    if p.len() < 10 {
        Err(ValidationError::InvalidLength)
    } else if hmac_policy_of(p[0]) is None || policy_change_result_of(p[1]) is None {
        Err(ValidationError::InvalidPacketType)
    } else {
        Ok(HmacPolicyResponsePayload {
            accepted_policy: hmac_policy_of(p[0])->Some_0,
            result: policy_change_result_of(p[1])->Some_0,
            effective_timestamp: Timestamp(be_at(p, 2, 8) as u64),
        })
    }
}

/// A sequence negotiation reads back as it is written: parsing, as a control
/// payload of sub-type 4, the fields that `ControlPacket::serialize` writes
/// for it gives the same proposed sequence number, window and flags.
pub proof fn lemma_sequence_neg_round_trip(n: SequenceNegPayload)
    ensures
        spec_control_payload(4, control_fields(ControlPayload::SequenceNeg(n)))
            == Ok::<ControlPayload, ValidationError>(ControlPayload::SequenceNeg(n)),
{
    let a = be_encode(n.proposed_sequence.0 as nat, 4);
    let b = be_encode(n.window_size.0 as nat, 4);
    let f = control_fields(ControlPayload::SequenceNeg(n));
    lemma_be_encode_len(n.proposed_sequence.0 as nat, 4);
    lemma_be_encode_len(n.window_size.0 as nat, 4);
    lemma_decode_encode(n.proposed_sequence.0 as nat, 4);
    lemma_decode_encode(n.window_size.0 as nat, 4);
    lemma_pow256_values();
    assert(f == a + b + seq![n.flags.0]);
    assert(f.subrange(0, 4) =~= a);
    assert(f.subrange(4, 8) =~= b);
    assert(f[8] == n.flags.0);
}

/// The control payload that a packet of sub-type `sub` carries in `p`.
pub open spec fn spec_control_payload(sub: u8, p: Seq<u8>) -> Result<ControlPayload, ValidationError> {
    match control_sub_type_of(sub) {
        None => Err(ValidationError::InvalidPacketType),
        Some(ControlSubType::TimeSyncRequest) => match spec_time_sync_request(p) {
            Ok(x) => Ok(ControlPayload::TimeSyncRequest(x)),
            Err(e) => Err(e),
        },
        Some(ControlSubType::TimeSyncResponse) => match spec_time_sync_response(p) {
            Ok(x) => Ok(ControlPayload::TimeSyncResponse(x)),
            Err(e) => Err(e),
        },
        Some(ControlSubType::Recovery) => match spec_recovery(p) {
            Ok(x) => Ok(ControlPayload::Recovery(x)),
            Err(e) => Err(e),
        },
        Some(ControlSubType::SequenceNegotiation) => match spec_sequence_neg(p) {
            Ok(x) => Ok(ControlPayload::SequenceNeg(x)),
            Err(e) => Err(e),
        },
        Some(ControlSubType::HmacPolicyRequest) => match spec_hmac_policy_request(p) {
            Ok(x) => Ok(ControlPayload::HmacPolicyRequest(x)),
            Err(e) => Err(e),
        },
        Some(ControlSubType::HmacPolicyResponse) => match spec_hmac_policy_response(p) {
            Ok(x) => Ok(ControlPayload::HmacPolicyResponse(x)),
            Err(e) => Err(e),
        },
    }
}

// ---------------------------------------------------------------------------
// Management payloads
// ---------------------------------------------------------------------------

/// The fewest bytes a management payload of sub-type `s` takes: a rekey
/// request 44, a rekey response 52, the repair payloads 20.
pub open spec fn management_min_len(s: ManagementSubType) -> nat {
    match s {
        ManagementSubType::RekeyRequest => 44,
        ManagementSubType::RekeyResponse => 52,
        _ => 20,
    }
}

/// Why reading a management payload of sub-type `sub` from `p` fails, if it does.
pub open spec fn management_parse_error(sub: u8, p: Seq<u8>) -> Option<ValidationError> {
    match management_sub_type_of(sub) {
        None => Some(ValidationError::InvalidPacketType),
        Some(s) => if p.len() < management_min_len(s) {
            Some(ValidationError::InvalidLength)
        } else {
            None
        },
    }
}

/// The key identifier of a rekey payload: its four nonce bytes, then zeros.
pub open spec fn rekey_key_id(p: Seq<u8>) -> Seq<u8> {
    p.subrange(0, 4) + zeros(12)
}

/// `m` is what a management packet of sub-type `sub` carries in `p`. A rekey
/// request reads its key identifier from the nonce and its salt from the first
/// 16 commitment bytes, and takes effect when it is read; a rekey response
/// succeeds when it is read; a repair request asks to retransmit from the last
/// known sequence number over the window (saturating); a repair response or
/// confirmation reads its completion time at offset 12.
pub open spec fn management_parsed(sub: u8, p: Seq<u8>, m: ManagementPayload) -> bool {
    match management_sub_type_of(sub) {
        Some(ManagementSubType::RekeyRequest) => match m {
            ManagementPayload::RekeyRequest(r) => {
                &&& r.key_id.0@ == rekey_key_id(p)
                &&& r.kdf_params.algorithm@ == "PBKDF2"@
                &&& r.kdf_params.salt.0@ == p.subrange(4, 20)
                &&& r.kdf_params.iterations == KdfIterations(10000)
                &&& r.kdf_params.key_length == KeySize(32)
                &&& r.reason == RekeyReason::Scheduled
            },
            _ => false,
        },
        Some(ManagementSubType::RekeyResponse) => match m {
            ManagementPayload::RekeyResponse(r) => {
                &&& r.key_id.0@ == rekey_key_id(p)
                &&& r.result == RekeyResult::Success
            },
            _ => false,
        },
        Some(ManagementSubType::RepairRequest) => match m {
            ManagementPayload::RepairRequest(r) => {
                let last = be_at(p, 4, 4);
                let window = be_at(p, 8, 4);
                &&& r.repair_type == RepairType::Retransmission
                &&& r.sequence_range.start.0 == last
                &&& r.sequence_range.end.0 == (if last + window <= u32::MAX {
                    (last + window) as int
                } else {
                    u32::MAX as int
                })
                &&& r.priority == RepairPriority::Medium
            },
            _ => false,
        },
        Some(_) => match m {
            ManagementPayload::RepairResponse(r) => {
                &&& r.result == RepairResult::Success
                &&& r.repaired_data is None
                &&& r.completion_timestamp.0 == be_at(p, 12, 8)
            },
            _ => false,
        },
        None => false,
    }
}

// ---------------------------------------------------------------------------
// Discovery payloads
// ---------------------------------------------------------------------------

/// How many candidate hashes a discovery response announces.
pub open spec fn candidate_count(p: Seq<u8>) -> nat {
    be_at(p, 8, 2)
}

/// Why reading a discovery payload of sub-type `sub` from `p` fails, if it
/// does: a request needs 20 bytes and its Bloom filter, a response 16 bytes
/// and, after those, its hashes and an 8-byte timestamp, a confirmation 70 bytes.
pub open spec fn discovery_parse_error(sub: u8, p: Seq<u8>) -> Option<ValidationError> {
    match discovery_sub_type_of(sub) {
        None => Some(ValidationError::InvalidPacketType),
        Some(DiscoverySubType::Request) => if p.len() < 20 || p.len() < 20 + be_at(p, 14, 2) {
            Some(ValidationError::InvalidLength)
        } else {
            None
        },
        Some(DiscoverySubType::Response) => if p.len() < 16 || p.len() < 16 + 32 * candidate_count(p)
            + 8 {
            Some(ValidationError::InvalidLength)
        } else {
            None
        },
        Some(DiscoverySubType::Confirm) => if p.len() < 70 {
            Some(ValidationError::InvalidLength)
        } else {
            None
        },
    }
}

/// `d` is what a discovery packet of sub-type `sub` carries in `p`. A request
/// takes its challenge from the discovery identifier and salt and its filter
/// bits from offset 20; a response its challenge from the identifier, its
/// hashes from offset 16 and the timestamp after them; a confirmation its key
/// identifier from the discovery identifier, its proof from the confirmation
/// hash and its session identifier from offset 44, with fixed session settings.
pub open spec fn discovery_parsed(sub: u8, p: Seq<u8>, d: DiscoveryPayload) -> bool {
    match discovery_sub_type_of(sub) {
        Some(DiscoverySubType::Request) => match d {
            DiscoveryPayload::Request(r) => {
                &&& r.challenge.0@ == p.subrange(0, 12) + zeros(20)
                &&& r.bloom_filter.bits@ == p.subrange(20, 20 + be_at(p, 14, 2) as int)
                &&& r.bloom_filter.hash_functions == HashFunctionCount(3)
                &&& r.bloom_filter.expected_elements == ElementCount(256)
                &&& r.timeout == DiscoveryTimeout(5000)
            },
            _ => false,
        },
        Some(DiscoverySubType::Response) => match d {
            DiscoveryPayload::Response(r) => {
                let c = candidate_count(p);
                &&& r.challenge.0@ == p.subrange(0, 8) + zeros(24)
                &&& r.psk_proofs@.len() == 0
                &&& r.candidate_hashes@.len() == c
                &&& forall|i: int|
                    0 <= i < c ==> #[trigger] r.candidate_hashes@[i].0@ == p.subrange(
                        16 + 32 * i,
                        48 + 32 * i,
                    )
                &&& r.response_timestamp.0 == be_at(p, 16 + 32 * c as int, 8)
            },
            _ => false,
        },
        Some(DiscoverySubType::Confirm) => match d {
            DiscoveryPayload::Confirm(r) => {
                &&& r.selected_psk.0@ == p.subrange(0, 8) + zeros(24)
                &&& r.confirmation_proof.0@ == p.subrange(8, 24)
                &&& r.session_params == SessionParams {
                    epoch_type: EpochType::Standard,
                    session_id: SessionId(be_at(p, 44, 8) as u64),
                    hmac_policy: HmacPolicy::Strong,
                    timestamp_config: TimestampConfig::Bits32,
                    flow_control_config: FlowControlConfig {
                        window_scale: WindowScale(0),
                        enabled: true,
                        initial_window: WindowSize(65535),
                        max_window: WindowSize(1048576),
                        congestion_control: true,
                    },
                }
            },
            _ => false,
        },
        None => false,
    }
}

// ---------------------------------------------------------------------------
// Packets without a layout of their own
// ---------------------------------------------------------------------------

/// What follows the header and a tag of the header's strength, or nothing
/// when the packet ends there.
pub open spec fn legacy_payload(bytes: Seq<u8>, h: PacketHeader) -> Seq<u8> {
    let o = h.spec_header_size() + spec_tag_size(h.hmac_policy);
    if bytes.len() > o {
        bytes.subrange(o as int, bytes.len() as int)
    } else {
        Seq::empty()
    }
}

/// The tag that packets read without a layout of their own carry: sixteen
/// zero bytes under the medium policy.
pub open spec fn placeholder_tag(t: HmacTag) -> bool {
    &&& t.data@ == zeros(16)
    &&& t.policy == HmacPolicy::Medium
}

/// `UTF-8` decoding of `bytes` in which each invalid sequence becomes U+FFFD.
pub uninterp spec fn utf8_lossy(bytes: Seq<u8>) -> Seq<char>;

/// Calls `String::from_utf8_lossy` and makes the result an owned string. std
/// documents that it replaces each invalid sequence with U+FFFD, so the result
/// depends on the bytes alone, and that valid UTF-8 is decoded as it stands.
#[verifier::external_body]
fn string_from_utf8_lossy(bytes: &[u8]) -> (r: String)
    ensures
        r@ == utf8_lossy(bytes@),
        vstd::utf8::valid_utf8(bytes@) ==> r@ == vstd::utf8::decode_utf8(bytes@),
{
    String::from_utf8_lossy(bytes).into_owned()
}

/// `r` is what reading a FIN packet with header `h` and payload `p` gives:
/// the FIN flag is needed; the reason is the first payload byte's, or normal
/// when there is none or it names no reason.
pub open spec fn fin_legacy(h: PacketHeader, p: Seq<u8>, r: Result<Packet, ValidationError>) -> bool {
    if h.flags.0 & 0x01 == 0 {
        r == Err::<Packet, ValidationError>(ValidationError::InvalidState)
    } else {
        r matches Ok(Packet::Fin(f)) && {
            &&& f.header == h
            &&& placeholder_tag(f.hmac)
            &&& f.final_sequence == h.sequence_number
            &&& f.reason == (if p.len() > 0 && termination_of_code(p[0]) is Some {
                termination_of_code(p[0])->Some_0
            } else {
                TerminationReason::Normal
            })
        }
    }
}

/// `r` is what reading an RST packet with header `h` and payload `p` gives:
/// the RST flag is needed; the reason is the first payload byte's, or a
/// protocol error when there is none or it names no reason; the second byte,
/// if any, is the error code.
pub open spec fn rst_legacy(h: PacketHeader, p: Seq<u8>, r: Result<Packet, ValidationError>) -> bool {
    if h.flags.0 & 0x04 == 0 {
        r == Err::<Packet, ValidationError>(ValidationError::InvalidState)
    } else {
        r matches Ok(Packet::Rst(f)) && {
            &&& f.header == h
            &&& placeholder_tag(f.hmac)
            &&& f.reason == (if p.len() > 0 && reset_of_code(p[0]) is Some {
                reset_of_code(p[0])->Some_0
            } else {
                ResetReason::ProtocolError
            })
            &&& f.error_code == (if p.len() > 1 {
                Some(ErrorCode(p[1]))
            } else {
                None
            })
        }
    }
}

/// `r` is what reading a HEARTBEAT packet with header `h` and payload `p`
/// gives: the heartbeat sequence from four bytes (else 0), the round-trip
/// time from the next eight (else none).
pub open spec fn heartbeat_legacy(h: PacketHeader, p: Seq<u8>, r: Result<Packet, ValidationError>) -> bool {
    r matches Ok(Packet::Heartbeat(f)) && {
        &&& f.header == h
        &&& placeholder_tag(f.hmac)
        &&& f.heartbeat_sequence.0 == (if p.len() >= 4 {
            be_at(p, 0, 4)
        } else {
            0
        })
        &&& f.rtt_measurement == (if p.len() >= 12 {
            Some(RoundTripTime(be_at(p, 4, 8) as u64))
        } else {
            None
        })
    }
}

/// `r` is what reading an ERROR packet with header `h` and payload `p` gives:
/// the error code is the first byte (else 0), the description the rest of the
/// payload decoded as UTF-8, or "Unknown error" when there is no rest.
pub open spec fn error_legacy(h: PacketHeader, p: Seq<u8>, r: Result<Packet, ValidationError>) -> bool {
    r matches Ok(Packet::Error(f)) && {
        &&& f.header == h
        &&& placeholder_tag(f.hmac)
        &&& f.error_code == ErrorCode(if p.len() > 0 { p[0] } else { 0 })
        &&& f.error_description.0@ == (if p.len() > 1 {
            utf8_lossy(p.subrange(1, p.len() as int))
        } else {
            "Unknown error"@
        })
        &&& f.error_context is None
    }
}

/// `r` is what reading a CONTROL packet with header `h` and payload `p` gives.
pub open spec fn control_legacy(h: PacketHeader, p: Seq<u8>, r: Result<Packet, ValidationError>) -> bool {
    match spec_control_payload(h.sub_type.0, p) {
        Err(e) => r == Err::<Packet, ValidationError>(e),
        Ok(c) => r matches Ok(Packet::Control(f)) && f.header == h && placeholder_tag(f.hmac)
            && f.payload == c,
    }
}

/// `r` is what reading a MANAGEMENT packet with header `h` and payload `p` gives.
pub open spec fn management_legacy(h: PacketHeader, p: Seq<u8>, r: Result<Packet, ValidationError>) -> bool {
    match management_parse_error(h.sub_type.0, p) {
        Some(e) => r == Err::<Packet, ValidationError>(e),
        None => r matches Ok(Packet::Management(f)) && f.header == h && placeholder_tag(f.hmac)
            && management_parsed(h.sub_type.0, p, f.payload),
    }
}

/// `r` is what reading a DISCOVERY packet with header `h` and payload `p` gives.
pub open spec fn discovery_legacy(h: PacketHeader, p: Seq<u8>, r: Result<Packet, ValidationError>) -> bool {
    match discovery_parse_error(h.sub_type.0, p) {
        Some(e) => r == Err::<Packet, ValidationError>(e),
        None => r matches Ok(Packet::Discovery(f)) && f.header == h && placeholder_tag(f.hmac)
            && discovery_parsed(h.sub_type.0, p, f.payload),
    }
}

/// `r` is what reading a packet with header `h` and payload `p` gives, for the
/// packet types read without a layout of their own.
pub open spec fn legacy_parsed(h: PacketHeader, p: Seq<u8>, r: Result<Packet, ValidationError>) -> bool {
    match h.packet_type {
        PacketType::Fin => fin_legacy(h, p, r),
        PacketType::Rst => rst_legacy(h, p, r),
        PacketType::Heartbeat => heartbeat_legacy(h, p, r),
        PacketType::Error => error_legacy(h, p, r),
        PacketType::Control => control_legacy(h, p, r),
        PacketType::Management => management_legacy(h, p, r),
        PacketType::Discovery => discovery_legacy(h, p, r),
        _ => false,
    }
}

/// `r` is what reading `bytes`, whose header `h` was accepted, as a packet
/// gives: SYN, SYN-ACK, ACK and DATA packets are read with their own layout,
/// fragment packets are not supported, the others are read from the bytes
/// after the header and its tag.
pub open spec fn parsed_as(bytes: Seq<u8>, h: PacketHeader, r: Result<Packet, ValidationError>) -> bool {
    match h.packet_type {
        PacketType::Syn => match body_parse_error(bytes, PacketType::Syn, 103) {
            Some(e) => r == Err::<Packet, ValidationError>(e),
            None => r matches Ok(Packet::Syn(p)) && syn_parsed(bytes, p),
        },
        PacketType::SynAck => match body_parse_error(bytes, PacketType::SynAck, 107) {
            Some(e) => r == Err::<Packet, ValidationError>(e),
            None => r matches Ok(Packet::SynAck(p)) && syn_ack_parsed(bytes, p),
        },
        PacketType::Ack => match body_parse_error(bytes, PacketType::Ack, 4) {
            Some(e) => r == Err::<Packet, ValidationError>(e),
            None => r matches Ok(Packet::Ack(p)) && ack_parsed(bytes, p),
        },
        PacketType::Data => match data_parse_error(bytes) {
            Some(e) => r == Err::<Packet, ValidationError>(e),
            None => r matches Ok(Packet::Data(p)) && data_parsed(bytes, p),
        },
        PacketType::Fragment => r matches Err(ValidationError::UnsupportedFeature(_)),
        _ => legacy_parsed(h, legacy_payload(bytes, h), r),
    }
}

/// Why `bytes` fails the integrity checks, if it does: under 32 bytes, a
/// protocol version above 1, or an unknown packet type.
pub open spec fn integrity_error(bytes: Seq<u8>) -> Option<ValidationError> {
    if bytes.len() < 32 {
        Some(ValidationError::InvalidLength)
    } else if VersionByte(bytes[0]).spec_protocol_version() > 1 {
        Some(ValidationError::InvalidConfiguration)
    } else if packet_type_of_code(bytes[1]) is None {
        Some(ValidationError::InvalidPacketType)
    } else {
        None
    }
}

/// What an HMAC tag of a packet with header `h` is computed over: the packet
/// type's code, the header's bytes and whatever follows the tag.
pub open spec fn signed_input(bytes: Seq<u8>, h: PacketHeader, tag_len: nat) -> Seq<u8> {
    let hs = h.spec_header_size() as int;
    seq![packet_type_code(h.packet_type)] + bytes.subrange(0, hs) + bytes.subrange(
        hs + tag_len,
        bytes.len() as int,
    )
}

/// The bytes after the header of `bytes` are the tag, under `key` with
/// `policy`, of its signed input.
pub open spec fn tag_authentic(bytes: Seq<u8>, h: PacketHeader, key: Seq<u8>, policy: HmacPolicy) -> bool {
    let hs = h.spec_header_size() as int;
    let tl = spec_tag_size(policy);
    &&& bytes.len() >= hs + tl
    &&& bytes.subrange(hs, hs + tl) == packet_tag(key, signed_input(bytes, h, tl), policy)
}

/// `r` and the replay protection `after` are what reading `bytes` with
/// replay protection `before` at time `now` gives: a header that does not
/// parse, or a replay, changes nothing and is refused; otherwise the packet is
/// entered in its session's window and read as its type says.
pub open spec fn internal_outcome(
    before: AntiReplayEngine,
    after: AntiReplayEngine,
    bytes: Seq<u8>,
    now: u64,
    r: Result<Packet, ValidationError>,
) -> bool {
    match spec_deserialize_header(bytes) {
        Err(e) => r == Err::<Packet, ValidationError>(e) && same_replay(after, before),
        Ok(h) => if before.refuses(h, now) {
            r == Err::<Packet, ValidationError>(ValidationError::ReplayAttackDetected) && same_replay(
                after,
                before,
            )
        } else {
            &&& after.spec_config() == before.spec_config()
            &&& after.spec_windows() == before.windows_after(h)
            &&& parsed_as(bytes, h, r)
        },
    }
}

/// Replay protection of `a` and `b` holds the same settings and windows.
pub open spec fn same_replay(a: AntiReplayEngine, b: AntiReplayEngine) -> bool {
    &&& a.spec_config() == b.spec_config()
    &&& a.spec_windows() == b.spec_windows()
}

/// Converts raw bytes into packets: checks sizes and integrity, authenticates
/// the tag when asked to, refuses replays and reads the packet.
pub struct PacketParserEngine {
    /// Largest packet accepted, in bytes.
    pub max_packet_size: usize,
    /// Whether strict validation was asked for.
    pub strict_validation: bool,
    /// Replay protection.
    pub anti_replay: AntiReplayEngine,
    /// Computes and checks tags.
    pub hmac_calculator: HmacCalculator,
    /// How many packets failed authentication.
    pub hmac_failures: u64,
}

/// The parser `s1` and answer `r` after `s0` parsed `bytes` without
/// authenticating it, checking replays against the clock reading `now`: a
/// packet refused for its size leaves the replay state as it was.
pub open spec fn parse_outcome(
    s0: PacketParserEngine,
    s1: PacketParserEngine,
    bytes: Seq<u8>,
    now: Timestamp,
    r: Result<Packet, ValidationError>,
) -> bool {
    &&& s1.max_packet_size == s0.max_packet_size
    &&& s1.strict_validation == s0.strict_validation
    &&& s1.spec_hmac_failures() == s0.spec_hmac_failures()
    &&& match s0.size_error(bytes) {
        Some(e) => r == Err::<Packet, ValidationError>(e) && same_replay(
            s1.spec_replay(),
            s0.spec_replay(),
        ),
        None => internal_outcome(s0.spec_replay(), s1.spec_replay(), bytes, now.0, r),
    }
}

/// The parser `s1` and answer `r` after `s0` parsed and authenticated `bytes`
/// under `session_key`, checking replays against the clock reading `now`: the
/// size and integrity checks come first, then the tag; a wrong tag is counted,
/// and a refused packet leaves the replay state as it was.
pub open spec fn auth_parse_outcome(
    s0: PacketParserEngine,
    s1: PacketParserEngine,
    bytes: Seq<u8>,
    session_key: Seq<u8>,
    now: Timestamp,
    r: Result<Packet, ValidationError>,
) -> bool {
    &&& s1.max_packet_size == s0.max_packet_size
    &&& s1.strict_validation == s0.strict_validation
    &&& match s0.size_error(bytes) {
        Some(e) => r == Err::<Packet, ValidationError>(e) && same_replay(
            s1.spec_replay(),
            s0.spec_replay(),
        ) && s1.spec_hmac_failures() == s0.spec_hmac_failures(),
        None => match spec_deserialize_header(bytes) {
            Err(e) => r == Err::<Packet, ValidationError>(e) && same_replay(
                s1.spec_replay(),
                s0.spec_replay(),
            ) && s1.spec_hmac_failures() == s0.spec_hmac_failures(),
            Ok(h) => if tag_authentic(bytes, h, session_key, h.hmac_policy) {
                s1.spec_hmac_failures() == s0.spec_hmac_failures()
                    && internal_outcome(s0.spec_replay(), s1.spec_replay(), bytes, now.0, r)
            } else {
                r == Err::<Packet, ValidationError>(ValidationError::InvalidHmacTag) && same_replay(
                    s1.spec_replay(),
                    s0.spec_replay(),
                ) && s1.spec_hmac_failures() == vstd::wrapping::u64_specs::wrapping_add(
                    s0.spec_hmac_failures(),
                    1,
                )
            },
        },
    }
}

/// The parser `s1` is `s0` with its count of authentication failures back at
/// zero: the size limit, the validation mode and the replay state stay.
pub open spec fn failures_reset(s0: PacketParserEngine, s1: PacketParserEngine) -> bool {
    &&& s1.spec_hmac_failures() == 0
    &&& s1.max_packet_size == s0.max_packet_size
    &&& s1.strict_validation == s0.strict_validation
    &&& same_replay(s1.spec_replay(), s0.spec_replay())
}

/// After a reset of the failure count, a packet of acceptable size with a
/// readable header whose tag does not authenticate is refused as such, and
/// the count is one; the size limit and the replay state are those from
/// before the reset.
pub proof fn lemma_reset_then_failure(
    s0: PacketParserEngine,
    s1: PacketParserEngine,
    s2: PacketParserEngine,
    bytes: Seq<u8>,
    session_key: Seq<u8>,
    now: Timestamp,
    r: Result<Packet, ValidationError>,
)
    requires
        failures_reset(s0, s1),
        auth_parse_outcome(s1, s2, bytes, session_key, now, r),
        s0.size_error(bytes) is None,
        spec_deserialize_header(bytes) matches Ok(h) && !tag_authentic(bytes, h, session_key, h.hmac_policy),
    ensures
        r == Err::<Packet, ValidationError>(ValidationError::InvalidHmacTag),
        s2.spec_hmac_failures() == 1,
        s2.max_packet_size == s0.max_packet_size,
        same_replay(s2.spec_replay(), s0.spec_replay()),
{
}

impl PacketParserEngine {
    pub open spec fn spec_replay(&self) -> AntiReplayEngine {
        self.anti_replay
    }

    /// How many packets failed authentication (wrapping at the counter's size).
    pub open spec fn spec_hmac_failures(&self) -> u64 {
        self.hmac_failures
    }

    /// Why `bytes` is refused before its header is read, if it is: empty,
    /// larger than the limit, or failing the integrity checks.
    pub open spec fn size_error(&self, bytes: Seq<u8>) -> Option<ValidationError> {
        if bytes.len() == 0 || bytes.len() > self.max_packet_size {
            Some(ValidationError::InvalidLength)
        } else {
            integrity_error(bytes)
        }
    }

    /// 64 KiB packets, strict validation, replay protection with its default
    /// settings, no authentication failure counted.
    pub fn new() -> (r: PacketParserEngine)
        ensures
            r.max_packet_size == 65536,
            r.strict_validation,
            r.spec_replay().spec_config() == (AntiReplayConfig {
                timestamp_validation: true,
                max_timestamp_age_ms: 30_000,
            }),
            r.spec_replay().spec_windows().is_empty(),
            r.spec_hmac_failures() == 0,
    {
        PacketParserEngine {
            max_packet_size: 65536,
            strict_validation: true,
            anti_replay: AntiReplayEngine::new(),
            hmac_calculator: HmacCalculator::new(),
            hmac_failures: 0,
        }
    }

    /// A parser with the given limit and validation mode and default replay protection.
    pub fn with_config(max_packet_size: usize, strict_validation: bool) -> (r: PacketParserEngine)
        ensures
            r.max_packet_size == max_packet_size,
            r.strict_validation == strict_validation,
            r.spec_replay().spec_config() == (AntiReplayConfig {
                timestamp_validation: true,
                max_timestamp_age_ms: 30_000,
            }),
            r.spec_replay().spec_windows().is_empty(),
            r.spec_hmac_failures() == 0,
    {
        PacketParserEngine {
            max_packet_size,
            strict_validation,
            anti_replay: AntiReplayEngine::new(),
            hmac_calculator: HmacCalculator::new(),
            hmac_failures: 0,
        }
    }

    /// A parser with the given limit, validation mode and replay protection settings.
    pub fn with_anti_replay_config(
        max_packet_size: usize,
        strict_validation: bool,
        anti_replay_config: AntiReplayConfig,
    ) -> (r: PacketParserEngine)
        ensures
            r.max_packet_size == max_packet_size,
            r.strict_validation == strict_validation,
            r.spec_replay().spec_config() == anti_replay_config,
            r.spec_replay().spec_windows().is_empty(),
            r.spec_hmac_failures() == 0,
    {
        PacketParserEngine {
            max_packet_size,
            strict_validation,
            anti_replay: AntiReplayEngine::from_config(anti_replay_config),
            hmac_calculator: HmacCalculator::new(),
            hmac_failures: 0,
        }
    }

    /// How many packets failed authentication.
    pub fn hmac_failure_count(&self) -> (r: u64)
        ensures
            r == self.spec_hmac_failures(),
    {
        self.hmac_failures
    }

    /// Sets the authentication failure count back to zero.
    pub fn reset_hmac_failures(&mut self)
        ensures
            failures_reset(*old(self), *final(self)),
    {
        self.hmac_failures = 0;
    }

    /// Checks the minimum size (32 bytes), the protocol version and the packet type.
    pub fn validate_packet_integrity(&self, bytes: &[u8]) -> (r: Result<(), ValidationError>)
        ensures
            match integrity_error(bytes@) {
                Some(e) => r == Err::<(), ValidationError>(e),
                None => r is Ok,
            },
    {
        if bytes.len() < 32 {
            return Err(ValidationError::InvalidLength);
        }
        let version_byte = VersionByte::from_raw(bytes[0]);
        if version_byte.protocol_version() > 1 {
            return Err(ValidationError::InvalidConfiguration);
        }
        if PacketType::from_u8(bytes[1]).is_none() {
            return Err(ValidationError::InvalidPacketType);
        }
        Ok(())
    }

    /// Authenticates `bytes` under `session_key` with `hmac_policy`: the tag
    /// follows the header and covers the type code, the header and what
    /// follows the tag. Each failure of the tag is counted.
    fn verify_packet_hmac(&mut self, bytes: &[u8], session_key: &[u8], hmac_policy: HmacPolicy) -> (r: Result<(), ValidationError>)
        requires
            session_key@.len() < max_hmac_message(),
            bytes@.len() + 1 < max_hmac_message(),
        ensures
            final(self).max_packet_size == old(self).max_packet_size,
            final(self).strict_validation == old(self).strict_validation,
            same_replay(final(self).spec_replay(), old(self).spec_replay()),
            match spec_deserialize_header(bytes@) {
                Err(e) => r == Err::<(), ValidationError>(e) && final(self).spec_hmac_failures()
                    == old(self).spec_hmac_failures(),
                Ok(h) => if tag_authentic(bytes@, h, session_key@, hmac_policy) {
                    r is Ok && final(self).spec_hmac_failures() == old(self).spec_hmac_failures()
                } else {
                    r == Err::<(), ValidationError>(ValidationError::InvalidHmacTag)
                        && final(self).spec_hmac_failures() == vstd::wrapping::u64_specs::wrapping_add(
                        old(self).spec_hmac_failures(),
                        1,
                    )
                },
            },
    {
        let hmac_size = hmac_policy.tag_size();
        let header = match PacketHeader::deserialize(bytes) {
            Ok(h) => h,
            Err(e) => return Err(e),
        };
        let header_size = header.header_size();
        let packet_type = header.packet_type();
        if bytes.len() < header_size + hmac_size {
            self.hmac_failures = self.hmac_failures.wrapping_add(1);
            return Err(ValidationError::InvalidHmacTag);
        }
        let hmac_end = header_size + hmac_size;
        let received_hmac = match HmacTag::new(read_bytes(bytes, header_size, hmac_size), hmac_policy) {
            Ok(t) => t,
            Err(_) => return Err(ValidationError::InvalidHmacTag),
        };
        let mut hmac_input: Vec<u8> = Vec::new();
        hmac_input.push(packet_type.as_u8());
        crate::codec::push_slice(&mut hmac_input, read_bytes(bytes, 0, header_size).as_slice());
        crate::codec::push_slice(&mut hmac_input, read_bytes(bytes, hmac_end, bytes.len() - hmac_end).as_slice());
        proof {
            assert(hmac_input@ =~= signed_input(bytes@, header, hmac_size as nat));
        }
        match self.hmac_calculator.verify_packet_hmac(hmac_input.as_slice(), session_key, &received_hmac, hmac_policy) {
            Ok(()) => Ok(()),
            Err(_) => {
                self.hmac_failures = self.hmac_failures.wrapping_add(1);
                Err(ValidationError::InvalidHmacTag)
            },
        }
    }

    /// Reads the header, refuses a replay (checked against the clock reading
    /// `now`), then reads the packet as its type says.
    fn parse_packet_internal(&mut self, bytes: &[u8], now: Timestamp) -> (r: Result<Packet, ValidationError>)
        ensures
            final(self).max_packet_size == old(self).max_packet_size,
            final(self).strict_validation == old(self).strict_validation,
            final(self).spec_hmac_failures() == old(self).spec_hmac_failures(),
            internal_outcome(old(self).spec_replay(), final(self).spec_replay(), bytes@, now.0, r),
    {
        let header = match PacketHeader::deserialize(bytes) {
            Ok(h) => h,
            Err(e) => return Err(e),
        };
        if self.anti_replay.validate_packet_at(&header, now).is_err() {
            return Err(ValidationError::ReplayAttackDetected);
        }
        match header.packet_type() {
            PacketType::Syn => match SynPacket::deserialize(bytes) {
                Ok(p) => Ok(Packet::Syn(p)),
                Err(e) => Err(e),
            },
            PacketType::SynAck => match SynAckPacket::deserialize(bytes) {
                Ok(p) => Ok(Packet::SynAck(p)),
                Err(e) => Err(e),
            },
            PacketType::Ack => match AckPacket::deserialize(bytes) {
                Ok(p) => Ok(Packet::Ack(p)),
                Err(e) => Err(e),
            },
            PacketType::Data => match DataPacket::deserialize(bytes) {
                Ok(p) => Ok(Packet::Data(p)),
                Err(e) => Err(e),
            },
            PacketType::Fin => self.parse_fin_packet_legacy(bytes),
            PacketType::Rst => self.parse_rst_packet_legacy(bytes),
            PacketType::Heartbeat => self.parse_heartbeat_packet_legacy(bytes),
            PacketType::Error => self.parse_error_packet_legacy(bytes),
            PacketType::Control => self.parse_control_packet_legacy(bytes),
            PacketType::Management => self.parse_management_packet_legacy(bytes),
            PacketType::Discovery => self.parse_discovery_packet_legacy(bytes),
            PacketType::Fragment => Err(ValidationError::UnsupportedFeature("Packet fragmentation not implemented".to_owned())),
        }
    }

    /// Parses `bytes` without authenticating it, checking replays against the
    /// clock reading `now`: the size and integrity checks come first, then the
    /// header, the replay check and the packet's own fields.
    pub fn parse_packet_at(&mut self, bytes: &[u8], now: Timestamp) -> (r: Result<Packet, ValidationError>)
        ensures
            parse_outcome(*old(self), *final(self), bytes@, now, r),
    {
        if bytes.len() == 0 {
            return Err(ValidationError::InvalidLength);
        }
        if bytes.len() > self.max_packet_size {
            return Err(ValidationError::InvalidLength);
        }
        match self.validate_packet_integrity(bytes) {
            Ok(()) => {},
            Err(e) => return Err(e),
        }
        self.parse_packet_internal(bytes, now)
    }

    /// Parses `bytes` without authenticating it, checking replays against the
    /// system clock, as `parse_packet_at` does.
    pub fn parse_packet(&mut self, bytes: &[u8]) -> (r: Result<Packet, ValidationError>)
        ensures
            final(self).max_packet_size == old(self).max_packet_size,
            final(self).spec_hmac_failures() == old(self).spec_hmac_failures(),
            old(self).size_error(bytes@) matches Some(e) ==> r == Err::<Packet, ValidationError>(e),
            exists|now: Timestamp| parse_outcome(*old(self), *final(self), bytes@, now, r),
    {
        let now = Timestamp::now();
        self.parse_packet_at(bytes, now)
    }

    /// Parses and authenticates `bytes` under `session_key`, checking replays
    /// against the clock reading `now`: the size and integrity checks come
    /// first, then the tag (of the strength the packet type calls for) is
    /// checked before anything else is read; a wrong tag is counted.
    pub fn parse_packet_with_hmac_at(&mut self, bytes: &[u8], session_key: &[u8], now: Timestamp) -> (r: Result<Packet, ValidationError>)
        requires
            session_key@.len() < max_hmac_message(),
            bytes@.len() + 1 < max_hmac_message(),
        ensures
            auth_parse_outcome(*old(self), *final(self), bytes@, session_key@, now, r),
    {
        if bytes.len() == 0 {
            return Err(ValidationError::InvalidLength);
        }
        if bytes.len() > self.max_packet_size {
            return Err(ValidationError::InvalidLength);
        }
        match self.validate_packet_integrity(bytes) {
            Ok(()) => {},
            Err(e) => return Err(e),
        }
        let header = match PacketHeader::deserialize(bytes) {
            Ok(h) => h,
            Err(e) => return Err(e),
        };
        let hmac_policy = header.hmac_policy();
        match self.verify_packet_hmac(bytes, session_key, hmac_policy) {
            Ok(()) => {},
            Err(e) => return Err(e),
        }
        self.parse_packet_internal(bytes, now)
    }

    /// Parses and authenticates `bytes` under `session_key`, checking replays
    /// against the system clock, as `parse_packet_with_hmac_at` does.
    pub fn parse_packet_with_hmac(&mut self, bytes: &[u8], session_key: &[u8]) -> (r: Result<Packet, ValidationError>)
        requires
            session_key@.len() < max_hmac_message(),
            bytes@.len() + 1 < max_hmac_message(),
        ensures
            final(self).max_packet_size == old(self).max_packet_size,
            old(self).size_error(bytes@) matches Some(e) ==> r == Err::<Packet, ValidationError>(e),
            exists|now: Timestamp| auth_parse_outcome(*old(self), *final(self), bytes@, session_key@, now, r),
    {
        let now = Timestamp::now();
        self.parse_packet_with_hmac_at(bytes, session_key, now)
    }

    /// The header of `bytes` and what follows it and a tag of its strength.
    fn split_legacy(&self, bytes: &[u8]) -> (r: Result<(PacketHeader, Vec<u8>), ValidationError>)
        ensures
            match spec_deserialize_header(bytes@) {
                Err(e) => r == Err::<(PacketHeader, Vec<u8>), ValidationError>(e),
                Ok(h) => r matches Ok((h2, p)) && h2 == h && p@ == legacy_payload(bytes@, h),
            },
    {
        let header = match PacketHeader::deserialize(bytes) {
            Ok(h) => h,
            Err(e) => return Err(e),
        };
        let payload_offset = header.header_size() + header.hmac_policy().tag_size();
        let payload = if bytes.len() > payload_offset {
            read_bytes(bytes, payload_offset, bytes.len() - payload_offset)
        } else {
            Vec::new()
        };
        proof {
            if bytes.len() <= payload_offset {
                assert(payload@ =~= legacy_payload(bytes@, header));
            }
        }
        Ok((header, payload))
    }

    fn parse_fin_packet_legacy(&self, bytes: &[u8]) -> (r: Result<Packet, ValidationError>)
        ensures
            match spec_deserialize_header(bytes@) {
                Err(e) => r == Err::<Packet, ValidationError>(e),
                Ok(h) => fin_legacy(h, legacy_payload(bytes@, h), r),
            },
    {
        let (header, payload) = match self.split_legacy(bytes) {
            Ok(x) => x,
            Err(e) => return Err(e),
        };
        self.parse_fin_packet(header, HmacTag::default(), payload.as_slice())
    }

    fn parse_rst_packet_legacy(&self, bytes: &[u8]) -> (r: Result<Packet, ValidationError>)
        ensures
            match spec_deserialize_header(bytes@) {
                Err(e) => r == Err::<Packet, ValidationError>(e),
                Ok(h) => rst_legacy(h, legacy_payload(bytes@, h), r),
            },
    {
        let (header, payload) = match self.split_legacy(bytes) {
            Ok(x) => x,
            Err(e) => return Err(e),
        };
        self.parse_rst_packet(header, HmacTag::default(), payload.as_slice())
    }

    fn parse_heartbeat_packet_legacy(&self, bytes: &[u8]) -> (r: Result<Packet, ValidationError>)
        ensures
            match spec_deserialize_header(bytes@) {
                Err(e) => r == Err::<Packet, ValidationError>(e),
                Ok(h) => heartbeat_legacy(h, legacy_payload(bytes@, h), r),
            },
    {
        let (header, payload) = match self.split_legacy(bytes) {
            Ok(x) => x,
            Err(e) => return Err(e),
        };
        self.parse_heartbeat_packet(header, HmacTag::default(), payload.as_slice())
    }

    fn parse_error_packet_legacy(&self, bytes: &[u8]) -> (r: Result<Packet, ValidationError>)
        ensures
            match spec_deserialize_header(bytes@) {
                Err(e) => r == Err::<Packet, ValidationError>(e),
                Ok(h) => error_legacy(h, legacy_payload(bytes@, h), r),
            },
    {
        let (header, payload) = match self.split_legacy(bytes) {
            Ok(x) => x,
            Err(e) => return Err(e),
        };
        self.parse_error_packet(header, HmacTag::default(), payload.as_slice())
    }

    fn parse_control_packet_legacy(&self, bytes: &[u8]) -> (r: Result<Packet, ValidationError>)
        ensures
            match spec_deserialize_header(bytes@) {
                Err(e) => r == Err::<Packet, ValidationError>(e),
                Ok(h) => control_legacy(h, legacy_payload(bytes@, h), r),
            },
    {
        let (header, payload) = match self.split_legacy(bytes) {
            Ok(x) => x,
            Err(e) => return Err(e),
        };
        self.parse_control_packet(header, HmacTag::default(), payload.as_slice())
    }

    fn parse_management_packet_legacy(&self, bytes: &[u8]) -> (r: Result<Packet, ValidationError>)
        ensures
            match spec_deserialize_header(bytes@) {
                Err(e) => r == Err::<Packet, ValidationError>(e),
                Ok(h) => management_legacy(h, legacy_payload(bytes@, h), r),
            },
    {
        let (header, payload) = match self.split_legacy(bytes) {
            Ok(x) => x,
            Err(e) => return Err(e),
        };
        self.parse_management_packet(header, HmacTag::default(), payload.as_slice())
    }

    fn parse_discovery_packet_legacy(&self, bytes: &[u8]) -> (r: Result<Packet, ValidationError>)
        ensures
            match spec_deserialize_header(bytes@) {
                Err(e) => r == Err::<Packet, ValidationError>(e),
                Ok(h) => discovery_legacy(h, legacy_payload(bytes@, h), r),
            },
    {
        let (header, payload) = match self.split_legacy(bytes) {
            Ok(x) => x,
            Err(e) => return Err(e),
        };
        self.parse_discovery_packet(header, HmacTag::default(), payload.as_slice())
    }

    fn parse_fin_packet(&self, header: PacketHeader, hmac: HmacTag, payload: &[u8]) -> (r: Result<Packet, ValidationError>)
        requires
            placeholder_tag(hmac),
        ensures
            fin_legacy(header, payload@, r),
    {
        if !header.flags().is_fin() {
            return Err(ValidationError::InvalidState);
        }
        let final_sequence = header.sequence_number();
        let reason = if payload.len() == 0 {
            TerminationReason::Normal
        } else {
            match TerminationReason::from_u8(payload[0]) {
                Some(r) => r,
                None => TerminationReason::Normal,
            }
        };
        Ok(Packet::Fin(FinPacket { header, hmac, final_sequence, reason }))
    }

    fn parse_rst_packet(&self, header: PacketHeader, hmac: HmacTag, payload: &[u8]) -> (r: Result<Packet, ValidationError>)
        requires
            placeholder_tag(hmac),
        ensures
            rst_legacy(header, payload@, r),
    {
        if !header.flags().is_rst() {
            return Err(ValidationError::InvalidState);
        }
        let reason = if payload.len() == 0 {
            ResetReason::ProtocolError
        } else {
            match ResetReason::from_u8(payload[0]) {
                Some(r) => r,
                None => ResetReason::ProtocolError,
            }
        };
        let error_code = if payload.len() > 1 {
            Some(ErrorCode::new(payload[1]))
        } else {
            None
        };
        Ok(Packet::Rst(RstPacket { header, hmac, reason, error_code }))
    }

    fn parse_heartbeat_packet(&self, header: PacketHeader, hmac: HmacTag, payload: &[u8]) -> (r: Result<Packet, ValidationError>)
        requires
            placeholder_tag(hmac),
        ensures
            heartbeat_legacy(header, payload@, r),
    {
        let heartbeat_sequence = if payload.len() >= 4 {
            proof {
                crate::codec::lemma_pow256_values();
                crate::codec::lemma_be_decode_bound(payload@.subrange(0, 4));
            }
            HeartbeatSequence::new(read_be(payload, 0, 4) as u32)
        } else {
            HeartbeatSequence::new(0)
        };
        let rtt_measurement = if payload.len() >= 12 {
            Some(RoundTripTime::new(read_be(payload, 4, 8)))
        } else {
            None
        };
        Ok(Packet::Heartbeat(HeartbeatPacket { header, hmac, heartbeat_sequence, rtt_measurement }))
    }

    fn parse_error_packet(&self, header: PacketHeader, hmac: HmacTag, payload: &[u8]) -> (r: Result<Packet, ValidationError>)
        requires
            placeholder_tag(hmac),
        ensures
            error_legacy(header, payload@, r),
    {
        let error_code = if payload.len() == 0 {
            ErrorCode::new(0)
        } else {
            ErrorCode::new(payload[0])
        };
        let error_description = if payload.len() > 1 {
            let desc_bytes = read_bytes(payload, 1, payload.len() - 1);
            ErrorDescription::new(string_from_utf8_lossy(desc_bytes.as_slice()))
        } else {
            proof {
                reveal_strlit("Unknown error");
            }
            ErrorDescription::new("Unknown error".to_owned())
        };
        Ok(Packet::Error(ErrorPacket { header, hmac, error_code, error_description, error_context: None }))
    }

    fn parse_control_packet(&self, header: PacketHeader, hmac: HmacTag, payload: &[u8]) -> (r: Result<Packet, ValidationError>)
        requires
            placeholder_tag(hmac),
        ensures
            control_legacy(header, payload@, r),
    {
        let control_payload = match ControlSubType::from_u8(header.sub_type().as_u8()) {
            Some(ControlSubType::TimeSyncRequest) => match self.parse_time_sync_request(payload) {
                Ok(x) => ControlPayload::TimeSyncRequest(x),
                Err(e) => return Err(e),
            },
            Some(ControlSubType::TimeSyncResponse) => match self.parse_time_sync_response(payload) {
                Ok(x) => ControlPayload::TimeSyncResponse(x),
                Err(e) => return Err(e),
            },
            Some(ControlSubType::Recovery) => match self.parse_recovery_payload(payload) {
                Ok(x) => ControlPayload::Recovery(x),
                Err(e) => return Err(e),
            },
            Some(ControlSubType::SequenceNegotiation) => match self.parse_sequence_neg_payload(payload) {
                Ok(x) => ControlPayload::SequenceNeg(x),
                Err(e) => return Err(e),
            },
            Some(ControlSubType::HmacPolicyRequest) => match self.parse_hmac_policy_request(payload) {
                Ok(x) => ControlPayload::HmacPolicyRequest(x),
                Err(e) => return Err(e),
            },
            Some(ControlSubType::HmacPolicyResponse) => match self.parse_hmac_policy_response(payload) {
                Ok(x) => ControlPayload::HmacPolicyResponse(x),
                Err(e) => return Err(e),
            },
            None => return Err(ValidationError::InvalidPacketType),
        };
        Ok(Packet::Control(ControlPacket { header, hmac, payload: control_payload }))
    }

    fn parse_management_packet(&self, header: PacketHeader, hmac: HmacTag, payload: &[u8]) -> (r: Result<Packet, ValidationError>)
        requires
            placeholder_tag(hmac),
        ensures
            management_legacy(header, payload@, r),
    {
        let management_payload = match ManagementSubType::from_u8(header.sub_type().as_u8()) {
            Some(ManagementSubType::RekeyRequest) => match self.parse_rekey_request(payload) {
                Ok(x) => ManagementPayload::RekeyRequest(x),
                Err(e) => return Err(e),
            },
            Some(ManagementSubType::RekeyResponse) => match self.parse_rekey_response(payload) {
                Ok(x) => ManagementPayload::RekeyResponse(x),
                Err(e) => return Err(e),
            },
            Some(ManagementSubType::RepairRequest) => match self.parse_repair_request(payload) {
                Ok(x) => ManagementPayload::RepairRequest(x),
                Err(e) => return Err(e),
            },
            Some(ManagementSubType::RepairResponse) => match self.parse_repair_response(payload) {
                Ok(x) => ManagementPayload::RepairResponse(x),
                Err(e) => return Err(e),
            },
            Some(ManagementSubType::RepairConfirm) => match self.parse_repair_response(payload) {
                Ok(x) => ManagementPayload::RepairResponse(x),
                Err(e) => return Err(e),
            },
            None => return Err(ValidationError::InvalidPacketType),
        };
        Ok(Packet::Management(ManagementPacket { header, hmac, payload: management_payload }))
    }

    fn parse_discovery_packet(&self, header: PacketHeader, hmac: HmacTag, payload: &[u8]) -> (r: Result<Packet, ValidationError>)
        requires
            placeholder_tag(hmac),
        ensures
            discovery_legacy(header, payload@, r),
    {
        let discovery_payload = match DiscoverySubType::from_u8(header.sub_type().as_u8()) {
            Some(DiscoverySubType::Request) => match self.parse_discovery_request(payload) {
                Ok(x) => DiscoveryPayload::Request(x),
                Err(e) => return Err(e),
            },
            Some(DiscoverySubType::Response) => match self.parse_discovery_response(payload) {
                Ok(x) => DiscoveryPayload::Response(x),
                Err(e) => return Err(e),
            },
            Some(DiscoverySubType::Confirm) => match self.parse_discovery_confirm(payload) {
                Ok(x) => DiscoveryPayload::Confirm(x),
                Err(e) => return Err(e),
            },
            None => return Err(ValidationError::InvalidPacketType),
        };
        Ok(Packet::Discovery(DiscoveryPacket { header, hmac, payload: discovery_payload }))
    }

    fn parse_time_sync_request(&self, payload: &[u8]) -> (r: Result<TimeSyncRequestPayload, ValidationError>)
        ensures
            r == spec_time_sync_request(payload@),
    {
        if payload.len() < 13 {
            return Err(ValidationError::InvalidLength);
        }
        let client_timestamp = Timestamp::from_nanos(read_be(payload, 0, 8));
        let sync_quality = SyncQuality::new(payload[8]);
        let drift = read_be(payload, 9, 4) as u32;
        let max_drift = TimeDrift::new(drift as i32);
        Ok(TimeSyncRequestPayload { client_timestamp, sync_quality, max_drift })
    }

    fn parse_time_sync_response(&self, payload: &[u8]) -> (r: Result<TimeSyncResponsePayload, ValidationError>)
        ensures
            r == spec_time_sync_response(payload@),
    {
        if payload.len() < 32 {
            return Err(ValidationError::InvalidLength);
        }
        let client_timestamp = Timestamp::from_nanos(read_be(payload, 0, 8));
        let server_timestamp = Timestamp::from_nanos(read_be(payload, 8, 8));
        let network_delay = NetworkDelay::new(read_be(payload, 16, 8));
        let skew = read_be(payload, 24, 8);
        let clock_skew = ClockSkew::new(skew as i64);
        Ok(TimeSyncResponsePayload { client_timestamp, server_timestamp, network_delay, clock_skew })
    }

    fn parse_recovery_payload(&self, payload: &[u8]) -> (r: Result<RecoveryPayload, ValidationError>)
        ensures
            r == spec_recovery(payload@),
    {
        if payload.len() < 10 {
            return Err(ValidationError::InvalidLength);
        }
        let reason = match RecoveryReason::from_u8(payload[0]) {
            Some(x) => x,
            None => return Err(ValidationError::InvalidPacketType),
        };
        let nonce = RecoveryNonce::new(read_be(payload, 1, 4) as u32);
        let last_good_sequence = SequenceNumber::new(read_be(payload, 5, 4) as u32);
        let recovery_level = match RecoveryLevel::from_u8(payload[9]) {
            Some(x) => x,
            None => return Err(ValidationError::InvalidPacketType),
        };
        let recovery_params = RecoveryParams::new(recovery_level);
        Ok(RecoveryPayload { reason, nonce, last_good_sequence, recovery_params })
    }

    fn parse_sequence_neg_payload(&self, payload: &[u8]) -> (r: Result<SequenceNegPayload, ValidationError>)
        ensures
            r == spec_sequence_neg(payload@),
    {
        if payload.len() < 9 {
            return Err(ValidationError::InvalidLength);
        }
        let proposed_sequence = SequenceNumber::new(read_be(payload, 0, 4) as u32);
        let window_size = WindowSize::new(read_be(payload, 4, 4) as u32);
        let flags = SequenceNegFlags::new(payload[8]);
        Ok(SequenceNegPayload { proposed_sequence, window_size, flags })
    }

    fn parse_hmac_policy_request(&self, payload: &[u8]) -> (r: Result<HmacPolicyRequestPayload, ValidationError>)
        ensures
            r == spec_hmac_policy_request(payload@),
    {
        if payload.len() < 3 {
            return Err(ValidationError::InvalidLength);
        }
        let requested_policy = match HmacPolicy::from_u8(payload[0]) {
            Some(x) => x,
            None => return Err(ValidationError::InvalidPacketType),
        };
        let security_level = match SecurityLevel::from_u8(payload[1]) {
            Some(x) => x,
            None => return Err(ValidationError::InvalidPacketType),
        };
        let reason = match PolicyChangeReason::from_u8(payload[2]) {
            Some(x) => x,
            None => return Err(ValidationError::InvalidPacketType),
        };
        Ok(HmacPolicyRequestPayload { requested_policy, security_level, reason })
    }

    fn parse_hmac_policy_response(&self, payload: &[u8]) -> (r: Result<HmacPolicyResponsePayload, ValidationError>)
        ensures
            r == spec_hmac_policy_response(payload@),
    {
        if payload.len() < 10 {
            return Err(ValidationError::InvalidLength);
        }
        let accepted_policy = match HmacPolicy::from_u8(payload[0]) {
            Some(x) => x,
            None => return Err(ValidationError::InvalidPacketType),
        };
        let result = match PolicyChangeResult::from_u8(payload[1]) {
            Some(x) => x,
            None => return Err(ValidationError::InvalidPacketType),
        };
        let effective_timestamp = Timestamp::from_nanos(read_be(payload, 2, 8));
        Ok(HmacPolicyResponsePayload { accepted_policy, result, effective_timestamp })
    }

    fn parse_rekey_request(&self, payload: &[u8]) -> (r: Result<RekeyRequestPayload, ValidationError>)
        ensures
            payload@.len() < 44 ==> r == Err::<RekeyRequestPayload, ValidationError>(ValidationError::InvalidLength),
            payload@.len() >= 44 ==> (r matches Ok(x) && management_parsed(
                1,
                payload@,
                ManagementPayload::RekeyRequest(x),
            )),
    {
        if payload.len() < 44 {
            return Err(ValidationError::InvalidLength);
        }
        let key_id = KeyId::new(padded16(payload, 0, 4));
        let salt = read_array16(payload, 4);
        proof {
            reveal_strlit("PBKDF2");
        }
        let kdf_params = KdfParams {
            algorithm: "PBKDF2".to_owned(),
            salt: KdfSalt::new(salt),
            iterations: KdfIterations::new(10000),
            key_length: KeySize::new(32),
        };
        Ok(RekeyRequestPayload {
            key_id,
            kdf_params,
            reason: RekeyReason::Scheduled,
            effective_timestamp: Timestamp::now(),
        })
    }

    fn parse_rekey_response(&self, payload: &[u8]) -> (r: Result<RekeyResponsePayload, ValidationError>)
        ensures
            payload@.len() < 52 ==> r == Err::<RekeyResponsePayload, ValidationError>(ValidationError::InvalidLength),
            payload@.len() >= 52 ==> (r matches Ok(x) && management_parsed(
                2,
                payload@,
                ManagementPayload::RekeyResponse(x),
            )),
    {
        if payload.len() < 52 {
            return Err(ValidationError::InvalidLength);
        }
        let key_id = KeyId::new(padded16(payload, 0, 4));
        Ok(RekeyResponsePayload {
            key_id,
            result: RekeyResult::Success,
            confirmation_timestamp: Timestamp::now(),
        })
    }

    fn parse_repair_request(&self, payload: &[u8]) -> (r: Result<RepairRequestPayload, ValidationError>)
        ensures
            payload@.len() < 20 ==> r == Err::<RepairRequestPayload, ValidationError>(ValidationError::InvalidLength),
            payload@.len() >= 20 ==> (r matches Ok(x) && management_parsed(
                3,
                payload@,
                ManagementPayload::RepairRequest(x),
            )),
    {
        if payload.len() < 20 {
            return Err(ValidationError::InvalidLength);
        }
        proof {
            crate::codec::lemma_pow256_values();
            crate::codec::lemma_be_decode_bound(payload@.subrange(4, 8));
            crate::codec::lemma_be_decode_bound(payload@.subrange(8, 12));
        }
        let last_seq = read_be(payload, 4, 4) as u32;
        let window_size = read_be(payload, 8, 4) as u32;
        Ok(RepairRequestPayload {
            repair_type: RepairType::Retransmission,
            sequence_range: SequenceRange::new(
                SequenceNumber::new(last_seq),
                SequenceNumber::new(last_seq.saturating_add(window_size)),
            ),
            priority: RepairPriority::Medium,
        })
    }

    /// Reads a repair response; repair confirmations are read the same way.
    fn parse_repair_response(&self, payload: &[u8]) -> (r: Result<RepairResponsePayload, ValidationError>)
        ensures
            payload@.len() < 20 ==> r == Err::<RepairResponsePayload, ValidationError>(ValidationError::InvalidLength),
            payload@.len() >= 20 ==> (r matches Ok(x) && management_parsed(
                4,
                payload@,
                ManagementPayload::RepairResponse(x),
            ) && management_parsed(5, payload@, ManagementPayload::RepairResponse(x))),
    {
        if payload.len() < 20 {
            return Err(ValidationError::InvalidLength);
        }
        let confirmation_nanos = read_be(payload, 12, 8);
        Ok(RepairResponsePayload {
            result: RepairResult::Success,
            repaired_data: None,
            completion_timestamp: Timestamp::from_nanos(confirmation_nanos),
        })
    }

    fn parse_discovery_request(&self, payload: &[u8]) -> (r: Result<DiscoveryRequestPayload, ValidationError>)
        ensures
            discovery_parse_error(1, payload@) matches Some(e) ==> r == Err::<DiscoveryRequestPayload, ValidationError>(e),
            discovery_parse_error(1, payload@) is None ==> (r matches Ok(x) && discovery_parsed(
                1,
                payload@,
                DiscoveryPayload::Request(x),
            )),
    {
        if payload.len() < 20 {
            return Err(ValidationError::InvalidLength);
        }
        proof {
            crate::codec::lemma_pow256_values();
            crate::codec::lemma_be_decode_bound(payload@.subrange(14, 16));
        }
        let bloom_filter_size = read_be(payload, 14, 2) as usize;
        if payload.len() - 20 < bloom_filter_size {
            return Err(ValidationError::InvalidLength);
        }
        let bits = read_bytes(payload, 20, bloom_filter_size);
        let challenge = padded32(payload, 0, 12);
        Ok(DiscoveryRequestPayload {
            challenge: DiscoveryChallenge::new(challenge),
            bloom_filter: BloomFilter {
                bits,
                hash_functions: HashFunctionCount::new(3),
                expected_elements: ElementCount::new(256),
            },
            timeout: DiscoveryTimeout::default(),
        })
    }

    fn parse_discovery_response(&self, payload: &[u8]) -> (r: Result<DiscoveryResponsePayload, ValidationError>)
        ensures
            discovery_parse_error(2, payload@) matches Some(e) ==> r == Err::<DiscoveryResponsePayload, ValidationError>(e),
            discovery_parse_error(2, payload@) is None ==> (r matches Ok(x) && discovery_parsed(
                2,
                payload@,
                DiscoveryPayload::Response(x),
            )),
    {
        if payload.len() < 16 {
            return Err(ValidationError::InvalidLength);
        }
        proof {
            crate::codec::lemma_pow256_values();
            crate::codec::lemma_be_decode_bound(payload@.subrange(8, 10));
        }
        let candidate_count = read_be(payload, 8, 2) as usize;
        let expected_size = 16 + candidate_count * 32 + 8;
        if payload.len() < expected_size {
            return Err(ValidationError::InvalidLength);
        }
        let mut candidate_hashes: Vec<CandidateHash> = Vec::new();
        let mut offset: usize = 16;
        let mut i: usize = 0;
        let plen = payload.len();
        while i < candidate_count
            invariant
                plen == payload@.len(),
                i <= candidate_count,
                offset == 16 + 32 * i,
                16 + candidate_count * 32 + 8 <= payload@.len(),
                candidate_hashes@.len() == i,
                forall|j: int|
                    0 <= j < i ==> #[trigger] candidate_hashes@[j].0@ == payload@.subrange(
                        16 + 32 * j,
                        48 + 32 * j,
                    ),
            decreases candidate_count - i,
        {
            proof {
                assert(32 * (i + 1) <= 32 * candidate_count) by (nonlinear_arith)
                    requires
                        i + 1 <= candidate_count,
                ;
            }
            let h = crate::codec::read_array32(payload, offset);
            candidate_hashes.push(CandidateHash::new(h));
            offset = offset + 32;
            i = i + 1;
        }
        let response_timestamp_nanos = read_be(payload, offset, 8);
        let challenge = padded32(payload, 0, 8);
        Ok(DiscoveryResponsePayload {
            challenge: DiscoveryChallenge::new(challenge),
            psk_proofs: Vec::new(),
            candidate_hashes,
            response_timestamp: Timestamp::from_nanos(response_timestamp_nanos),
        })
    }

    fn parse_discovery_confirm(&self, payload: &[u8]) -> (r: Result<DiscoveryConfirmPayload, ValidationError>)
        ensures
            discovery_parse_error(3, payload@) matches Some(e) ==> r == Err::<DiscoveryConfirmPayload, ValidationError>(e),
            discovery_parse_error(3, payload@) is None ==> (r matches Ok(x) && discovery_parsed(
                3,
                payload@,
                DiscoveryPayload::Confirm(x),
            )),
    {
        if payload.len() < 70 {
            return Err(ValidationError::InvalidLength);
        }
        let psk_id = padded32(payload, 0, 8);
        let proof_bytes = read_array16(payload, 8);
        let session_id = read_be(payload, 44, 8);
        Ok(DiscoveryConfirmPayload {
            selected_psk: PskId::new(psk_id),
            confirmation_proof: PskProof::new(proof_bytes),
            session_params: SessionParams {
                epoch_type: EpochType::Standard,
                session_id: SessionId::new(session_id),
                hmac_policy: HmacPolicy::Strong,
                timestamp_config: TimestampConfig::Bits32,
                flow_control_config: FlowControlConfig {
                    window_scale: WindowScale::new(0),
                    enabled: true,
                    initial_window: WindowSize::new(65535),
                    max_window: WindowSize::new(1048576),
                    congestion_control: true,
                },
            },
        })
    }
}

impl Default for PacketParserEngine {
    /// The same parser as `new` gives.
    fn default() -> (r: PacketParserEngine)
        ensures
            r.max_packet_size == 65536,
            r.strict_validation,
            r.spec_replay().spec_windows().is_empty(),
            r.spec_hmac_failures() == 0,
    {
        PacketParserEngine::new()
    }
}

/// A packet made of a header, the tag under `key` of its type code, header and
/// `fields` with the strength its type calls for, and then `fields`, has a
/// header that reads back and a tag that authenticates under `key`.
pub proof fn lemma_signed_packet_authenticates(h: PacketHeader, fields: Seq<u8>, key: Seq<u8>)
    requires
        header_encodable(h),
        packet_tag(key, signed_bytes(h, fields), policy_for_type(h.packet_type)).len()
            == spec_tag_size(policy_for_type(h.packet_type)),
    ensures
        ({
            let policy = policy_for_type(h.packet_type);
            let bytes = header_bytes(h) + packet_tag(key, signed_bytes(h, fields), policy) + fields;
            &&& spec_deserialize_header(bytes) == Ok::<PacketHeader, ValidationError>(header_read_back(h))
            &&& header_read_back(h).hmac_policy == policy
            &&& tag_authentic(bytes, header_read_back(h), key, policy)
        }),
{
    let policy = policy_for_type(h.packet_type);
    let tag = packet_tag(key, signed_bytes(h, fields), policy);
    let tl = spec_tag_size(policy);
    let body = tag + fields;
    let bytes = header_bytes(h) + body;
    assert(header_bytes(h) + tag + fields =~= bytes);
    lemma_fields_follow_header(h, body);
    let hr = header_read_back(h);
    let hs = hr.spec_header_size() as int;
    assert(bytes.subrange(hs, hs + tl) =~= tag);
    assert(bytes.subrange(0, hs) =~= header_bytes(h));
    assert(bytes.subrange(hs + tl, bytes.len() as int) =~= fields);
    assert(signed_input(bytes, hr, tl) =~= signed_bytes(h, fields));
}

/// A packet that was read is refused as a replay whenever it is read again,
/// at any time.
pub proof fn lemma_parsed_packet_is_replay(
    before: AntiReplayEngine,
    after: AntiReplayEngine,
    bytes: Seq<u8>,
    now: u64,
    r: Result<Packet, ValidationError>,
)
    requires
        internal_outcome(before, after, bytes, now, r),
        r is Ok,
    ensures
        spec_deserialize_header(bytes) is Ok,
        forall|later: u64|
            after.refuses(#[trigger] spec_deserialize_header(bytes)->Ok_0, later),
        forall|later: u64, again: AntiReplayEngine, r2: Result<Packet, ValidationError>|
            internal_outcome(after, again, bytes, later, r2) ==> r2 == Err::<Packet, ValidationError>(
                ValidationError::ReplayAttackDetected,
            ),
{
    let h = spec_deserialize_header(bytes)->Ok_0;
    let sid = h.session_id.0;
    let seq = h.sequence_number.0;
    if before.spec_windows().contains_key(sid) {
        lemma_accepted_is_rejected(before.spec_windows()[sid], seq);
    } else {
        assert((0u64 >> 0u64) & 1u64 == 0u64) by (bit_vector);
        lemma_accepted_is_rejected(ReplayWindow { highest: seq, bitmap: 0 }, seq);
    }
    assert(after.spec_windows()[sid] == before.windows_after(h)[sid]);
}

/// A SYN-ACK tagged as `SynAckPacketBuilder::build_with_hmac` tags it, under
/// `key` and with the strength its type calls for, is written as bytes whose
/// header reads back and whose tag authenticates under `key`: the tag covers
/// every field written after it, the shared-secret verification included.
pub proof fn lemma_signed_syn_ack_authenticates(p: SynAckPacket, key: Seq<u8>)
    requires
        header_encodable(p.header),
        p.header.packet_type == PacketType::SynAck,
        p.hmac.data@ == packet_tag(key, signed_bytes(p.header, syn_ack_signed_fields(p)), policy_for_type(PacketType::SynAck)),
        p.hmac.data@.len() == spec_tag_size(policy_for_type(PacketType::SynAck)),
    ensures
        spec_deserialize_header(header_bytes(p.header) + syn_ack_body(p)) == Ok::<PacketHeader, ValidationError>(
            header_read_back(p.header),
        ),
        tag_authentic(
            header_bytes(p.header) + syn_ack_body(p),
            header_read_back(p.header),
            key,
            policy_for_type(PacketType::SynAck),
        ),
{
    let fields = syn_ack_signed_fields(p);
    lemma_signed_packet_authenticates(p.header, fields, key);
    assert(header_bytes(p.header) + syn_ack_body(p) =~= header_bytes(p.header) + packet_tag(
        key,
        signed_bytes(p.header, fields),
        policy_for_type(p.header.packet_type),
    ) + fields);
}

} // verus!
