//! What reading back a written packet gives.
use vstd::prelude::*;
use crate::codec::{be_decode, be_encode, lemma_be_encode_len, lemma_decode_encode, lemma_pow256_values, pow256};
use crate::packet::header::{
    header_bytes, header_new, layout_size, lemma_header_bytes_len, lemma_header_roundtrip,
    spec_deserialize_header, PacketHeader,
};
use crate::packet::structures::{
    ack_body, ack_parsed, body_parse_error, data_body, data_parse_error, data_parsed, fields_offset,
    fin_body, fin_parse_error, fin_parsed, fragment_header_bytes, heartbeat_body,
    heartbeat_parse_error, heartbeat_parsed, parsed_header, rst_body, rst_parse_error, rst_parsed,
    spec_serialize_parts, syn_ack_body, syn_ack_parsed, syn_body, syn_parsed, AckPacket, DataPacket,
    FinPacket, HeartbeatPacket, RstPacket, SynAckPacket, SynPacket,
};
use crate::types::{policy_for_type, spec_sid_len, spec_tag_size, spec_ts_len, PacketType, SessionIdLength};
use crate::values::{Timestamp, ValidationError};

verus! {

/// A header whose every field survives being written: its cached layout agrees
/// with its version byte and its session identifier fits the width it is
/// written with.
pub open spec fn header_encodable(h: PacketHeader) -> bool {
    &&& h.wf()
    &&& h.session_id.0 < pow256(spec_sid_len(h.version_byte.spec_session_id_length()))
}

/// The header that reading back `h` gives: the timestamp truncated to whole
/// milliseconds that fit the timestamp width, the HMAC strength of the packet type.
pub open spec fn header_read_back(h: PacketHeader) -> PacketHeader {
    header_new(
        h.version_byte,
        h.packet_type,
        h.sub_type,
        h.flags,
        h.session_id,
        h.sequence_number,
        h.ack_number,
        Timestamp(
            (((h.timestamp.0 as nat / 1_000_000) % pow256(spec_ts_len(h.version_byte.spec_timestamp_config())))
                * 1_000_000) as u64,
        ),
        h.payload_length,
        policy_for_type(h.packet_type),
    )
}

/// The bytes that a successful serialization leaves at the start of the buffer
/// are the header's bytes followed by the two parts.
pub proof fn lemma_serialized_prefix(h: PacketHeader, buffer: Seq<u8>, first: Seq<u8>, second: Seq<u8>)
    requires
        h.wf(),
        buffer.len() <= usize::MAX,
        spec_serialize_parts(h, buffer, first, second).0 is Ok,
    ensures
        spec_serialize_parts(h, buffer, first, second).1.subrange(
            0,
            spec_serialize_parts(h, buffer, first, second).0->Ok_0 as int,
        ) =~= header_bytes(h) + first + second,
{
    lemma_header_bytes_len(h);
    let n = h.spec_header_size() + first.len() + second.len();
    assert(buffer.len() >= n);
    assert(spec_serialize_parts(h, buffer, first, second).0->Ok_0 == n);
}

/// Reading back a header followed by `body`: the header is read back, the
/// packet fields start after the header and a tag of the packet type's
/// strength, and the bytes after the header are `body`.
pub proof fn lemma_fields_follow_header(h: PacketHeader, body: Seq<u8>)
    requires
        header_encodable(h),
    ensures
        spec_deserialize_header(header_bytes(h) + body) == Ok::<PacketHeader, ValidationError>(
            header_read_back(h),
        ),
        parsed_header(header_bytes(h) + body) == header_read_back(h),
        header_read_back(h).spec_header_size() == layout_size(h.version_byte),
        header_bytes(h).len() == layout_size(h.version_byte),
        fields_offset(header_bytes(h) + body) == layout_size(h.version_byte) + spec_tag_size(
            policy_for_type(h.packet_type),
        ),
        (header_bytes(h) + body).subrange(
            layout_size(h.version_byte) as int,
            (header_bytes(h) + body).len() as int,
        ) == body,
{
    lemma_header_roundtrip(h, body);
    lemma_header_bytes_len(h);
    assert((header_bytes(h) + body).subrange(
        layout_size(h.version_byte) as int,
        (header_bytes(h) + body).len() as int,
    ) =~= body);
}

/// `v` read back from its `n`-byte encoding, when it fits.
proof fn lemma_int_read_back(v: nat, n: nat)
    requires
        v < pow256(n),
    ensures
        be_decode(be_encode(v, n)) == v,
        be_encode(v, n).len() == n,
{
    lemma_decode_encode(v, n);
    lemma_be_encode_len(v, n);
    vstd::arithmetic::div_mod::lemma_small_mod(v, pow256(n));
}

/// A HEARTBEAT packet read back from its bytes has the header read back, the
/// same tag, heartbeat sequence and round-trip time.
pub proof fn lemma_heartbeat_roundtrip(p: HeartbeatPacket, q: HeartbeatPacket)
    requires
        header_encodable(p.header),
        p.header.packet_type == PacketType::Heartbeat,
        p.hmac.data@.len() == spec_tag_size(policy_for_type(PacketType::Heartbeat)),
    ensures
        heartbeat_parse_error(header_bytes(p.header) + heartbeat_body(p)) is None,
        heartbeat_parsed(header_bytes(p.header) + heartbeat_body(p), q) ==> {
            &&& q.header == header_read_back(p.header)
            &&& q.hmac.data@ == p.hmac.data@
            &&& q.heartbeat_sequence == p.heartbeat_sequence
            &&& q.rtt_measurement == p.rtt_measurement
        },
{
    let body = heartbeat_body(p);
    let b = header_bytes(p.header) + body;
    lemma_fields_follow_header(p.header, body);
    lemma_pow256_values();
    let hs = layout_size(p.header.version_byte) as int;
    let tl = p.hmac.data@.len() as int;
    let o = hs + tl;
    lemma_int_read_back(p.heartbeat_sequence.0 as nat, 4);
    assert(b.subrange(hs, b.len() as int) == body);
    assert(b.subrange(hs, o) =~= p.hmac.data@);
    assert(b.subrange(o, o + 4) =~= be_encode(p.heartbeat_sequence.0 as nat, 4));
    match p.rtt_measurement {
        Some(t) => {
            lemma_int_read_back(t.0 as nat, 8);
            assert(b.subrange(o + 4, o + 12) =~= be_encode(t.0 as nat, 8));
        },
        None => {},
    }
}

/// A SYN packet read back from its bytes has the header read back and the same
/// tag, initial sequence, protocol version, public key, PSK hash and key
/// exchange identifier.
pub proof fn lemma_syn_roundtrip(p: SynPacket, q: SynPacket)
    requires
        header_encodable(p.header),
        p.header.packet_type == PacketType::Syn,
        p.hmac.data@.len() == spec_tag_size(policy_for_type(PacketType::Syn)),
    ensures
        body_parse_error(header_bytes(p.header) + syn_body(p), PacketType::Syn, 103) is None,
        syn_parsed(header_bytes(p.header) + syn_body(p), q) ==> {
            &&& q.header == header_read_back(p.header)
            &&& q.hmac.data@ == p.hmac.data@
            &&& q.initial_sequence == p.initial_sequence
            &&& q.protocol_version == p.protocol_version
            &&& q.client_public_key == p.client_public_key
            &&& q.psk_auth_hash == p.psk_auth_hash
            &&& q.key_exchange_id == p.key_exchange_id
        },
{
    let body = syn_body(p);
    let b = header_bytes(p.header) + body;
    lemma_fields_follow_header(p.header, body);
    lemma_pow256_values();
    let hs = layout_size(p.header.version_byte) as int;
    let o = hs + p.hmac.data@.len();
    lemma_int_read_back(p.initial_sequence.0 as nat, 4);
    lemma_int_read_back(p.key_exchange_id as nat, 2);
    assert(b.subrange(hs, b.len() as int) == body);
    assert(b.subrange(hs, o) =~= p.hmac.data@);
    assert(b.subrange(o, o + 4) =~= be_encode(p.initial_sequence.0 as nat, 4));
    assert(b[o + 4] == p.protocol_version.0);
    assert(b.subrange(o + 5, o + 69) =~= p.client_public_key.0@);
    assert(b.subrange(o + 69, o + 101) =~= p.psk_auth_hash@);
    assert(b.subrange(o + 101, o + 103) =~= be_encode(p.key_exchange_id as nat, 2));
    if syn_parsed(b, q) {
        assert(q.client_public_key.0@ =~= p.client_public_key.0@);
        assert(q.psk_auth_hash@ =~= p.psk_auth_hash@);
        assert(q.client_public_key.0 =~= p.client_public_key.0);
        assert(q.psk_auth_hash =~= p.psk_auth_hash);
    }
}

/// A SYN-ACK packet read back from its bytes has the header read back and the
/// same tag, sequence numbers, protocol version, public key, key exchange
/// identifier and shared-secret verification.
pub proof fn lemma_syn_ack_roundtrip(p: SynAckPacket, q: SynAckPacket)
    requires
        header_encodable(p.header),
        p.header.packet_type == PacketType::SynAck,
        p.hmac.data@.len() == spec_tag_size(policy_for_type(PacketType::SynAck)),
    ensures
        body_parse_error(header_bytes(p.header) + syn_ack_body(p), PacketType::SynAck, 107) is None,
        syn_ack_parsed(header_bytes(p.header) + syn_ack_body(p), q) ==> {
            &&& q.header == header_read_back(p.header)
            &&& q.hmac.data@ == p.hmac.data@
            &&& q.server_sequence == p.server_sequence
            &&& q.ack_sequence == p.ack_sequence
            &&& q.protocol_version == p.protocol_version
            &&& q.server_public_key == p.server_public_key
            &&& q.key_exchange_id == p.key_exchange_id
            &&& q.shared_secret_verification == p.shared_secret_verification
        },
{
    let body = syn_ack_body(p);
    let b = header_bytes(p.header) + body;
    lemma_fields_follow_header(p.header, body);
    lemma_pow256_values();
    let hs = layout_size(p.header.version_byte) as int;
    let o = hs + p.hmac.data@.len();
    lemma_int_read_back(p.server_sequence.0 as nat, 4);
    lemma_int_read_back(p.ack_sequence.0 as nat, 4);
    lemma_int_read_back(p.key_exchange_id as nat, 2);
    assert(b.subrange(hs, b.len() as int) == body);
    assert(b.subrange(hs, o) =~= p.hmac.data@);
    assert(b.subrange(o, o + 4) =~= be_encode(p.server_sequence.0 as nat, 4));
    assert(b.subrange(o + 4, o + 8) =~= be_encode(p.ack_sequence.0 as nat, 4));
    assert(b[o + 8] == p.protocol_version.0);
    assert(b.subrange(o + 9, o + 73) =~= p.server_public_key.0@);
    assert(b.subrange(o + 73, o + 75) =~= be_encode(p.key_exchange_id as nat, 2));
    assert(b.subrange(o + 75, o + 107) =~= p.shared_secret_verification@);
    if syn_ack_parsed(b, q) {
        assert(q.server_public_key.0@ =~= p.server_public_key.0@);
        assert(q.shared_secret_verification@ =~= p.shared_secret_verification@);
        assert(q.server_public_key.0 =~= p.server_public_key.0);
        assert(q.shared_secret_verification =~= p.shared_secret_verification);
    }
}

/// An ACK packet without selective acknowledgment read back from its bytes has
/// the header read back, the same tag and window size, and no selective
/// acknowledgment.
pub proof fn lemma_ack_roundtrip(p: AckPacket, q: AckPacket)
    requires
        header_encodable(p.header),
        p.header.packet_type == PacketType::Ack,
        p.hmac.data@.len() == spec_tag_size(policy_for_type(PacketType::Ack)),
        p.sack_data is None,
    ensures
        body_parse_error(header_bytes(p.header) + ack_body(p), PacketType::Ack, 4) is None,
        ack_parsed(header_bytes(p.header) + ack_body(p), q) ==> {
            &&& q.header == header_read_back(p.header)
            &&& q.hmac.data@ == p.hmac.data@
            &&& q.window_size == p.window_size
            &&& q.sack_data is None
        },
{
    let body = ack_body(p);
    let b = header_bytes(p.header) + body;
    lemma_fields_follow_header(p.header, body);
    lemma_pow256_values();
    let hs = layout_size(p.header.version_byte) as int;
    let o = hs + p.hmac.data@.len();
    lemma_int_read_back(p.window_size.0 as nat, 4);
    assert(b.subrange(hs, b.len() as int) == body);
    assert(b.subrange(hs, o) =~= p.hmac.data@);
    assert(b.subrange(o, o + 4) =~= be_encode(p.window_size.0 as nat, 4));
}

/// A DATA packet whose fragmentation header is present exactly when its
/// header's fragment flag is set, read back from its bytes, has the header
/// read back and the same tag, window size, fragmentation header and payload.
pub proof fn lemma_data_roundtrip(p: DataPacket, q: DataPacket)
    requires
        header_encodable(p.header),
        p.header.packet_type == PacketType::Data,
        p.hmac.data@.len() == spec_tag_size(policy_for_type(PacketType::Data)),
        (p.fragment_header is Some) == (p.header.flags.0 & 0x40 != 0),
    ensures
        data_parse_error(header_bytes(p.header) + data_body(p)) is None,
        data_parsed(header_bytes(p.header) + data_body(p), q) ==> {
            &&& q.header == header_read_back(p.header)
            &&& q.hmac.data@ == p.hmac.data@
            &&& q.window_size == p.window_size
            &&& q.fragment_header == p.fragment_header
            &&& q.payload@ == p.payload@
        },
{
    let body = data_body(p);
    let b = header_bytes(p.header) + body;
    lemma_fields_follow_header(p.header, body);
    lemma_pow256_values();
    let hs = layout_size(p.header.version_byte) as int;
    let o = hs + p.hmac.data@.len();
    lemma_int_read_back(p.window_size.0 as nat, 4);
    assert(b.subrange(hs, b.len() as int) == body);
    assert(b.subrange(hs, o) =~= p.hmac.data@);
    assert(b.subrange(o, o + 4) =~= be_encode(p.window_size.0 as nat, 4));
    match p.fragment_header {
        Some(f) => {
            lemma_int_read_back(f.fragment_id.0 as nat, 2);
            lemma_int_read_back(f.fragment_index.0 as nat, 2);
            lemma_int_read_back(f.fragment_count.0 as nat, 2);
            lemma_int_read_back(f.fragment_size.0 as nat, 2);
            assert(b.subrange(o + 4, o + 6) =~= be_encode(f.fragment_id.0 as nat, 2));
            assert(b.subrange(o + 6, o + 8) =~= be_encode(f.fragment_index.0 as nat, 2));
            assert(b.subrange(o + 8, o + 10) =~= be_encode(f.fragment_count.0 as nat, 2));
            assert(b.subrange(o + 10, o + 12) =~= be_encode(f.fragment_size.0 as nat, 2));
            assert(b.subrange(o + 12, b.len() as int) =~= p.payload@);
        },
        None => {
            assert(b.subrange(o + 4, b.len() as int) =~= p.payload@);
        },
    }
}

/// A FIN packet read back from its bytes has the header read back and the same
/// tag, final sequence number and reason.
pub proof fn lemma_fin_roundtrip(p: FinPacket, q: FinPacket)
    requires
        header_encodable(p.header),
        p.header.packet_type == PacketType::Fin,
        p.hmac.data@.len() == spec_tag_size(policy_for_type(PacketType::Fin)),
    ensures
        fin_parse_error(header_bytes(p.header) + fin_body(p)) is None,
        fin_parsed(header_bytes(p.header) + fin_body(p), q) ==> {
            &&& q.header == header_read_back(p.header)
            &&& q.hmac.data@ == p.hmac.data@
            &&& q.final_sequence == p.final_sequence
            &&& q.reason == p.reason
        },
{
    let body = fin_body(p);
    let b = header_bytes(p.header) + body;
    lemma_fields_follow_header(p.header, body);
    lemma_pow256_values();
    let hs = layout_size(p.header.version_byte) as int;
    let o = hs + p.hmac.data@.len();
    lemma_int_read_back(p.final_sequence.0 as nat, 4);
    assert(b.subrange(hs, b.len() as int) == body);
    assert(b.subrange(hs, o) =~= p.hmac.data@);
    assert(b.subrange(o, o + 4) =~= be_encode(p.final_sequence.0 as nat, 4));
    assert(b[o + 4] == crate::values::termination_code(p.reason));
}

/// An RST packet read back from its bytes has the header read back and the
/// same tag, reason and error code.
pub proof fn lemma_rst_roundtrip(p: RstPacket, q: RstPacket)
    requires
        header_encodable(p.header),
        p.header.packet_type == PacketType::Rst,
        p.hmac.data@.len() == spec_tag_size(policy_for_type(PacketType::Rst)),
    ensures
        rst_parse_error(header_bytes(p.header) + rst_body(p)) is None,
        rst_parsed(header_bytes(p.header) + rst_body(p), q) ==> {
            &&& q.header == header_read_back(p.header)
            &&& q.hmac.data@ == p.hmac.data@
            &&& q.reason == p.reason
            &&& q.error_code == p.error_code
        },
{
    let body = rst_body(p);
    let b = header_bytes(p.header) + body;
    lemma_fields_follow_header(p.header, body);
    let hs = layout_size(p.header.version_byte) as int;
    let o = hs + p.hmac.data@.len();
    assert(b.subrange(hs, b.len() as int) == body);
    assert(b.subrange(hs, o) =~= p.hmac.data@);
    assert(b[o] == crate::values::reset_code(p.reason));
    match p.error_code {
        Some(c) => {
            assert(b[o + 1] == c.0);
        },
        None => {},
    }
}

} // verus!
