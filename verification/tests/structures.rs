use buckwild_protocol::packet::header::PacketHeader;
use buckwild_protocol::packet::structures::{HeartbeatPacket, SynAckPacket, SynPacket};
use buckwild_protocol::types::{HmacPolicy, PacketFlags, PacketType, SessionIdLength, SubType, TimestampConfig, VersionByte};
use buckwild_protocol::values::{
    AckNumber, ConnectionParams, EcdhPublicKey, HeartbeatSequence, HmacTag, PayloadLength,
    ProtocolVersion, RoundTripTime, SequenceNumber, SessionConfig, SessionId, Timestamp,
};

fn header(packet_type: PacketType, session: u64, seq: u32, ack: u32, policy: HmacPolicy) -> PacketHeader {
    PacketHeader::new(
        VersionByte::new(1, SessionIdLength::Bits64, TimestampConfig::Bits32),
        packet_type,
        SubType::new(0),
        PacketFlags::from_u8(0),
        SessionId::new(session),
        SequenceNumber::new(seq),
        AckNumber::new(ack),
        Timestamp::now(),
        PayloadLength::new(0),
        policy,
    )
}

#[test]
fn test_heartbeat_packet_serialize_deserialize() {
    let session_id = SessionId::new(12345);
    let sequence = SequenceNumber::new(100);
    let hmac_policy = HmacPolicy::Medium;
    let header = header(PacketType::Heartbeat, 12345, 100, 99, hmac_policy);
    let hmac = HmacTag::new(vec![0u8; hmac_policy.tag_size()], hmac_policy).unwrap();
    let heartbeat_seq = HeartbeatSequence::new(42);
    let rtt = RoundTripTime::from_millis(150);
    let packet = HeartbeatPacket {
        header,
        hmac,
        heartbeat_sequence: heartbeat_seq,
        rtt_measurement: Some(rtt),
    };
    let mut buffer = vec![0u8; 256];
    let size = packet.serialize(&mut buffer).unwrap();
    let deserialized = HeartbeatPacket::deserialize(&buffer[..size]).unwrap();
    assert_eq!(deserialized.header.session_id(), session_id);
    assert_eq!(deserialized.header.sequence_number(), sequence);
    assert_eq!(deserialized.heartbeat_sequence.as_u32(), heartbeat_seq.as_u32());
    assert!(deserialized.rtt_measurement.is_some());
    assert_eq!(deserialized.rtt_measurement.unwrap().as_millis(), rtt.as_millis());
}

#[test]
fn test_heartbeat_packet_new() {
    let header = header(PacketType::Heartbeat, 99999, 0, 0, HmacPolicy::Light);
    let hmac = HmacTag::new(vec![0u8; 8], HmacPolicy::Light).unwrap();
    let packet = HeartbeatPacket {
        header,
        hmac,
        heartbeat_sequence: HeartbeatSequence::new(0),
        rtt_measurement: None,
    };
    assert_eq!(packet.header.packet_type(), PacketType::Heartbeat);
    assert_eq!(packet.heartbeat_sequence.as_u32(), 0);
    assert!(packet.rtt_measurement.is_none());
}

#[test]
fn test_syn_packet_has_psk_auth_hash_field() {
    let syn_packet = SynPacket {
        header: header(PacketType::Syn, 12345, 1, 0, HmacPolicy::Strong),
        hmac: HmacTag::new(vec![0u8; 32], HmacPolicy::Strong).unwrap(),
        initial_sequence: SequenceNumber::new(1),
        protocol_version: ProtocolVersion::new(1),
        session_config: SessionConfig::default(),
        connection_params: ConnectionParams::default(),
        client_public_key: EcdhPublicKey::new([0u8; 64]),
        psk_auth_hash: [0u8; 32],
        key_exchange_id: 0x1234,
    };
    assert_eq!(syn_packet.psk_auth_hash.len(), 32);
    assert_eq!(syn_packet.key_exchange_id, 0x1234);
}

fn syn_ack(seq: u32, tag: u8, key: u8, kx: u16, verification: u8) -> SynAckPacket {
    SynAckPacket {
        header: header(PacketType::SynAck, 12345, seq, 1, HmacPolicy::Strong),
        hmac: HmacTag::new(vec![tag; 32], HmacPolicy::Strong).unwrap(),
        ack_sequence: SequenceNumber::new(1),
        server_sequence: SequenceNumber::new(seq),
        protocol_version: ProtocolVersion::new(1),
        session_config: SessionConfig::default(),
        connection_params: ConnectionParams::default(),
        server_public_key: EcdhPublicKey::new([key; 64]),
        key_exchange_id: kx,
        shared_secret_verification: [verification; 32],
    }
}

#[test]
fn test_syn_ack_packet_has_server_public_key_field() {
    let syn_ack_packet = syn_ack(1, 0, 0x22, 0x1234, 0xAA);
    assert_eq!(syn_ack_packet.server_public_key.as_bytes().len(), 64);
    assert_eq!(syn_ack_packet.key_exchange_id, 0x1234);
    assert_eq!(syn_ack_packet.shared_secret_verification.len(), 32);
}

#[test]
fn test_syn_ack_serialization_includes_server_public_key() {
    let syn_ack_packet = syn_ack(100, 0xAA, 0x33, 0x5678, 0xBB);
    let mut buffer = vec![0u8; 512];
    let size = syn_ack_packet.serialize(&mut buffer).unwrap();
    let header_size = syn_ack_packet.header.header_size();
    let server_public_key_offset = header_size + 32 + 4 + 4 + 1;
    let key_exchange_id_offset = server_public_key_offset + 64;
    let verification_offset = key_exchange_id_offset + 2;
    assert!(size >= verification_offset + 32);
    assert_eq!(&buffer[server_public_key_offset..server_public_key_offset + 64], &[0x33u8; 64]);
    let serialized_key_exchange_id = u16::from_be_bytes([buffer[key_exchange_id_offset], buffer[key_exchange_id_offset + 1]]);
    assert_eq!(serialized_key_exchange_id, 0x5678);
    assert_eq!(&buffer[verification_offset..verification_offset + 32], &[0xBBu8; 32]);
}

#[test]
fn test_syn_ack_deserialization_extracts_server_public_key() {
    let syn_ack_packet = syn_ack(200, 0xBB, 0x44, 0x9ABC, 0xCC);
    let mut buffer = vec![0u8; 512];
    let size = syn_ack_packet.serialize(&mut buffer).unwrap();
    let deserialized = SynAckPacket::deserialize(&buffer[..size]).unwrap();
    assert_eq!(deserialized.server_public_key.as_bytes(), &[0x44u8; 64]);
    assert_eq!(deserialized.key_exchange_id, 0x9ABC);
    assert_eq!(deserialized.shared_secret_verification, [0xCCu8; 32]);
}

#[test]
fn test_syn_ack_has_shared_secret_verification_field() {
    let syn_ack = syn_ack(1, 0, 0x22, 0x1234, 0xDD);
    assert_eq!(syn_ack.shared_secret_verification.len(), 32, "Verification field must be 32 bytes");
}
