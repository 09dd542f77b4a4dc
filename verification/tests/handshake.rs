use buckwild_protocol::packet::header::PacketHeader;
use buckwild_protocol::packet::structures::{SynAckPacket, SynPacket};
use buckwild_protocol::types::{HmacPolicy, PacketFlags, PacketType, SessionIdLength, SubType, TimestampConfig, VersionByte};
use buckwild_protocol::values::{
    AckNumber, ConnectionParams, EcdhPublicKey, HmacTag, PayloadLength, ProtocolVersion, SequenceNumber,
    SessionConfig, SessionId, Timestamp,
};
use ring::hmac;

fn header(t: PacketType, seq: u32, ack: u32) -> PacketHeader {
    PacketHeader::new(
        VersionByte::new(1, SessionIdLength::Bits64, TimestampConfig::Bits32),
        t,
        SubType::new(0),
        PacketFlags::from_u8(0),
        SessionId::new(12345),
        SequenceNumber::new(seq),
        AckNumber::new(ack),
        Timestamp::now(),
        PayloadLength::new(0),
        HmacPolicy::Strong,
    )
}

fn psk_hash(psk: &[u8], nonce: [u8; 16], challenge: [u8; 16]) -> [u8; 32] {
    let mut message = Vec::new();
    message.extend_from_slice(&nonce);
    message.extend_from_slice(&challenge);
    let key = hmac::Key::new(hmac::HMAC_SHA256, psk);
    hmac::sign(&key, &message).as_ref().try_into().unwrap()
}

fn verification(shared_secret: &[u8; 32], key_exchange_id: u16) -> [u8; 32] {
    let mut input = Vec::new();
    input.extend_from_slice(b"verification");
    input.extend_from_slice(&key_exchange_id.to_be_bytes());
    let key = hmac::Key::new(hmac::HMAC_SHA256, shared_secret);
    hmac::sign(&key, &input).as_ref().try_into().unwrap()
}

fn syn(psk_auth_hash: [u8; 32], key_exchange_id: u16) -> SynPacket {
    SynPacket {
        header: header(PacketType::Syn, 1, 0),
        hmac: HmacTag::new(vec![0xAAu8; 32], HmacPolicy::Strong).unwrap(),
        initial_sequence: SequenceNumber::new(1),
        protocol_version: ProtocolVersion::new(1),
        session_config: SessionConfig::default(),
        connection_params: ConnectionParams::default(),
        client_public_key: EcdhPublicKey::new([0x11u8; 64]),
        psk_auth_hash,
        key_exchange_id,
    }
}

#[test]
fn test_syn_packet_serialization_includes_psk_hash() {
    let psk_auth_hash = psk_hash(b"test_psk_for_serialization_test_", [0x01u8; 16], [0x02u8; 16]);
    let syn_packet = syn(psk_auth_hash, 0x5678);
    let mut buffer = vec![0u8; 512];
    let size = syn_packet.serialize(&mut buffer).unwrap();
    let header_size = syn_packet.header.header_size();
    let psk_hash_offset = header_size + 32 + 4 + 1 + 64;
    let key_exchange_id_offset = psk_hash_offset + 32;
    assert!(size >= key_exchange_id_offset + 2);
    assert_eq!(&buffer[psk_hash_offset..psk_hash_offset + 32], &psk_auth_hash);
    let serialized_key_exchange_id = u16::from_be_bytes([buffer[key_exchange_id_offset], buffer[key_exchange_id_offset + 1]]);
    assert_eq!(serialized_key_exchange_id, 0x5678);
}

#[test]
fn test_syn_packet_deserialization_extracts_psk_hash() {
    let psk_auth_hash = psk_hash(b"test_psk_for_deserialization_test", [0x03u8; 16], [0x04u8; 16]);
    let syn_packet = syn(psk_auth_hash, 0x9ABC);
    let mut buffer = vec![0u8; 512];
    let size = syn_packet.serialize(&mut buffer).unwrap();
    let deserialized = SynPacket::deserialize(&buffer[..size]).unwrap();
    assert_eq!(deserialized.psk_auth_hash, psk_auth_hash);
    assert_eq!(deserialized.key_exchange_id, 0x9ABC);
}

fn syn_ack(seq: u32, tag_byte: u8, key_byte: u8, key_exchange_id: u16, shared_secret_verification: [u8; 32]) -> SynAckPacket {
    SynAckPacket {
        header: header(PacketType::SynAck, seq, 1),
        hmac: HmacTag::new(vec![tag_byte; 32], HmacPolicy::Strong).unwrap(),
        ack_sequence: SequenceNumber::new(1),
        server_sequence: SequenceNumber::new(seq),
        protocol_version: ProtocolVersion::new(1),
        session_config: SessionConfig::default(),
        connection_params: ConnectionParams::default(),
        server_public_key: EcdhPublicKey::new([key_byte; 64]),
        key_exchange_id,
        shared_secret_verification,
    }
}

#[test]
fn test_shared_secret_verification_serialization() {
    let shared_secret_verification = verification(&[0x42u8; 32], 0x5678);
    let packet = syn_ack(100, 0xAA, 0x33, 0x5678, shared_secret_verification);
    let mut buffer = vec![0u8; 512];
    let size = packet.serialize(&mut buffer).unwrap();
    let verification_offset = packet.header.header_size() + 32 + 4 + 4 + 1 + 64 + 2;
    assert!(size >= verification_offset + 32);
    assert_eq!(
        &buffer[verification_offset..verification_offset + 32],
        &shared_secret_verification,
        "Serialized verification must match computed value"
    );
}

#[test]
fn test_syn_ack_roundtrip_with_verification() {
    let shared_secret_verification = verification(&[0x99u8; 32], 0xBBCC);
    let original = syn_ack(200, 0xBB, 0x44, 0xBBCC, shared_secret_verification);
    let mut buffer = vec![0u8; 512];
    let size = original.serialize(&mut buffer).unwrap();
    let deserialized = SynAckPacket::deserialize(&buffer[..size]).unwrap();
    assert_eq!(deserialized.shared_secret_verification, original.shared_secret_verification);
    assert_eq!(deserialized.key_exchange_id, original.key_exchange_id);
    assert_eq!(deserialized.server_public_key.as_bytes(), original.server_public_key.as_bytes());
}

use buckwild_protocol::packet::builder::PacketBuilderEngine;
use buckwild_protocol::packet::parser::PacketParserEngine;
use buckwild_protocol::packet::replay::AntiReplayConfig;
use buckwild_protocol::packet::structures::Packet;

#[test]
fn tag_length_follows_the_policy() {
    for (policy, len) in [(HmacPolicy::Light, 8), (HmacPolicy::Medium, 16), (HmacPolicy::Strong, 32)] {
        let p = PacketBuilderEngine::with_defaults(VersionByte::new(1, SessionIdLength::Bits64, TimestampConfig::Bits32), policy)
            .syn()
            .session_id(SessionId::new(77777))
            .initial_sequence(SequenceNumber::new(1))
            .client_public_key(EcdhPublicKey::new([0x55u8; 64]))
            .build_with_hmac(&[0x88u8; 32])
            .unwrap();
        assert_eq!(p.hmac.data().len(), len);
        assert_eq!(p.header.hmac_policy(), policy);
    }
}

#[test]
fn signed_syn_ack_authenticates_every_field() {
    let key = [0x31u8; 32];
    let vb = VersionByte::new(1, SessionIdLength::Bits64, TimestampConfig::Bits32);
    let p = PacketBuilderEngine::with_defaults(vb, HmacPolicy::Strong)
        .syn_ack()
        .session_id(SessionId::new(4242))
        .server_public_key(EcdhPublicKey::new([0x44u8; 64]))
        .shared_secret_verification([0x5Au8; 32])
        .build_with_hmac(&key)
        .unwrap();
    assert_eq!(p.hmac.data().len(), 32);
    let mut buf = vec![0u8; 512];
    let n = p.serialize(&mut buf).unwrap();
    let hs = p.header.header_size();
    let mut message = vec![PacketType::SynAck.as_u8()];
    message.extend_from_slice(&buf[..hs]);
    message.extend_from_slice(&buf[hs + 32..n]);
    let expected = hmac::sign(&hmac::Key::new(hmac::HMAC_SHA256, &key), &message);
    assert_eq!(p.hmac.data(), expected.as_ref());

    let config = AntiReplayConfig { timestamp_validation: false, ..AntiReplayConfig::default() };
    let mut parser = PacketParserEngine::with_anti_replay_config(65536, true, config);
    assert!(matches!(parser.parse_packet_with_hmac(&buf[..n], &key), Ok(Packet::SynAck(_))));

    // Changing the verification bytes breaks the tag.
    let mut tampered = buf[..n].to_vec();
    tampered[n - 1] ^= 0xFF;
    let mut parser = PacketParserEngine::with_anti_replay_config(65536, true, config);
    assert!(parser.parse_packet_with_hmac(&tampered, &key).is_err());
}
