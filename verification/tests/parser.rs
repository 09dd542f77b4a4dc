use buckwild_protocol::packet::builder::{DataPacketBuilder, ErrorPacketBuilder, PacketBuilderEngine};
use buckwild_protocol::packet::parser::PacketParserEngine;
use buckwild_protocol::packet::replay::AntiReplayConfig;
use buckwild_protocol::packet::structures::{ErrorPacket, Packet};
use buckwild_protocol::types::{HmacPolicy, PacketType, SessionIdLength, TimestampConfig, VersionByte};
use buckwild_protocol::values::{EcdhPublicKey, ErrorCode, ErrorDescription, SequenceNumber, SessionId, ValidationError};

fn serialize_packet(packet: &Packet) -> Vec<u8> {
    let mut buffer = vec![0u8; 8192];
    let size = match packet {
        Packet::Syn(p) => p.serialize(&mut buffer).unwrap(),
        Packet::SynAck(p) => p.serialize(&mut buffer).unwrap(),
        Packet::Ack(p) => p.serialize(&mut buffer).unwrap(),
        Packet::Data(p) => p.serialize(&mut buffer).unwrap(),
        Packet::Fin(p) => p.serialize(&mut buffer).unwrap(),
        Packet::Rst(p) => p.serialize(&mut buffer).unwrap(),
        Packet::Heartbeat(p) => p.serialize(&mut buffer).unwrap(),
        Packet::Error(p) => p.serialize(&mut buffer).unwrap(),
        Packet::Control(p) => p.serialize(&mut buffer).unwrap(),
        Packet::Management(p) => p.serialize(&mut buffer).unwrap(),
        Packet::Discovery(p) => p.serialize(&mut buffer).unwrap(),
    };
    buffer.truncate(size);
    buffer
}

#[test]
fn test_parser_engine_creation() {
    let parser = PacketParserEngine::new();
    assert_eq!(parser.max_packet_size, 65536);
}

#[test]
fn test_parse_empty_packet_fails() {
    let mut parser_engine = PacketParserEngine::new();
    let result = parser_engine.parse_packet(&[]);
    assert!(result.is_err());
    assert!(matches!(result.unwrap_err(), ValidationError::InvalidLength));
}

#[test]
fn test_parse_packet_too_small_fails() {
    let mut parser_engine = PacketParserEngine::new();
    let result = parser_engine.parse_packet(&[0x01, 0x02]);
    assert!(result.is_err());
}

#[test]
fn test_parse_packet_too_large_fails() {
    let mut parser_engine = PacketParserEngine::new();
    let large_buffer = vec![0u8; 70000];
    let result = parser_engine.parse_packet(&large_buffer);
    assert!(result.is_err());
}

#[test]
fn test_parse_invalid_version_fails() {
    let mut parser_engine = PacketParserEngine::new();
    let mut buffer = vec![0u8; 100];
    buffer[0] = 0x02;
    buffer[1] = PacketType::Data.as_u8();
    let result = parser_engine.parse_packet(&buffer);
    assert!(result.is_err());
}

#[test]
fn test_validate_packet_integrity_checks_minimum_size() {
    let parser_engine = PacketParserEngine::new();
    let result = parser_engine.validate_packet_integrity(&[0x01, 0x04]);
    assert!(result.is_err());
}

#[test]
fn test_parser_with_custom_max_size() {
    let mut parser_engine = PacketParserEngine::with_config(1000, true);
    let large_buffer = vec![0u8; 2000];
    let result = parser_engine.parse_packet(&large_buffer);
    assert!(result.is_err());
}

fn parser_with_timestamp_validation_disabled() -> PacketParserEngine {
    let config = AntiReplayConfig { timestamp_validation: false, ..AntiReplayConfig::default() };
    PacketParserEngine::with_anti_replay_config(65536, true, config)
}

fn data_packet_bytes(session: u64, seq: u32, payload: Vec<u8>) -> Option<Vec<u8>> {
    let builder = DataPacketBuilder::new(
        VersionByte::new(1, SessionIdLength::Bits64, TimestampConfig::Bits32),
        HmacPolicy::Medium,
    )
    .session_id(SessionId::new(session))
    .sequence_number(SequenceNumber::new(seq))
    .payload(payload);
    builder.build().ok().map(|p| serialize_packet(&Packet::Data(p)))
}

#[test]
fn test_anti_replay_fresh_packet_accept() {
    let mut parser_engine = parser_with_timestamp_validation_disabled();
    if let Some(serialized) = data_packet_bytes(12345, 1, vec![1, 2, 3, 4]) {
        let result = parser_engine.parse_packet(&serialized);
        assert!(result.is_ok(), "Fresh packet should be accepted: {:?}", result.err());
    } else {
        panic!("Failed to build packet");
    }
}

#[test]
fn test_anti_replay_old_timestamp_reject() {}

#[test]
fn test_anti_replay_duplicate_reject() {
    let mut parser_engine = parser_with_timestamp_validation_disabled();
    if let Some(serialized) = data_packet_bytes(12346, 1, vec![1, 2, 3, 4]) {
        let result1 = parser_engine.parse_packet(&serialized);
        assert!(result1.is_ok(), "First packet should be accepted");
        let result2 = parser_engine.parse_packet(&serialized);
        assert!(result2.is_err(), "Duplicate packet should be rejected");
        if let Err(e) = result2 {
            assert!(matches!(e, ValidationError::ReplayAttackDetected), "Should be replay attack error");
        }
    } else {
        panic!("Failed to build packet");
    }
}

#[test]
fn test_anti_replay_out_of_order_accept() {
    let mut parser_engine = parser_with_timestamp_validation_disabled();
    if let Some(serialized1) = data_packet_bytes(12347, 10, vec![1, 2, 3, 4]) {
        let result1 = parser_engine.parse_packet(&serialized1);
        assert!(result1.is_ok(), "First packet (seq 10) should be accepted");
    } else {
        return;
    }
    if let Some(serialized2) = data_packet_bytes(12347, 5, vec![5, 6, 7, 8]) {
        let result2 = parser_engine.parse_packet(&serialized2);
        assert!(result2.is_ok(), "Out of order packet within window should be accepted");
    }
}

#[test]
fn test_anti_replay_sequence_replay_reject() {
    let mut parser_engine = parser_with_timestamp_validation_disabled();
    if let Some(serialized1) = data_packet_bytes(12348, 100, vec![1, 2, 3, 4]) {
        let result1 = parser_engine.parse_packet(&serialized1);
        assert!(result1.is_ok(), "First packet should be accepted");
    } else {
        return;
    }
    if let Some(serialized2) = data_packet_bytes(12348, 100, vec![5, 6, 7, 8]) {
        let result2 = parser_engine.parse_packet(&serialized2);
        assert!(result2.is_err(), "Replay with same sequence should be rejected");
        if let Err(e) = result2 {
            assert!(matches!(e, ValidationError::ReplayAttackDetected), "Should be replay attack error");
        }
    }
}

fn signed_syn(session: u64, session_key: &[u8; 32]) -> Vec<u8> {
    let builder = PacketBuilderEngine::with_defaults(
        VersionByte::new(1, SessionIdLength::Bits64, TimestampConfig::Bits32),
        HmacPolicy::Strong,
    );
    let packet = builder
        .syn()
        .session_id(SessionId::new(session))
        .initial_sequence(SequenceNumber::new(1))
        .client_public_key(EcdhPublicKey::new([0x55u8; 64]))
        .build_with_hmac(session_key)
        .expect("Failed to build packet with HMAC");
    serialize_packet(&Packet::Syn(packet))
}

#[test]
fn test_hmac_verification_valid_packet() {
    let mut parser = parser_with_timestamp_validation_disabled();
    let session_key = [0x42u8; 32];
    let serialized = signed_syn(99999, &session_key);
    let result = parser.parse_packet_with_hmac(&serialized, &session_key);
    assert!(result.is_ok(), "Valid HMAC should pass verification");
}

#[test]
fn test_hmac_verification_invalid_hmac() {
    let mut parser = PacketParserEngine::new();
    let session_key = [0x42u8; 32];
    let wrong_key = [0x99u8; 32];
    let serialized = signed_syn(88888, &session_key);
    let result = parser.parse_packet_with_hmac(&serialized, &wrong_key);
    assert!(result.is_err(), "Invalid HMAC should fail verification");
    assert!(matches!(result.unwrap_err(), ValidationError::InvalidHmacTag));
}

#[test]
fn test_hmac_verification_truncated_packet() {
    let mut parser = PacketParserEngine::new();
    let session_key = [0x42u8; 32];
    let mut serialized = signed_syn(77777, &session_key);
    serialized.truncate(serialized.len() - 8);
    let result = parser.parse_packet_with_hmac(&serialized, &session_key);
    assert!(result.is_err(), "Truncated packet should fail verification");
    assert!(matches!(result.unwrap_err(), ValidationError::InvalidHmacTag));
}

#[test]
fn test_hmac_verification_explicit_policy() {
    let mut parser = parser_with_timestamp_validation_disabled();
    let session_key = [0x42u8; 32];
    let serialized = signed_syn(66666, &session_key);
    let result = parser.parse_packet_with_hmac(&serialized, &session_key);
    assert!(result.is_ok(), "Packet with explicit Strong policy should verify");
}

#[test]
fn test_hmac_verification_constant_time() {
    let mut parser = PacketParserEngine::new();
    let session_key = [0x42u8; 32];
    let wrong_key = [0x99u8; 32];
    let serialized = signed_syn(55555, &session_key);
    let iterations = 1000;
    let start_correct = std::time::Instant::now();
    for _ in 0..iterations {
        let _ = parser.parse_packet_with_hmac(&serialized, &session_key);
    }
    let duration_correct = start_correct.elapsed();
    let start_wrong = std::time::Instant::now();
    for _ in 0..iterations {
        let _ = parser.parse_packet_with_hmac(&serialized, &wrong_key);
    }
    let duration_wrong = start_wrong.elapsed();
    let ratio = duration_correct.as_nanos() as f64 / duration_wrong.as_nanos() as f64;
    assert!(ratio > 0.5 && ratio < 2.0, "Timing leak detected: ratio = {:.2}", ratio);
}

#[test]
fn test_hmac_failure_counter() {
    let mut parser = PacketParserEngine::new();
    let session_key = [0x42u8; 32];
    let wrong_key = [0x99u8; 32];
    assert_eq!(parser.hmac_failure_count(), 0);
    let serialized = signed_syn(44444, &session_key);
    let _ = parser.parse_packet_with_hmac(&serialized, &wrong_key);
    assert_eq!(parser.hmac_failure_count(), 1);
    let _ = parser.parse_packet_with_hmac(&serialized, &wrong_key);
    let _ = parser.parse_packet_with_hmac(&serialized, &wrong_key);
    assert_eq!(parser.hmac_failure_count(), 3);
    parser.reset_hmac_failures();
    assert_eq!(parser.hmac_failure_count(), 0);
}

#[test]
fn test_hmac_no_key_material_in_logs() {
    let mut parser = PacketParserEngine::new();
    let session_key = [0x42u8; 32];
    let wrong_key = [0x99u8; 32];
    let serialized = signed_syn(33333, &session_key);
    let result = parser.parse_packet_with_hmac(&serialized, &wrong_key);
    assert!(result.is_err());
    let error_msg = format!("{:?}", result.unwrap_err());
    for byte in session_key.iter() {
        let hex = format!("{:02x}", byte);
        assert!(!error_msg.contains(&hex), "Error message contains key material");
    }
}

fn error_packet_bytes(code: u8, description: &str) -> Vec<u8> {
    let packet = ErrorPacketBuilder::new(
        VersionByte::new(1, SessionIdLength::Bits16, TimestampConfig::Bits16),
        HmacPolicy::Medium,
    )
    .session_id(SessionId::new(77))
    .error_code(ErrorCode::new(code))
    .error_description(ErrorDescription::new(description.to_string()))
    .build()
    .unwrap();
    serialize_packet(&Packet::Error(packet))
}

#[test]
fn error_packet_reads_back_its_description() {
    let bytes = error_packet_bytes(7, "boom");
    let p = ErrorPacket::deserialize(&bytes).unwrap();
    assert_eq!(p.error_code.0, 7);
    assert_eq!(p.error_description.as_str(), "boom");
    assert!(p.error_context.is_none());
}

#[test]
fn parser_reads_an_error_packet_from_its_raw_payload() {
    let bytes = error_packet_bytes(7, "boom");
    let mut parser_engine = parser_with_timestamp_validation_disabled();
    match parser_engine.parse_packet(&bytes).unwrap() {
        Packet::Error(p) => {
            assert_eq!(p.error_code.0, 7);
            // The description is read from the byte after the code, the length byte included.
            assert_eq!(p.error_description.as_str(), "\u{4}boom");
        }
        other => panic!("expected an ERROR packet, got {:?}", other),
    }
}

#[test]
fn parser_replaces_invalid_utf8_in_error_descriptions() {
    let mut bytes = error_packet_bytes(2, "ab");
    let n = bytes.len();
    bytes[n - 1] = 0xFF;
    let mut parser_engine = parser_with_timestamp_validation_disabled();
    match parser_engine.parse_packet(&bytes).unwrap() {
        Packet::Error(p) => assert_eq!(p.error_description.as_str(), "\u{2}a\u{FFFD}"),
        other => panic!("expected an ERROR packet, got {:?}", other),
    }
    assert!(ErrorPacket::deserialize(&bytes).is_err());
}

#[test]
fn reset_then_one_failure_counts_one() {
    let mut parser = PacketParserEngine::new();
    let session_key = [0x42u8; 32];
    let wrong_key = [0x99u8; 32];
    let serialized = signed_syn(55555, &session_key);
    let _ = parser.parse_packet_with_hmac(&serialized, &wrong_key);
    let _ = parser.parse_packet_with_hmac(&serialized, &wrong_key);
    parser.reset_hmac_failures();
    assert_eq!(parser.hmac_failure_count(), 0);
    assert!(parser.parse_packet_with_hmac(&serialized, &wrong_key).is_err());
    assert_eq!(parser.hmac_failure_count(), 1);
}
