use buckwild_protocol::fragmentation::engine::{
    FragmentationConfig, FragmentationEngine, FragmentationRequest, ReassemblyRequest, ReassemblyResult,
};
use buckwild_protocol::error::ProtocolError;
use buckwild_protocol::packet::builder::PacketBuilderEngine;
use buckwild_protocol::packet::header::PacketHeader;
use buckwild_protocol::packet::parser::PacketParserEngine;
use buckwild_protocol::packet::replay::{AntiReplayConfig, AntiReplayEngine};
use buckwild_protocol::packet::structures::{DataPacket, Packet};
use buckwild_protocol::types::{HmacPolicy, PacketFlags, PacketType, SessionIdLength, SubType, TimestampConfig, VersionByte};
use buckwild_protocol::values::{
    AckNumber, HmacTag, PayloadLength, SequenceNumber, SessionId, Timestamp, ValidationError, WindowSize,
};

fn data_packet(session: u64, seq: u32, payload: Vec<u8>) -> DataPacket {
    let header = PacketHeader::new(
        VersionByte::new(1, SessionIdLength::Bits32, TimestampConfig::Bits24),
        PacketType::Data,
        SubType::new(0),
        PacketFlags::new(),
        SessionId::new(session),
        SequenceNumber::new(seq),
        AckNumber::new(0),
        Timestamp::from_millis(1_000),
        PayloadLength::new(payload.len() as u16),
        HmacPolicy::Medium,
    );
    DataPacket { header, hmac: HmacTag::default(), window_size: WindowSize::new(65535), fragment_header: None, payload }
}

#[test]
fn fragments_reassemble_to_the_payload_in_any_order() {
    let mut engine = FragmentationEngine::new();
    let payload: Vec<u8> = (0..3000u32).map(|i| (i % 251) as u8).collect();
    let request = FragmentationRequest {
        session_id: SessionId::new(5),
        packet: data_packet(5, 77, payload.clone()),
        max_fragment_size: Some(1000),
        source_ip: 1,
    };
    let result = engine.fragment_packet(request).unwrap();
    assert_eq!(result.fragments.len(), 4);
    assert_eq!(result.fragment_count.as_u16(), 4);
    for f in &result.fragments {
        assert!(f.payload.len() <= 1000);
        assert_eq!(f.header.flags().as_u8() & 0x40, 0x40);
    }
    let order = [2usize, 0, 3, 1];
    let mut last = None;
    for (n, &i) in order.iter().enumerate() {
        let r = engine
            .process_fragment_at(ReassemblyRequest { fragment: result.fragments[i].clone(), source_ip: 1 }, Timestamp::from_millis(2_000))
            .unwrap();
        if n < 3 {
            assert!(matches!(r, ReassemblyResult::InProgress { .. }));
        }
        last = Some(r);
    }
    match last.unwrap() {
        ReassemblyResult::Complete { packet, fragment_count, .. } => {
            assert_eq!(packet.payload, payload);
            assert_eq!(packet.header.sequence_number().as_u32(), 77);
            assert_eq!(fragment_count.as_u16(), 4);
        }
        other => panic!("expected a complete packet, got {:?}", other),
    }
    assert_eq!(engine.get_stats().active_reassembly_contexts, 0);
}

#[test]
fn duplicate_fragment_is_rejected_without_checks() {
    let config = FragmentationConfig {
        enable_overlap_detection: false,
        enable_rate_limiting: false,
        enable_security_validation: false,
        ..FragmentationConfig::default()
    };
    let mut engine = FragmentationEngine::with_config(config);
    let request = FragmentationRequest {
        session_id: SessionId::new(5),
        packet: data_packet(5, 1, vec![3u8; 2500]),
        max_fragment_size: Some(1000),
        source_ip: 1,
    };
    let result = engine.fragment_packet(request).unwrap();
    let now = Timestamp::from_millis(10);
    let first = engine.process_fragment_at(ReassemblyRequest { fragment: result.fragments[0].clone(), source_ip: 1 }, now).unwrap();
    assert!(matches!(first, ReassemblyResult::InProgress { .. }));
    let again = engine.process_fragment_at(ReassemblyRequest { fragment: result.fragments[0].clone(), source_ip: 1 }, now).unwrap();
    match again {
        ReassemblyResult::Rejected { reason } => assert_eq!(reason, "Duplicate fragment"),
        other => panic!("expected a rejection, got {:?}", other),
    }
}

#[test]
fn too_many_fragments_names_the_count() {
    let config = FragmentationConfig { max_fragments_per_packet: buckwild_protocol::values::FragmentCount::new(3), ..FragmentationConfig::default() };
    let mut engine = FragmentationEngine::with_config(config);
    let request = FragmentationRequest {
        session_id: SessionId::new(1),
        packet: data_packet(1, 1, vec![0u8; 1000]),
        max_fragment_size: Some(108),
        source_ip: 1,
    };
    match engine.fragment_packet(request) {
        Err(ProtocolError::FragmentationError(m)) => assert_eq!(m, "Too many fragments needed: 10"),
        other => panic!("unexpected {:?}", other.map(|r| r.fragments.len())),
    }
}

#[test]
fn unfragmented_packet_is_refused_by_reassembly() {
    let mut engine = FragmentationEngine::new();
    let r = engine.process_fragment_at(ReassemblyRequest { fragment: data_packet(1, 1, vec![1; 20]), source_ip: 1 }, Timestamp::from_millis(1));
    assert_eq!(r.err(), Some(ProtocolError::FragmentationError("Packet is not fragmented".to_string())));
}

#[test]
fn replayed_header_is_refused_at_any_time() {
    let mut replay = AntiReplayEngine::from_config(AntiReplayConfig { timestamp_validation: false, max_timestamp_age_ms: 30_000 });
    let header = data_packet(3, 40, vec![1]).header;
    assert!(replay.validate_packet_at(&header, Timestamp::from_millis(5)).is_ok());
    assert_eq!(replay.validate_packet_at(&header, Timestamp::from_millis(5)), Err(ValidationError::ReplayAttackDetected));
    assert_eq!(replay.validate_packet_at(&header, Timestamp::from_millis(999_999)), Err(ValidationError::ReplayAttackDetected));
    let older = data_packet(3, 39, vec![1]).header;
    assert!(replay.validate_packet_at(&older, Timestamp::from_millis(5)).is_ok());
    let ancient = data_packet(3, 40 + 64, vec![1]).header;
    assert!(replay.validate_packet_at(&ancient, Timestamp::from_millis(5)).is_ok());
    assert_eq!(replay.validate_packet_at(&header, Timestamp::from_millis(5)), Err(ValidationError::ReplayAttackDetected));
}

#[test]
fn stale_timestamp_is_refused() {
    let mut replay = AntiReplayEngine::new();
    let header = data_packet(3, 1, vec![1]).header;
    assert_eq!(replay.validate_packet_at(&header, Timestamp::from_millis(40_000)), Err(ValidationError::ReplayAttackDetected));
    assert!(replay.validate_packet_at(&header, Timestamp::from_millis(20_000)).is_ok());
}

#[test]
fn signed_packet_authenticates_and_parses_once() {
    let key = [7u8; 32];
    let packet = PacketBuilderEngine::new()
        .heartbeat()
        .session_id(SessionId::new(1234))
        .build_with_hmac(&key)
        .unwrap();
    let mut buffer = vec![0u8; 256];
    let size = packet.serialize(&mut buffer).unwrap();
    buffer.truncate(size);
    let mut parser = PacketParserEngine::with_anti_replay_config(
        65536,
        true,
        AntiReplayConfig { timestamp_validation: false, max_timestamp_age_ms: 30_000 },
    );
    let parsed = parser.parse_packet_with_hmac(&buffer, &key);
    assert!(matches!(parsed, Ok(Packet::Heartbeat(_))), "{:?}", parsed.err());
    assert_eq!(parser.parse_packet_with_hmac(&buffer, &key).err(), Some(ValidationError::ReplayAttackDetected));
    let mut tampered = buffer.clone();
    let last = tampered.len() - 1;
    tampered[last] ^= 1;
    assert_eq!(parser.parse_packet_with_hmac(&tampered, &key).err(), Some(ValidationError::InvalidHmacTag));
    assert_eq!(parser.hmac_failure_count(), 1);
}

#[test]
fn default_engine_refuses_more_than_255_fragments() {
    let mut engine = FragmentationEngine::new();
    let request = |n: usize| FragmentationRequest {
        session_id: SessionId::new(1),
        packet: data_packet(1, 100, vec![42u8; n]),
        max_fragment_size: Some(100),
        source_ip: 0x7f00_0001,
    };
    let ok = engine.fragment_packet(request(255 * 92)).unwrap();
    assert_eq!(ok.fragments.len(), 255);
    assert!(engine.fragment_packet(request(256 * 92)).is_err());
}
