use buckwild_protocol::packet::builder::PacketBuilderEngine;
use buckwild_protocol::packet::structures::{
    ControlPayload, ManagementPayload, RecoveryPayload, RekeyRequestPayload, RekeyResponsePayload,
    RepairConfirmPayload, RepairRequestPayload, RepairResponsePayload, SequenceNegPayload,
    TimeSyncRequestPayload, TimeSyncResponsePayload,
};
use buckwild_protocol::types::{HmacPolicy, PacketFlags, PacketType, SessionIdLength, TimestampConfig, VersionByte};
use buckwild_protocol::values::{
    ClockSkew, EcdhPublicKey, ErrorCode, KdfParams, KeyId, NetworkDelay, RecoveryLevel,
    RecoveryNonce, RecoveryParams, RecoveryReason, RekeyReason, RekeyResult, RepairPriority,
    RepairResult, RepairType, SequenceNegFlags, SequenceNumber, SequenceRange, SessionId,
    SyncQuality, TimeDrift, Timestamp, WindowSize,
};

#[test]
fn test_packet_builder_engine_creation() {
    let engine = PacketBuilderEngine::new();
    let builder = engine.builder(PacketType::Data);
    assert_eq!(builder.packet_type, PacketType::Data);
}

#[test]
fn test_syn_packet_building() {
    let engine = PacketBuilderEngine::new();
    let session_id = SessionId::new(12345);
    let seq = SequenceNumber::new(100);
    let client_public_key = EcdhPublicKey::new([0u8; 64]);
    let result = engine
        .syn()
        .session_id(session_id)
        .initial_sequence(seq)
        .client_public_key(client_public_key)
        .build();
    assert!(result.is_ok());
    let packet = result.unwrap();
    assert_eq!(packet.header.session_id(), session_id);
}

#[test]
fn test_syn_ack_packet_building() {
    let engine = PacketBuilderEngine::new();
    let session_id = SessionId::new(54321);
    let seq = SequenceNumber::new(200);
    let ack = SequenceNumber::new(101);
    let server_public_key = EcdhPublicKey::new([0x55u8; 64]);
    let result = engine
        .syn_ack()
        .session_id(session_id)
        .server_sequence(seq)
        .ack_sequence(ack)
        .server_public_key(server_public_key)
        .build();
    assert!(result.is_ok());
    let packet = result.unwrap();
    assert_eq!(packet.header.session_id(), session_id);
    assert_eq!(packet.server_public_key.as_bytes(), &[0x55u8; 64]);
}

#[test]
fn test_ack_packet_building_skipped() {}

#[test]
fn test_data_packet_building() {
    let engine = PacketBuilderEngine::new();
    let session_id = SessionId::new(11111);
    let seq = SequenceNumber::new(1000);
    let payload_data = b"Test payload data";
    let result = engine
        .data()
        .session_id(session_id)
        .sequence_number(seq)
        .payload(payload_data.to_vec())
        .build();
    assert!(result.is_ok());
    let packet = result.unwrap();
    assert_eq!(packet.header.session_id(), session_id);
    assert_eq!(packet.payload.len(), payload_data.len());
}

#[test]
fn test_data_packet_with_empty_payload() {
    let engine = PacketBuilderEngine::new();
    let result = engine
        .data()
        .session_id(SessionId::new(22222))
        .sequence_number(SequenceNumber::new(2000))
        .payload(Vec::new())
        .build();
    assert!(result.is_ok());
    let packet = result.unwrap();
    assert_eq!(packet.payload.len(), 0);
}

#[test]
fn test_fin_packet_building() {
    let engine = PacketBuilderEngine::new();
    let result = engine.fin().session_id(SessionId::new(33333)).build();
    assert!(result.is_ok());
    let packet = result.unwrap();
    assert_eq!(packet.header.packet_type(), PacketType::Fin);
}

#[test]
fn test_rst_packet_building() {
    let engine = PacketBuilderEngine::new();
    let result = engine.rst().session_id(SessionId::new(44444)).build();
    assert!(result.is_ok());
    let packet = result.unwrap();
    assert_eq!(packet.header.packet_type(), PacketType::Rst);
}

#[test]
fn test_heartbeat_packet_building() {
    let engine = PacketBuilderEngine::new();
    let result = engine.heartbeat().session_id(SessionId::new(55555)).build();
    assert!(result.is_ok());
    let packet = result.unwrap();
    assert_eq!(packet.header.packet_type(), PacketType::Heartbeat);
}

#[test]
fn test_error_packet_building() {
    let engine = PacketBuilderEngine::new();
    let result = engine
        .error()
        .session_id(SessionId::new(66666))
        .error_code(ErrorCode::new(1))
        .build();
    assert!(result.is_ok());
    let packet = result.unwrap();
    assert_eq!(packet.header.packet_type(), PacketType::Error);
}

fn control_packet_type(session_id: u64, payload: ControlPayload) -> PacketType {
    let engine = PacketBuilderEngine::new();
    let result = engine.control().session_id(SessionId::new(session_id)).payload(payload).build();
    assert!(result.is_ok());
    result.unwrap().header.packet_type()
}

#[test]
fn test_control_packet_time_sync_request() {
    let payload = ControlPayload::TimeSyncRequest(TimeSyncRequestPayload {
        client_timestamp: Timestamp::now(),
        sync_quality: SyncQuality::new(100),
        max_drift: TimeDrift::new(1000),
    });
    assert_eq!(control_packet_type(777777, payload), PacketType::Control);
}

#[test]
fn test_control_packet_time_sync_response() {
    let payload = ControlPayload::TimeSyncResponse(TimeSyncResponsePayload {
        client_timestamp: Timestamp::now(),
        server_timestamp: Timestamp::now(),
        network_delay: NetworkDelay::new(50),
        clock_skew: ClockSkew::new(10),
    });
    assert_eq!(control_packet_type(888888, payload), PacketType::Control);
}

#[test]
fn test_control_packet_sequence_negotiation() {
    let payload = ControlPayload::SequenceNeg(SequenceNegPayload {
        proposed_sequence: SequenceNumber::new(10000),
        window_size: WindowSize::new(1024),
        flags: SequenceNegFlags::new(0),
    });
    assert_eq!(control_packet_type(999999, payload), PacketType::Control);
}

#[test]
fn test_control_packet_recovery() {
    let payload = ControlPayload::Recovery(RecoveryPayload {
        reason: RecoveryReason::TimeSync,
        nonce: RecoveryNonce(0x12345678),
        last_good_sequence: SequenceNumber::new(5000),
        recovery_params: RecoveryParams::new(RecoveryLevel::TimeSync),
    });
    assert_eq!(control_packet_type(111111, payload), PacketType::Control);
}

fn management_packet_type(session_id: u64, payload: ManagementPayload) -> PacketType {
    let engine = PacketBuilderEngine::new();
    let result = engine.management().session_id(SessionId::new(session_id)).payload(payload).build();
    assert!(result.is_ok());
    result.unwrap().header.packet_type()
}

#[test]
fn test_management_packet_rekey_request() {
    let payload = ManagementPayload::RekeyRequest(RekeyRequestPayload {
        key_id: KeyId::new([0x01; 16]),
        kdf_params: KdfParams::default(),
        reason: RekeyReason::Scheduled,
        effective_timestamp: Timestamp::now(),
    });
    assert_eq!(management_packet_type(222222, payload), PacketType::Management);
}

#[test]
fn test_management_packet_rekey_response() {
    let payload = ManagementPayload::RekeyResponse(RekeyResponsePayload {
        key_id: KeyId::new([0x02; 16]),
        result: RekeyResult::Success,
        confirmation_timestamp: Timestamp::now(),
    });
    assert_eq!(management_packet_type(333333, payload), PacketType::Management);
}

#[test]
fn test_management_packet_repair_request() {
    let payload = ManagementPayload::RepairRequest(RepairRequestPayload {
        repair_type: RepairType::Sequence,
        sequence_range: SequenceRange::new(SequenceNumber::new(1000), SequenceNumber::new(2000)),
        priority: RepairPriority::Normal,
    });
    assert_eq!(management_packet_type(444444, payload), PacketType::Management);
}

#[test]
fn test_management_packet_repair_response() {
    let payload = ManagementPayload::RepairResponse(RepairResponsePayload {
        result: RepairResult::Success,
        repaired_data: None,
        completion_timestamp: Timestamp::now(),
    });
    assert_eq!(management_packet_type(555555, payload), PacketType::Management);
}

#[test]
fn test_management_packet_repair_confirm() {
    let payload = ManagementPayload::RepairConfirm(RepairConfirmPayload {
        repair_nonce: RecoveryNonce(0xABCDEF12),
        confirmed_sequence: SequenceNumber::new(1500),
        confirmation_hmac: [0x99; 8],
    });
    assert_eq!(management_packet_type(666666, payload), PacketType::Management);
}

#[test]
fn test_discovery_packet_building_skipped() {}

#[test]
fn test_packet_builder_with_custom_hmac_policy() {
    let version = VersionByte::new(1, SessionIdLength::Bits64, TimestampConfig::Bits32);
    let engine = PacketBuilderEngine::with_defaults(version, HmacPolicy::Strong);
    let result = engine
        .syn()
        .session_id(SessionId::new(123))
        .initial_sequence(SequenceNumber::new(1))
        .client_public_key(EcdhPublicKey::new([0x99u8; 64]))
        .build();
    assert!(result.is_ok());
    let packet = result.unwrap();
    assert_eq!(packet.header.hmac_policy(), HmacPolicy::Strong);
}

#[test]
fn test_packet_builder_with_flags() {
    let engine = PacketBuilderEngine::new();
    let flags = PacketFlags::from_u8(0x05);
    let result = engine
        .data()
        .session_id(SessionId::new(456))
        .sequence_number(SequenceNumber::new(10))
        .flags(flags)
        .payload(b"data".to_vec())
        .build();
    assert!(result.is_ok());
    let packet = result.unwrap();
    assert_eq!(packet.header.flags(), flags);
}

#[test]
fn test_syn_packet_with_hmac() {
    let engine = PacketBuilderEngine::new();
    let session_key = [0x55u8; 32];
    let result = engine
        .syn()
        .session_id(SessionId::new(12345))
        .initial_sequence(SequenceNumber::new(100))
        .client_public_key(EcdhPublicKey::new([0x42u8; 64]))
        .build_with_hmac(&session_key);
    assert!(result.is_ok(), "Failed to build SYN packet with HMAC");
    let packet = result.unwrap();
    let hmac_bytes = packet.hmac.data();
    assert!(hmac_bytes.iter().any(|&b| b != 0), "HMAC is all zeros");
    assert_eq!(hmac_bytes.len(), HmacPolicy::Medium.tag_size(), "HMAC length mismatch");
}

#[test]
fn test_data_packet_with_hmac() {
    let engine = PacketBuilderEngine::new();
    let session_key = [0x66u8; 32];
    let result = engine
        .data()
        .session_id(SessionId::new(11111))
        .sequence_number(SequenceNumber::new(1000))
        .payload(b"Test payload data for HMAC".to_vec())
        .build_with_hmac(&session_key);
    assert!(result.is_ok(), "Failed to build DATA packet with HMAC");
    let packet = result.unwrap();
    let hmac_bytes = packet.hmac.data();
    assert!(hmac_bytes.iter().any(|&b| b != 0), "HMAC is all zeros");
    assert_eq!(hmac_bytes.len(), HmacPolicy::Medium.tag_size());
}

#[test]
fn test_heartbeat_packet_with_hmac() {
    let engine = PacketBuilderEngine::new();
    let session_key = [0x77u8; 32];
    let result = engine.heartbeat().session_id(SessionId::new(55555)).build_with_hmac(&session_key);
    assert!(result.is_ok(), "Failed to build HEARTBEAT packet with HMAC");
    let packet = result.unwrap();
    let hmac_bytes = packet.hmac.data();
    assert!(hmac_bytes.iter().any(|&b| b != 0), "HMAC is all zeros");
    assert_eq!(hmac_bytes.len(), HmacPolicy::Medium.tag_size());
}

#[test]
fn test_hmac_different_keys_produce_different_tags() {
    let engine = PacketBuilderEngine::new();
    let session_id = SessionId::new(99999);
    let seq = SequenceNumber::new(500);
    let packet1 = engine
        .data()
        .session_id(session_id)
        .sequence_number(seq)
        .payload(b"Same payload".to_vec())
        .build_with_hmac(&[0x11u8; 32])
        .unwrap();
    let packet2 = engine
        .data()
        .session_id(session_id)
        .sequence_number(seq)
        .payload(b"Same payload".to_vec())
        .build_with_hmac(&[0x22u8; 32])
        .unwrap();
    assert_ne!(packet1.hmac.data(), packet2.hmac.data(), "Same HMAC with different keys");
}

#[test]
fn test_hmac_different_packet_types_produce_different_tags() {
    let engine = PacketBuilderEngine::new();
    let session_id = SessionId::new(88888);
    let session_key = [0x33u8; 32];
    let syn_packet = engine
        .syn()
        .session_id(session_id)
        .initial_sequence(SequenceNumber::new(1))
        .client_public_key(EcdhPublicKey::new([0x44u8; 64]))
        .build_with_hmac(&session_key)
        .unwrap();
    let heartbeat_packet = engine.heartbeat().session_id(session_id).build_with_hmac(&session_key).unwrap();
    assert_ne!(syn_packet.hmac.data(), heartbeat_packet.hmac.data(), "Same HMAC for different packet types");
}

#[test]
fn test_hmac_length_matches_policy() {
    let session_id = SessionId::new(77777);
    let client_public_key = EcdhPublicKey::new([0x55u8; 64]);
    let session_key = [0x88u8; 32];
    let version = VersionByte::new(1, SessionIdLength::Bits64, TimestampConfig::Bits32);
    let lengths = [(HmacPolicy::Light, 8usize), (HmacPolicy::Medium, 16), (HmacPolicy::Strong, 32)];
    for (policy, expected) in lengths {
        let engine = PacketBuilderEngine::with_defaults(version, policy);
        let packet = engine
            .syn()
            .session_id(session_id)
            .initial_sequence(SequenceNumber::new(1))
            .client_public_key(client_public_key)
            .build_with_hmac(&session_key)
            .unwrap();
        assert_eq!(packet.hmac.data().len(), expected);
    }
}

#[test]
fn test_hmac_deterministic() {
    let engine = PacketBuilderEngine::new();
    let session_key = [0x99u8; 32];
    let _packet1 = engine
        .data()
        .session_id(SessionId::new(66666))
        .sequence_number(SequenceNumber::new(100))
        .payload(b"Deterministic test".to_vec())
        .build_with_hmac(&session_key)
        .unwrap();
    let _packet2 = engine
        .data()
        .session_id(SessionId::new(66666))
        .sequence_number(SequenceNumber::new(100))
        .payload(b"Deterministic test".to_vec())
        .build_with_hmac(&session_key)
        .unwrap();
}

#[test]
fn same_packet_same_key_same_tag() {
    let engine = PacketBuilderEngine::new();
    let session_key = [0x99u8; 32];
    let stamp = Timestamp::from_millis(1_700_000_000_000);
    let build = || {
        engine
            .data()
            .session_id(SessionId::new(66666))
            .sequence_number(SequenceNumber::new(100))
            .timestamp(stamp)
            .payload(b"Deterministic test".to_vec())
            .build_with_hmac(&session_key)
            .unwrap()
    };
    let packet1 = build();
    let packet2 = build();
    assert_eq!(packet1.hmac.data(), packet2.hmac.data());
    assert_ne!(packet1.hmac.data(), &[0u8; 16][..]);
}

#[test]
fn test_no_packets_sent_without_authentication() {
    let engine = PacketBuilderEngine::new();
    let session_id = SessionId::new(12345);
    let packet_no_hmac = engine
        .data()
        .session_id(session_id)
        .sequence_number(SequenceNumber::new(1))
        .payload(b"test".to_vec())
        .build();
    assert!(packet_no_hmac.is_ok());
    let packet_with_hmac = engine
        .data()
        .session_id(session_id)
        .sequence_number(SequenceNumber::new(1))
        .payload(b"test".to_vec())
        .build_with_hmac(&[0xAAu8; 32]);
    assert!(packet_with_hmac.is_ok());
    let packet = packet_with_hmac.unwrap();
    assert!(packet.hmac.data().iter().any(|&b| b != 0));
}
