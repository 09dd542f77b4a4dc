use buckwild_protocol::packet::header::PacketHeader;
use buckwild_protocol::packet::structures::{DataPacket, SynPacket};
use buckwild_protocol::types::{HmacPolicy, PacketFlags, PacketType, SessionIdLength, SubType, TimestampConfig, VersionByte};
use buckwild_protocol::values::{
    AckNumber, ConnectionParams, EcdhPublicKey, HmacTag, PayloadLength, ProtocolVersion, SequenceNumber,
    SessionConfig, SessionId, Timestamp, WindowSize,
};

fn bytes_from(v: Vec<u8>) -> Vec<u8> {
    v
}

#[test]
fn test_sequence_number_zero() {
    let seq = SequenceNumber::new(0);
    assert_eq!(seq.as_u32(), 0);

    let bytes = seq.to_be_bytes();
    let deserialized = SequenceNumber::new(u32::from_be_bytes(bytes));
    assert_eq!(seq.as_u32(), deserialized.as_u32());
}

#[test]
fn test_sequence_number_max() {
    let seq = SequenceNumber::new(u32::MAX);
    assert_eq!(seq.as_u32(), u32::MAX);

    let bytes = seq.to_be_bytes();
    let deserialized = SequenceNumber::new(u32::from_be_bytes(bytes));
    assert_eq!(seq.as_u32(), deserialized.as_u32());
}

#[test]
fn test_sequence_number_wraparound() {
    let seq = SequenceNumber::new(u32::MAX);
    let next = SequenceNumber::new(seq.as_u32().wrapping_add(1));
    assert_eq!(next.as_u32(), 0);
}

#[test]
fn test_session_id_zero() {
    let session_id = SessionId::new(0);
    assert_eq!(session_id.as_u64(), 0);
}

#[test]
fn test_session_id_max_values() {
    // Test maximum values for different bit widths
    let max_16 = SessionId::new(0xFFFF);
    let max_32 = SessionId::new(0xFFFFFFFF);
    let max_64 = SessionId::new(u64::MAX);

    assert_eq!(max_16.as_u64(), 0xFFFF);
    assert_eq!(max_32.as_u64(), 0xFFFFFFFF);
    assert_eq!(max_64.as_u64(), u64::MAX);
}

#[test]
fn test_header_minimum_size() {
    // Minimum config: 16-bit session ID, 16-bit timestamp
    let version = VersionByte::new(1, SessionIdLength::Bits16, TimestampConfig::Bits16);
    let header = PacketHeader::new(
        version,
        PacketType::Data,
        SubType::new(0),
        PacketFlags::new(),
        SessionId::new(1),
        SequenceNumber::new(0),
        AckNumber::new(0),
        Timestamp::from_nanos(0),
        PayloadLength::new(0),
        HmacPolicy::Light,
    );

    // Base(4) + SessionID(2) + Seq(4) + Ack(4) + Timestamp(2) + PayloadLen(2) = 18 bytes
    assert_eq!(header.header_size(), 18);
}

#[test]
fn test_header_maximum_size() {
    // Maximum config: 64-bit session ID, 32-bit timestamp
    let version = VersionByte::new(1, SessionIdLength::Bits64, TimestampConfig::Bits32);
    let header = PacketHeader::new(
        version,
        PacketType::Data,
        SubType::new(0),
        PacketFlags::new(),
        SessionId::new(u64::MAX),
        SequenceNumber::new(u32::MAX),
        AckNumber::new(u32::MAX),
        Timestamp::from_nanos(u64::MAX),
        PayloadLength::new(u16::MAX),
        HmacPolicy::Strong,
    );

    // Base(4) + SessionID(8) + Seq(4) + Ack(4) + Timestamp(4) + PayloadLen(2) = 26 bytes
    assert_eq!(header.header_size(), 26);
}

#[test]
fn test_all_packet_types_roundtrip() {
    let packet_types = vec![
        PacketType::Syn,
        PacketType::SynAck,
        PacketType::Ack,
        PacketType::Data,
        PacketType::Fin,
        PacketType::Heartbeat,
        PacketType::Error,
        PacketType::Rst,
        PacketType::Control,
        PacketType::Management,
        PacketType::Discovery,
        PacketType::Fragment,
    ];

    for packet_type in packet_types {
        let raw = packet_type.as_u8();
        let deserialized = PacketType::from_u8(raw).expect("Valid packet type");
        assert_eq!(packet_type, deserialized);
    }
}

#[test]
fn test_version_byte_all_protocols() {
    // Test all valid protocol versions (0-15)
    for version in 0..=15u8 {
        let version_byte =
            VersionByte::new(version, SessionIdLength::Bits32, TimestampConfig::Bits32);
        assert_eq!(version_byte.protocol_version(), version);

        // Roundtrip test
        let raw = version_byte.as_u8();
        let deserialized = VersionByte::from_u8(raw);
        assert_eq!(
            version_byte.protocol_version(),
            deserialized.protocol_version()
        );
        assert_eq!(
            version_byte.session_id_length(),
            deserialized.session_id_length()
        );
        assert_eq!(
            version_byte.timestamp_config(),
            deserialized.timestamp_config()
        );
    }
}

#[test]
fn test_empty_payload_data_packet() {
    let version = VersionByte::new(1, SessionIdLength::Bits32, TimestampConfig::Bits32);
    let hmac_policy = HmacPolicy::Medium;
    let header = PacketHeader::new(
        version,
        PacketType::Data,
        SubType::new(0),
        PacketFlags::new(),
        SessionId::new(1),
        SequenceNumber::new(1),
        AckNumber::new(0),
        Timestamp::from_nanos(1000),
        PayloadLength::new(0),
        hmac_policy,
    );

    let hmac = HmacTag::new(vec![0u8; 16], hmac_policy).expect("Valid HMAC");
    let packet = DataPacket {
        header,
        hmac,
        window_size: WindowSize::new(65535),
        fragment_header: None,
        payload: Vec::new(),
    };

    let mut buffer = vec![0u8; 256];
    let size = packet.serialize(&mut buffer).expect("Serialize failed");
    let deserialized = DataPacket::deserialize(&buffer[..size]).expect("Deserialize failed");

    assert_eq!(
        packet.header.packet_type(),
        deserialized.header.packet_type()
    );
    assert_eq!(packet.payload.len(), 0);
    assert_eq!(deserialized.payload.len(), 0);
}

#[test]
fn test_one_byte_payload_data_packet() {
    let version = VersionByte::new(1, SessionIdLength::Bits32, TimestampConfig::Bits32);
    let hmac_policy = HmacPolicy::Medium;
    let payload = bytes_from(vec![0xFF]);
    let header = PacketHeader::new(
        version,
        PacketType::Data,
        SubType::new(0),
        PacketFlags::new(),
        SessionId::new(1),
        SequenceNumber::new(1),
        AckNumber::new(0),
        Timestamp::from_nanos(1000),
        PayloadLength::new(1),
        hmac_policy,
    );

    let hmac = HmacTag::new(vec![0u8; 16], hmac_policy).expect("Valid HMAC");
    let packet = DataPacket {
        header,
        hmac,
        window_size: WindowSize::new(65535),
        fragment_header: None,
        payload: payload.clone(),
    };

    let mut buffer = vec![0u8; 256];
    let size = packet.serialize(&mut buffer).expect("Serialize failed");
    let deserialized = DataPacket::deserialize(&buffer[..size]).expect("Deserialize failed");

    assert_eq!(
        packet.header.packet_type(),
        deserialized.header.packet_type()
    );
    assert_eq!(packet.payload.as_slice(), deserialized.payload.as_slice());
    assert_eq!(deserialized.payload.len(), 1);
    assert_eq!(deserialized.payload[0], 0xFF);
}

#[test]
fn test_syn_packet_boundary_values() {
    // Test SYN with minimum values
    let version = VersionByte::new(1, SessionIdLength::Bits16, TimestampConfig::Bits16);
    let hmac_policy = HmacPolicy::Strong;
    let header = PacketHeader::new(
        version,
        PacketType::Syn,
        SubType::new(0),
        PacketFlags::from_u8(0x02),
        SessionId::new(0),
        SequenceNumber::new(0),
        AckNumber::new(0),
        Timestamp::from_nanos(0),
        PayloadLength::new(0),
        hmac_policy,
    );

    let hmac = HmacTag::new(vec![0u8; 32], hmac_policy).expect("Valid HMAC");
    let client_public_key = EcdhPublicKey::new([0u8; 64]);
    let packet = SynPacket {
        header,
        hmac,
        initial_sequence: SequenceNumber::new(0),
        protocol_version: ProtocolVersion::new(1),
        session_config: SessionConfig::default(),
        connection_params: ConnectionParams::default(),
        client_public_key,
        psk_auth_hash: [0u8; 32],
        key_exchange_id: 0xABCD,
    };

    let mut buffer = vec![0u8; 256];
    let size = packet.serialize(&mut buffer).expect("Serialize failed");
    let deserialized = SynPacket::deserialize(&buffer[..size]).expect("Deserialize failed");

    assert_eq!(
        packet.initial_sequence.as_u32(),
        deserialized.initial_sequence.as_u32()
    );

    // Test SYN with maximum values
    let version_max = VersionByte::new(1, SessionIdLength::Bits64, TimestampConfig::Bits32);
    let header_max = PacketHeader::new(
        version_max,
        PacketType::Syn,
        SubType::new(0),
        PacketFlags::from_u8(0x02),
        SessionId::new(u64::MAX),
        SequenceNumber::new(u32::MAX),
        AckNumber::new(0),
        Timestamp::from_nanos(u64::MAX),
        PayloadLength::new(0),
        hmac_policy,
    );

    let packet_max = SynPacket {
        header: header_max,
        hmac: HmacTag::new(vec![0xFF; 32], hmac_policy).expect("Valid HMAC"),
        initial_sequence: SequenceNumber::new(u32::MAX),
        protocol_version: ProtocolVersion::new(1),
        session_config: SessionConfig::default(),
        connection_params: ConnectionParams::default(),
        client_public_key: EcdhPublicKey::new([0xFFu8; 64]),
        psk_auth_hash: [0xFFu8; 32],
        key_exchange_id: 0xFFFF,
    };

    let mut buffer_max = vec![0u8; 256];
    let size_max = packet_max
        .serialize(&mut buffer_max)
        .expect("Serialize failed");
    let deserialized_max =
        SynPacket::deserialize(&buffer_max[..size_max]).expect("Deserialize failed");

    assert_eq!(
        packet_max.initial_sequence.as_u32(),
        deserialized_max.initial_sequence.as_u32()
    );
}

#[test]
fn test_buffer_too_small_error() {
    let version = VersionByte::new(1, SessionIdLength::Bits32, TimestampConfig::Bits32);
    let header = PacketHeader::new(
        version,
        PacketType::Data,
        SubType::new(0),
        PacketFlags::new(),
        SessionId::new(1),
        SequenceNumber::new(1),
        AckNumber::new(0),
        Timestamp::from_nanos(1000),
        PayloadLength::new(0),
        HmacPolicy::Medium,
    );

    let mut buffer = vec![0u8; 10]; // Too small
    let result = header.serialize(&mut buffer);
    assert!(result.is_err());
}

#[test]
fn test_invalid_packet_type() {
    let invalid_type_value = 0xFF;
    let result = PacketType::from_u8(invalid_type_value);
    assert!(result.is_none());
}

#[test]
fn test_truncated_packet_deserialization() {
    let version = VersionByte::new(1, SessionIdLength::Bits32, TimestampConfig::Bits32);
    let hmac_policy = HmacPolicy::Strong;
    let header = PacketHeader::new(
        version,
        PacketType::Syn,
        SubType::new(0),
        PacketFlags::from_u8(0x02),
        SessionId::new(1),
        SequenceNumber::new(100),
        AckNumber::new(0),
        Timestamp::from_nanos(1000),
        PayloadLength::new(0),
        hmac_policy,
    );

    let hmac = HmacTag::new(vec![0u8; 32], hmac_policy).expect("Valid HMAC");
    let client_public_key = EcdhPublicKey::new([0u8; 64]);
    let packet = SynPacket {
        header,
        hmac,
        initial_sequence: SequenceNumber::new(100),
        protocol_version: ProtocolVersion::new(1),
        session_config: SessionConfig::default(),
        connection_params: ConnectionParams::default(),
        client_public_key,
        psk_auth_hash: [0u8; 32],
        key_exchange_id: 0xEF01,
    };

    let mut buffer = vec![0u8; 256];
    let size = packet.serialize(&mut buffer).expect("Serialize failed");

    // Try to deserialize with truncated buffer
    let result = SynPacket::deserialize(&buffer[..size - 10]);
    assert!(result.is_err());
}

#[test]
fn header_with_128_bit_session_id_is_zero_padded() {
    let vb = VersionByte::new(1, SessionIdLength::Bits128, TimestampConfig::Bits32);
    let sid: u64 = 0x0102_0304_0506_0708;
    let h = PacketHeader::new(
        vb,
        PacketType::Data,
        SubType::new(0),
        PacketFlags::new(),
        SessionId::new(sid),
        SequenceNumber::new(0xAABB_CCDD),
        AckNumber::new(7),
        Timestamp::from_millis(1_000),
        PayloadLength::new(0x1234),
        HmacPolicy::Medium,
    );
    let mut buf = vec![0xEEu8; 64];
    let n = h.serialize(&mut buf).unwrap();
    assert_eq!(n, h.header_size());
    assert_eq!(&buf[4..12], &[0u8; 8]);
    assert_eq!(&buf[12..20], &sid.to_be_bytes());
    assert_eq!(&buf[20..24], &0xAABB_CCDDu32.to_be_bytes());
    assert_eq!(&buf[n - 2..n], &0x1234u16.to_be_bytes());
    assert!(buf[n..].iter().all(|&b| b == 0xEE));
    let back = PacketHeader::deserialize(&buf[..n]).unwrap();
    assert_eq!(back.session_id().as_u64(), sid);
    assert_eq!(back.sequence_number().as_u32(), 0xAABB_CCDD);
}
