use buckwild_protocol::fragmentation::engine::{FragmentationEngine, FragmentationRequest};
use buckwild_protocol::fragmentation::security::{
    create_default_attack_patterns, FragmentSecurityEngine, FragmentSecurityPolicies, SecurityValidationResult,
};
use buckwild_protocol::packet::header::PacketHeader;
use buckwild_protocol::packet::structures::{DataPacket, Packet};
use buckwild_protocol::types::{HmacPolicy, PacketFlags, PacketType, SessionIdLength, SubType, TimestampConfig, VersionByte};
use buckwild_protocol::values::{
    AckNumber, FragmentSize, HmacTag, PayloadLength, SequenceNumber, SessionId, Timestamp, WindowSize,
};

fn data_packet(session: u64, payload: Vec<u8>) -> DataPacket {
    let header = PacketHeader::new(
        VersionByte::new(1, SessionIdLength::Bits32, TimestampConfig::Bits24),
        PacketType::Data,
        SubType::new(0),
        PacketFlags::new(),
        SessionId::new(session),
        SequenceNumber::new(1),
        AckNumber::new(0),
        Timestamp::from_millis(1_000),
        PayloadLength::new(payload.len() as u16),
        HmacPolicy::Medium,
    );
    DataPacket { header, hmac: HmacTag::default(), window_size: WindowSize::new(65535), fragment_header: None, payload }
}

fn fragments(session: u64, len: usize, max: usize) -> Vec<Packet> {
    let mut engine = FragmentationEngine::new();
    let payload: Vec<u8> = (0..len).map(|i| (i % 256) as u8).collect();
    let request = FragmentationRequest {
        session_id: SessionId::new(session),
        packet: data_packet(session, payload),
        max_fragment_size: Some(max),
        source_ip: 1,
    };
    engine.fragment_packet(request).unwrap().fragments.into_iter().map(Packet::Data).collect()
}

#[test]
fn fragments_spaced_in_time_are_valid() {
    let mut s = FragmentSecurityEngine::new();
    let fs = fragments(3, 2_500, 1_000);
    for (n, f) in fs.iter().enumerate() {
        let r = s.validate_fragment_at(f, Timestamp::from_millis(100 + 10 * n as u64)).unwrap();
        assert!(matches!(r, SecurityValidationResult::Valid), "{:?}", r);
    }
    let st = s.get_stats();
    assert_eq!(st.total_validated, 3);
    assert_eq!(st.valid_fragments, 3);
}

#[test]
fn fragments_within_a_millisecond_are_suspicious() {
    let mut s = FragmentSecurityEngine::new();
    let fs = fragments(4, 2_500, 1_000);
    let t = Timestamp::from_millis(100);
    assert!(matches!(s.validate_fragment_at(&fs[0], t).unwrap(), SecurityValidationResult::Valid));
    assert!(matches!(s.validate_fragment_at(&fs[1], t).unwrap(), SecurityValidationResult::Suspicious { .. }));
    assert_eq!(s.get_stats().suspicious_fragments, 1);
}

#[test]
fn oversized_fragments_are_rejected() {
    let policies = FragmentSecurityPolicies { max_fragment_size: FragmentSize::new(100), ..FragmentSecurityPolicies::default() };
    let mut s = FragmentSecurityEngine::with_policies(policies);
    let fs = fragments(5, 2_500, 1_000);
    let r = s.validate_fragment_at(&fs[0], Timestamp::from_millis(1)).unwrap();
    assert!(matches!(r, SecurityValidationResult::Rejected { .. }));
    assert_eq!(s.get_stats().rejected_fragments, 1);
}

#[test]
fn packets_without_a_fragment_header_are_refused() {
    let mut s = FragmentSecurityEngine::new();
    let p = Packet::Data(data_packet(6, vec![0u8; 64]));
    assert!(s.validate_fragment_at(&p, Timestamp::from_millis(1)).is_err());
}

#[test]
fn default_attack_patterns() {
    let patterns = create_default_attack_patterns();
    assert_eq!(patterns.len(), 2);
    assert_eq!(patterns[0].name, "Fragment Size Anomaly");
    assert_eq!((patterns[0].threshold, patterns[0].time_window_sec), (10, 60));
    assert_eq!(patterns[1].name, "Fragment Flood");
    assert_eq!((patterns[1].threshold, patterns[1].time_window_sec), (100, 10));
}
