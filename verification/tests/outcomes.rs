use buckwild_protocol::fragmentation::engine::{
    FragmentationEngine, FragmentationRequest, ReassemblyRequest, ReassemblyResult,
};
use buckwild_protocol::fragmentation::overlap::{FragmentInfo, OverlapConfig, OverlapDetector, ReassemblyKey};
use buckwild_protocol::fragmentation::rate_limit::{
    FragmentRateLimiter, RateLimitConfig, RateLimitRequest, ViolationType,
};
use buckwild_protocol::packet::header::PacketHeader;
use buckwild_protocol::packet::structures::DataPacket;
use buckwild_protocol::timeout::{PacketTiming, TimeoutErrorContext, TimeoutEventType, TimeoutManager};
use buckwild_protocol::types::{HmacPolicy, PacketFlags, PacketType, SessionIdLength, SubType, TimestampConfig, VersionByte};
use buckwild_protocol::types::ConnectionState;
use buckwild_protocol::values::{
    AckNumber, Capacity, ConnectionId, FragmentCount, FragmentId, FragmentIndex, FragmentSize, HmacTag, IpAddress,
    PacketId, PacketRate, PacketSize, PayloadLength, SequenceNumber, SessionId, Timestamp, WindowSize,
};

fn data_packet(session_id: u64, seq: u32, payload: Vec<u8>) -> DataPacket {
    let header = PacketHeader::new(
        VersionByte::new(0x01, SessionIdLength::Bits32, TimestampConfig::Bits24),
        PacketType::Data,
        SubType::new(0),
        PacketFlags::new(),
        SessionId::new_with_length(session_id, SessionIdLength::Bits32),
        SequenceNumber::new(seq),
        AckNumber::new(0),
        Timestamp::now(),
        PayloadLength::new(payload.len() as u16),
        HmacPolicy::Medium,
    );
    DataPacket { header, hmac: HmacTag::default(), window_size: WindowSize::new(65536), fragment_header: None, payload }
}

#[test]
fn checked_fragments_join_and_a_resent_one_is_refused() {
    let mut engine = FragmentationEngine::new();
    let payload: Vec<u8> = (0..3000u32).map(|i| (i % 251) as u8).collect();
    let packet = data_packet(3, 77, payload.clone());
    let result = engine
        .fragment_packet(FragmentationRequest {
            session_id: SessionId::new_with_length(3, SessionIdLength::Bits32),
            packet,
            max_fragment_size: Some(1000),
            source_ip: 0x0a000001,
        })
        .unwrap();
    assert_eq!(result.fragments.len(), 4);
    let send = |engine: &mut FragmentationEngine, i: usize| {
        engine.process_fragment(ReassemblyRequest { fragment: result.fragments[i].clone(), source_ip: 0x0a000001 })
    };
    for i in 0..2 {
        match send(&mut engine, i).unwrap() {
            ReassemblyResult::InProgress { fragment_id, received_fragments, fragment_count } => {
                assert_eq!(fragment_id, result.fragment_id);
                assert_eq!(received_fragments.0 as usize, i + 1);
                assert_eq!(fragment_count, result.fragment_count);
            },
            other => panic!("fragment {} not joined: {:?}", i, other),
        }
    }
    assert!(matches!(send(&mut engine, 1).unwrap(), ReassemblyResult::Rejected { .. }));
    assert!(matches!(send(&mut engine, 2).unwrap(), ReassemblyResult::InProgress { .. }));
    match send(&mut engine, 3).unwrap() {
        ReassemblyResult::Complete { packet, fragment_id, fragment_count } => {
            assert_eq!(packet.payload, payload);
            assert_eq!(packet.header.sequence_number(), SequenceNumber::new(77));
            assert_eq!(fragment_id, result.fragment_id);
            assert_eq!(fragment_count, result.fragment_count);
        },
        other => panic!("not complete: {:?}", other),
    }
}

#[test]
fn any_fragment_size_is_accepted() {
    let mut engine = FragmentationEngine::new();
    let result = engine
        .fragment_packet(FragmentationRequest {
            session_id: SessionId::new(1),
            packet: data_packet(1, 1, vec![9u8; 100]),
            max_fragment_size: Some(usize::MAX),
            source_ip: 1,
        })
        .unwrap();
    assert_eq!(result.fragments.len(), 1);
    assert_eq!(result.fragment_count, FragmentCount::new(1));
}

fn key(session: u64, id: u16) -> ReassemblyKey {
    ReassemblyKey { session_id: SessionId::new(session), fragment_id: FragmentId::new(id) }
}

fn info(session: u64, id: u16, index: u16, count: u16) -> FragmentInfo {
    FragmentInfo {
        session_id: SessionId::new(session),
        fragment_id: FragmentId::new(id),
        fragment_index: FragmentIndex::new(index),
        fragment_count: FragmentCount::new(count),
        payload_size: FragmentSize::new(1000),
    }
}

#[test]
fn overlap_cleanup_with_zero_timeout_expires_the_context() {
    let mut d = OverlapDetector::with_config(OverlapConfig { context_timeout_sec: 0, ..OverlapConfig::default() });
    let k = key(1, 7);
    assert!(d.check_overlap(&k, &info(1, 7, 0, 3)).is_ok());
    d.cleanup_expired_contexts();
    assert!(d.get_fragment_coverage(&k).is_none());
    let st = d.get_stats();
    assert_eq!(st.active_contexts, 0);
    assert_eq!(st.contexts_expired.0, 1);
    assert_eq!(st.total_checked.0, 1);
}

#[test]
fn removing_an_overlap_context_counts_once() {
    let mut d = OverlapDetector::new();
    let t = Timestamp::from_millis(1);
    d.check_overlap_at(&key(1, 1), &info(1, 1, 0, 2), t).unwrap();
    d.check_overlap_at(&key(2, 1), &info(2, 1, 0, 2), t).unwrap();
    assert_eq!(d.get_stats().active_contexts, 2);
    d.remove_context(&key(1, 1));
    assert_eq!(d.get_stats().active_contexts, 1);
    d.remove_context(&key(1, 1));
    assert_eq!(d.get_stats().active_contexts, 1);
    assert!(d.get_fragment_coverage(&key(1, 1)).is_none());
    assert!(d.get_fragment_coverage(&key(2, 1)).is_some());
    assert_eq!(d.get_stats().total_checked.0, 2);
}

fn request(session: u64, ip: IpAddress, t: Timestamp) -> RateLimitRequest {
    RateLimitRequest {
        session_id: SessionId::new(session),
        source_ip: ip,
        fragment_size: PacketSize::new(100),
        fragment_id: FragmentId::new(1),
        timestamp: t,
    }
}

#[test]
fn ipv6_sources_are_limited_separately() {
    let mut l = FragmentRateLimiter::new();
    let t = Timestamp::from_millis(10);
    let a = IpAddress::new(1u128 << 100);
    let b = IpAddress::new(2u128 << 100);
    for s in 0..200u64 {
        assert!(l.check_rate_limit_at(&request(s, a, t), t).is_none());
    }
    let v = l.check_rate_limit_at(&request(1000, a, t), t).unwrap();
    assert_eq!(v.violation_type, ViolationType::SourcePacketRate);
    assert!(l.check_rate_limit_at(&request(1001, b, t), t).is_none());
    assert_eq!(IpAddress::from_ipv4(0x7f000001).as_u128(), 0xffff_7f00_0001);
}

#[test]
fn rate_statistics_count_checks_and_refusals() {
    let mut l = FragmentRateLimiter::new();
    let t = Timestamp::from_millis(10);
    let mut refused = 0;
    for _ in 0..60 {
        if l.check_rate_limit_at(&request(5, IpAddress::from_ipv4(9), t), t).is_some() {
            refused += 1;
        }
    }
    let st = l.get_rate_limit_stats();
    assert_eq!(refused, 10);
    assert_eq!(st.total_checks.0, 60);
    assert_eq!(st.session_violations.0, 10);
    assert_eq!(st.source_violations.0, 0);
    assert_eq!(st.active_session_limiters.0, 1);
    assert_eq!(st.active_source_limiters.0, 1);
}

#[test]
fn new_configuration_applies_to_new_sessions() {
    let mut l = FragmentRateLimiter::new();
    let t = Timestamp::from_millis(10);
    let ip = IpAddress::from_ipv4(9);
    assert!(l.check_rate_limit_at(&request(1, ip, t), t).is_none());
    l.update_config(RateLimitConfig {
        session_burst_capacity: Capacity::new(0),
        fragments_per_second_per_session: PacketRate::new(0),
        ..RateLimitConfig::default()
    });
    let st = l.get_rate_limit_stats();
    assert_eq!((st.total_checks.0, st.session_violations.0), (1, 0));
    assert!(l.check_rate_limit_at(&request(1, ip, t), t).is_none());
    let v = l.check_rate_limit_at(&request(2, ip, t), t).unwrap();
    assert_eq!(v.violation_type, ViolationType::SessionFragmentRate);
}

#[test]
fn eight_retransmissions_exhaust_the_retries() {
    let mut t = PacketTiming::new(PacketId::new(4), SequenceNumber::new(40));
    assert!(!t.retransmitted);
    for k in 1..=9u32 {
        t.mark_retransmitted();
        assert_eq!(t.retry_count, k);
        assert!(t.retransmitted);
        assert_eq!(t.has_exceeded_max_retries(), k >= 8);
        assert_eq!(t.packet_id, PacketId::new(4));
        assert_eq!(t.sequence_number, SequenceNumber::new(40));
    }
}

#[test]
fn timeout_events_name_what_timed_out() {
    let mut m = TimeoutManager::new();
    let c = ConnectionId::new(4);
    m.manage_connection_timeouts_at(c, ConnectionState::Connecting, Some(0), None, Some(0), 0, 30_001, 7)
        .unwrap();
    m.manage_connection_timeouts_at(c, ConnectionState::Established, None, Some(0), Some(0), 3, 300_001, 8)
        .unwrap();
    m.send_packet_with_timing_at(PacketId::new(12), SequenceNumber::new(1), 0, 0).unwrap();
    m.handle_retransmission_timer_expiry_at(PacketId::new(12), 9, 0).unwrap();
    m.set_fragment_reassembly_timeout_at(21, 0);
    m.manage_fragment_timeouts_at(10_000, 10).unwrap();
    let ctx = TimeoutErrorContext::new(TimeoutEventType::Discovery, "lookup".to_string(), None, String::new());
    let b = m.handle_timeout_error_with_backoff_at(ctx, 11).unwrap().unwrap();
    let events = m.get_timeout_statistics();
    let texts: Vec<&str> = events.iter().map(|e| e.additional_info.as_str()).collect();
    assert_eq!(
        texts,
        vec![
            "Connection establishment timeout",
            "Heartbeat timeout (failures: 3)",
            "Session idle timeout",
            "Retransmitting packet 12",
            "Fragment 21 reassembly timeout",
            "Retry 1 for lookup",
        ]
    );
    assert_eq!(events[0].duration_ms, 30_001);
    assert_eq!(events[0].timestamp.0, 7);
    assert_eq!(events[0].connection_id, Some(c));
    assert_eq!(events[3].rto_value_ms, 2000);
    assert_eq!(events[5].duration_ms, b);
}
