use buckwild_protocol::error::FragmentationError;
use buckwild_protocol::fragmentation::overlap::{
    FragmentInfo, OverlapConfig, OverlapDetector, OverlapResult, ReassemblyKey,
};
use buckwild_protocol::fragmentation::rate_limit::{
    FragmentRateLimiter, RateLimitRequest, ViolationType,
};
use buckwild_protocol::values::{
    FragmentCount, FragmentId, FragmentIndex, FragmentSize, IpAddress, PacketSize, SessionId, Timestamp,
};

fn key(session: u64, id: u16) -> ReassemblyKey {
    ReassemblyKey { session_id: SessionId::new(session), fragment_id: FragmentId::new(id) }
}

fn info(session: u64, id: u16, index: u16, count: u16, size: u16) -> FragmentInfo {
    FragmentInfo {
        session_id: SessionId::new(session),
        fragment_id: FragmentId::new(id),
        fragment_index: FragmentIndex::new(index),
        fragment_count: FragmentCount::new(count),
        payload_size: FragmentSize::new(size),
    }
}

#[test]
fn overlap_detector_classifies_fragments() {
    let mut d = OverlapDetector::new();
    let k = key(1, 7);
    let now = Timestamp::from_millis(1);
    assert_eq!(d.check_overlap_at(&k, &info(1, 7, 0, 3, 100), now).unwrap(), OverlapResult::NoOverlap);
    assert_eq!(d.check_overlap_at(&k, &info(1, 7, 2, 3, 100), now).unwrap(), OverlapResult::NoOverlap);
    let c = d.get_fragment_coverage(&k).unwrap();
    assert_eq!(c.total_expected_fragments, 3);
    assert_eq!(c.received_fragments, 2);
    assert_eq!(c.gaps.len(), 1);
    assert_eq!((c.gaps[0].start_offset, c.gaps[0].end_offset, c.gaps[0].size), (100, 200, 100));
    assert!(!c.is_complete);
    assert_eq!(
        d.check_overlap_at(&k, &info(1, 7, 2, 3, 100), now).unwrap(),
        OverlapResult::Duplicate { existing_index: FragmentIndex::new(2) }
    );
    assert!(matches!(d.check_overlap_at(&k, &info(1, 7, 1, 3, 100), now).unwrap(), OverlapResult::Adjacent { .. }));
    let c = d.get_fragment_coverage(&k).unwrap();
    assert!(c.gaps.is_empty());
    assert_eq!(c.covered_ranges[0].start_offset, 0);
    assert_eq!(c.covered_ranges[c.covered_ranges.len() - 1].end_offset, 300);
    let stats = d.get_stats();
    assert_eq!(stats.total_checked.as_u64(), 4);
    assert_eq!(stats.duplicates_detected.as_u64(), 1);
    assert_eq!(stats.adjacent_detected.as_u64(), 1);
}

#[test]
fn overlap_detector_reports_overlaps_and_count_mismatches() {
    let mut d = OverlapDetector::new();
    let k = key(2, 1);
    let now = Timestamp::from_millis(1);
    d.check_overlap_at(&k, &info(2, 1, 0, 2, 100), now).unwrap();
    match d.check_overlap_at(&k, &info(2, 1, 1, 2, 60), now).unwrap() {
        OverlapResult::Overlap { conflicting_index, overlap_start, overlap_end } => {
            assert_eq!(conflicting_index, FragmentIndex::new(0));
            assert_eq!((overlap_start, overlap_end), (60, 100));
        }
        other => panic!("expected an overlap, got {:?}", other),
    }
    assert!(d.check_overlap_at(&k, &info(2, 1, 1, 5, 100), now).is_err());
    assert!(d.get_fragment_coverage(&key(9, 9)).is_none());
    d.remove_context(&k);
    assert!(d.get_fragment_coverage(&k).is_none());
}

#[test]
fn overlap_detector_limits_tracked_packets_and_expires_them() {
    let config = OverlapConfig { max_tracked_contexts: 1, ..OverlapConfig::default() };
    let mut d = OverlapDetector::with_config(config);
    let t0 = Timestamp::from_millis(1_000);
    d.check_overlap_at(&key(1, 1), &info(1, 1, 0, 2, 10), t0).unwrap();
    assert!(d.check_overlap_at(&key(1, 2), &info(1, 2, 0, 2, 10), t0).is_err());
    d.cleanup_expired_contexts_at(Timestamp::from_millis(40_000));
    assert!(d.get_fragment_coverage(&key(1, 1)).is_none());
    assert_eq!(d.get_stats().contexts_expired.as_u64(), 1);
    assert!(d.check_overlap_at(&key(1, 2), &info(1, 2, 0, 2, 10), t0).is_ok());
}

fn request(session: u64, ip: u32, size: u16, t: Timestamp) -> RateLimitRequest {
    RateLimitRequest {
        session_id: SessionId::new(session),
        source_ip: IpAddress::from_ipv4(ip),
        fragment_size: PacketSize::new(size),
        fragment_id: FragmentId::new(1),
        timestamp: t,
    }
}

#[test]
fn session_burst_of_fifty_then_violation() {
    let mut l = FragmentRateLimiter::new();
    let t = Timestamp::from_millis(10);
    for _ in 0..50 {
        assert!(l.check_rate_limit_at(&request(1, 7, 100, t), t).is_none());
    }
    let v = l.check_rate_limit_at(&request(1, 7, 100, t), t).unwrap();
    assert!(matches!(v.violation_type, ViolationType::SessionFragmentRate));
    assert_eq!(v.retry_after_ms, 1000);
    // Twenty fragments a second come back.
    let later = Timestamp::from_millis(1_010);
    for _ in 0..20 {
        assert!(l.check_rate_limit_at(&request(1, 7, 100, later), later).is_none());
    }
    assert!(l.check_rate_limit_at(&request(1, 7, 100, later), later).is_some());
    let stats = l.get_rate_limit_stats();
    assert_eq!(stats.total_checks.as_u64(), 72);
    assert_eq!(stats.session_violations.as_u64(), 2);
    assert_eq!(stats.source_violations.as_u64(), 0);
}

#[test]
fn source_packet_and_byte_limits() {
    let mut l = FragmentRateLimiter::new();
    let t = Timestamp::from_millis(10);
    for s in 0..200u64 {
        assert!(l.check_rate_limit_at(&request(s, 9, 1_400, t), t).is_none());
    }
    let v = l.check_rate_limit_at(&request(500, 9, 1_400, t), t).unwrap();
    assert!(matches!(v.violation_type, ViolationType::SourcePacketRate));

    let mut l = FragmentRateLimiter::new();
    for s in 0..140u64 {
        assert!(l.check_rate_limit_at(&request(s, 3, 2_000, t), t).is_none());
    }
    let v = l.check_rate_limit_at(&request(500, 3, 2_000, t), t).unwrap();
    assert!(matches!(v.violation_type, ViolationType::SourceByteRate));
    assert_eq!(l.get_rate_limit_stats().source_violations.as_u64(), 1);
}

#[test]
fn fragmentation_error_descriptions() {
    let e = FragmentationError::ReassemblyFailed { reason: "gone".to_string() };
    assert_eq!(e.description(), "gone");
    let e = FragmentationError::FragmentTooLarge { size: 2000, max_size: 1400 };
    assert_eq!(e.description(), "Fragment too large");
    let e = FragmentationError::ReassemblyMemoryExhausted { session_id: SessionId::new(1) };
    assert_eq!(e.description(), "Reassembly memory exhausted");
}

#[test]
fn coverage_counts_received_fragments_after_merging() {
    let mut d = OverlapDetector::new();
    let k = key(1, 12345);
    let now = Timestamp::from_millis(1);
    assert_eq!(d.check_overlap_at(&k, &info(1, 12345, 0, 3, 1000), now).unwrap(), OverlapResult::NoOverlap);
    assert_eq!(d.check_overlap_at(&k, &info(1, 12345, 2, 3, 1000), now).unwrap(), OverlapResult::NoOverlap);
    assert!(matches!(d.check_overlap_at(&k, &info(1, 12345, 1, 3, 1000), now).unwrap(), OverlapResult::Adjacent { .. }));
    let c = d.get_fragment_coverage(&k).unwrap();
    assert_eq!(c.total_expected_fragments, 3);
    assert_eq!(c.received_fragments, 3);
    assert!(c.gaps.is_empty());
    assert!(c.is_complete);
    assert!(d.get_fragment_coverage(&key(1, 1)).is_none());
}

#[test]
fn overlap_statistics_count_each_finding() {
    let mut d = OverlapDetector::new();
    let k = key(1, 12345);
    let i = info(1, 12345, 0, 3, 1000);
    assert_eq!(d.check_overlap(&k, &i).unwrap(), OverlapResult::NoOverlap);
    assert_eq!(d.check_overlap(&k, &i).unwrap(), OverlapResult::Duplicate { existing_index: FragmentIndex::new(0) });
    let st = d.get_stats();
    assert_eq!(st.total_checked.as_u64(), 2);
    assert_eq!(st.duplicates_detected.as_u64(), 1);
    assert_eq!(st.overlaps_detected.as_u64(), 0);
    assert_eq!(st.active_contexts, 1);
    assert_eq!(d.get_fragment_coverage(&k).unwrap().received_fragments, 1);
}
