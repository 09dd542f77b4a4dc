use buckwild_protocol::enumeration_detection::{BlockReason, EnumerationDetectionResult, EnumerationDetector};
use buckwild_protocol::values::{Port, SessionId, Timestamp};

const SECOND: u64 = 1_000_000_000;

#[test]
fn eleventh_attempt_in_a_minute_is_rate_limited() {
    let mut detector = EnumerationDetector::new();
    let ip: u128 = 0x7f00_0001;
    for i in 0..10u64 {
        let r = detector.check_connection_attempt_at(ip, Port::new(443), None, None, Timestamp::from_nanos(i * 3 * SECOND));
        assert_eq!(r, Ok(EnumerationDetectionResult::Allowed));
    }
    let r = detector.check_connection_attempt_at(ip, Port::new(443), None, None, Timestamp::from_nanos(31 * SECOND));
    assert_eq!(r, Ok(EnumerationDetectionResult::RateLimited));
    let blocks = detector.get_blocked_sources();
    assert_eq!(blocks.len(), 1);
    assert_eq!(blocks[0].1.block_reason, BlockReason::RateLimitExceeded);
    assert_eq!(blocks[0].1.block_duration, 300 * SECOND);
    let r = detector.check_connection_attempt_at(ip, Port::new(443), None, None, Timestamp::from_nanos(32 * SECOND));
    assert_eq!(r, Ok(EnumerationDetectionResult::Blocked(299 * SECOND)));
    assert_eq!(detector.get_stats().total_attempts.as_u32(), 12);
    assert!(detector.unblock_source(ip));
    assert_eq!(detector.get_stats().false_positives.as_u64(), 1);
}

#[test]
fn sequential_sessions_look_like_enumeration() {
    let mut detector = EnumerationDetector::new();
    let ip: u128 = 42;
    let mut last = EnumerationDetectionResult::Allowed;
    for i in 0..10u64 {
        last = detector
            .check_connection_attempt_at(ip, Port::new(1000), Some(SessionId::new(100 + i)), None, Timestamp::from_nanos(i * 7 * SECOND))
            .unwrap();
    }
    assert_eq!(last, EnumerationDetectionResult::AttackDetected);
    let info = detector.get_attempt_info(ip).unwrap();
    assert_eq!(info.total_attempts.as_u32(), 10);
    assert_eq!(info.pattern_data.attempted_sessions.len(), 10);
}

#[test]
fn cleanup_forgets_expired_blocks_and_old_sources() {
    let mut detector = EnumerationDetector::new();
    let ip: u128 = 9;
    for i in 0..11u64 {
        let _ = detector.check_connection_attempt_at(ip, Port::new(80), None, None, Timestamp::from_nanos(i * SECOND));
    }
    assert_eq!(detector.get_blocked_sources().len(), 1);
    let r = detector.cleanup_expired_entries_at(Timestamp::from_nanos(2000 * SECOND)).unwrap();
    assert_eq!(r, (1, 1));
    assert!(detector.get_attempt_info(ip).is_none());
}
