use buckwild_protocol::timeout::{
    backoff_with_jitter, RtoState, TimeoutAction, TimeoutErrorContext, TimeoutEventType, TimeoutManager,
};
use buckwild_protocol::types::ConnectionState;
use buckwild_protocol::values::{ConnectionId, MicrosecondTimestamp, PacketId, SequenceNumber};

#[test]
fn rto_starts_at_one_second() {
    let s = RtoState::new();
    assert_eq!(s.get_current_rto(), 1000);
    let st = s.get_statistics();
    assert_eq!((st.srtt_ms, st.rttvar_ms, st.rto_ms, st.measurement_count), (1000, 500, 1000, 0));
}

#[test]
fn rtt_sample_is_whole_milliseconds_clamped() {
    let mut s = RtoState::new();
    assert_eq!(s.measure_rtt(MicrosecondTimestamp::new(1_000), MicrosecondTimestamp::new(151_999)), 150);
    assert_eq!(s.measure_rtt(MicrosecondTimestamp::new(5_000), MicrosecondTimestamp::new(1_000)), 1);
    assert_eq!(s.measure_rtt(MicrosecondTimestamp::new(0), MicrosecondTimestamp::new(90_000_000)), 60_000);
    let st = s.get_statistics();
    assert_eq!(st.measurement_count, 3);
    assert_eq!(st.last_measurement_time.as_u64(), 90_000_000);
}

#[test]
fn rto_follows_the_smoothing_formulas() {
    let mut s = RtoState::new();
    // First sample: SRTT = R, RTTVAR = R / 2, RTO = SRTT + 4 RTTVAR.
    assert_eq!(s.update_rto_with_measurement(800), 2400);
    // Then SRTT = (7 * 800 + 400) / 8 = 750, RTTVAR = (3 * 400 + 400) / 4 = 400.
    assert_eq!(s.update_rto_with_measurement(400), 2350);
    let st = s.get_statistics();
    assert_eq!((st.srtt_ms, st.rttvar_ms), (750, 400));
}

#[test]
fn rto_is_clamped_to_its_bounds() {
    let mut s = RtoState::new();
    assert_eq!(s.update_rto_with_measurement(100), 1000);
    let mut t = RtoState::new();
    assert_eq!(t.update_rto_with_measurement(60_000), 60_000);
}

#[test]
fn retransmission_timeout_doubles_up_to_a_minute() {
    let mut s = RtoState::new();
    assert_eq!(s.handle_retransmission_timeout(), 2000);
    assert_eq!(s.handle_retransmission_timeout(), 4000);
    for _ in 0..10 {
        s.handle_retransmission_timeout();
    }
    assert_eq!(s.get_current_rto(), 60_000);
    s.reset_rto_estimates();
    assert_eq!(s.get_current_rto(), 1000);
}

#[test]
fn backoff_with_jitter_exact_values() {
    assert_eq!(backoff_with_jitter(3, 100, 10_000, 5), 805);
    assert_eq!(backoff_with_jitter(0, 100, 10_000, 0), 100);
    assert_eq!(backoff_with_jitter(10, 100, 5_000, 0), 5_000);
    assert_eq!(backoff_with_jitter(1, u64::MAX, u64::MAX, 10), u64::MAX);
}

#[test]
fn exponential_backoff_stays_within_its_jitter() {
    let m = TimeoutManager::new();
    for _ in 0..50 {
        let b = m.calculate_exponential_backoff(2, 1000, 100_000);
        assert!((4000..=4400).contains(&b), "{}", b);
    }
    assert_eq!(m.calculate_exponential_backoff(20, 1000, 100_000), 100_000);
}

#[test]
fn retransmission_timer_expires_and_backs_off() {
    let mut m = TimeoutManager::new();
    m.send_packet_with_timing_at(PacketId::new(1), SequenceNumber::new(10), 1_000_000, 1_000).unwrap();
    assert!(m.check_retransmission_timers(1_999).is_empty());
    assert_eq!(m.check_retransmission_timers(2_000), vec![PacketId::new(1)]);
    assert_eq!(m.handle_retransmission_timer_expiry_at(PacketId::new(1), 2_000_000, 2_000).unwrap(), true);
    assert_eq!(m.get_rto_statistics().rto_ms, 2000);
    assert!(m.check_retransmission_timers(3_999).is_empty());
    assert_eq!(m.check_retransmission_timers(4_000), vec![PacketId::new(1)]);
    // An unknown packet needs nothing.
    assert_eq!(m.handle_retransmission_timer_expiry_at(PacketId::new(99), 2_000_000, 2_000).unwrap(), false);
}

#[test]
fn retransmission_gives_up_after_the_last_attempt() {
    let mut m = TimeoutManager::new();
    m.send_packet_with_timing_at(PacketId::new(5), SequenceNumber::new(1), 0, 0).unwrap();
    for _ in 0..8 {
        assert_eq!(m.handle_retransmission_timer_expiry_at(PacketId::new(5), 0, 0).unwrap(), true);
    }
    assert_eq!(m.handle_retransmission_timer_expiry_at(PacketId::new(5), 0, 0).unwrap(), false);
    assert_eq!(m.handle_retransmission_timer_expiry_at(PacketId::new(5), 0, 0).unwrap(), false);
}

#[test]
fn ack_samples_only_packets_never_retransmitted() {
    let mut m = TimeoutManager::new();
    m.send_packet_with_timing_at(PacketId::new(1), SequenceNumber::new(10), 1_000_000, 1_000).unwrap();
    m.handle_retransmission_timer_expiry_at(PacketId::new(1), 2_000_000, 2_000).unwrap();
    m.handle_ack_packet_at(SequenceNumber::new(10), 2_500_000).unwrap();
    assert!(m.check_retransmission_timers(u64::MAX / 2).is_empty());
    assert_eq!(m.get_rto_statistics().rto_ms, 2000);
    assert_eq!(m.get_rto_statistics().srtt_ms, 1000);

    m.send_packet_with_timing_at(PacketId::new(2), SequenceNumber::new(20), 5_000_000, 5_000).unwrap();
    m.send_packet_with_timing_at(PacketId::new(3), SequenceNumber::new(30), 5_000_000, 5_000).unwrap();
    m.handle_ack_packet_at(SequenceNumber::new(25), 5_300_000).unwrap();
    let st = m.get_rto_statistics();
    assert_eq!((st.srtt_ms, st.rttvar_ms, st.rto_ms), (300, 150, 1000));
    assert_eq!(m.check_retransmission_timers(u64::MAX / 2), vec![PacketId::new(3)]);
}

#[test]
fn fragment_timeouts_expire_once() {
    let mut m = TimeoutManager::new();
    m.set_fragment_reassembly_timeout_at(7, 1_000);
    m.set_fragment_reassembly_timeout_at(8, 3_000);
    m.set_fragment_reassembly_timeout_at(9, 1_000);
    m.cancel_fragment_timeout(9);
    assert!(m.manage_fragment_timeouts_at(5_999, 0).unwrap().is_empty());
    assert_eq!(m.manage_fragment_timeouts_at(6_000, 0).unwrap(), vec![7]);
    assert!(m.manage_fragment_timeouts_at(6_000, 0).unwrap().is_empty());
    assert_eq!(m.manage_fragment_timeouts_at(9_000, 0).unwrap(), vec![8]);
    assert_eq!(m.get_timeout_statistics().len(), 2);
}

#[test]
fn connection_timeouts_decide_their_actions() {
    let mut m = TimeoutManager::new();
    let c = ConnectionId::new(4);
    let a = m
        .manage_connection_timeouts_at(c, ConnectionState::Connecting, Some(0), None, Some(0), 0, 30_001, 0)
        .unwrap();
    assert_eq!(a.len(), 1);
    assert!(matches!(a[0], TimeoutAction::ConnectionEstablishmentTimeout(x) if x == c));
    let a = m
        .manage_connection_timeouts_at(c, ConnectionState::Established, None, Some(0), Some(0), 3, 300_001, 0)
        .unwrap();
    assert_eq!(a.len(), 2);
    assert!(matches!(a[0], TimeoutAction::ConnectionFailure(x, _) if x == c));
    assert!(matches!(a[1], TimeoutAction::SessionIdleTimeout(x) if x == c));
    let a = m
        .manage_connection_timeouts_at(c, ConnectionState::Established, None, Some(0), Some(0), 1, 90_001, 0)
        .unwrap();
    assert_eq!(a.len(), 1);
    assert!(matches!(a[0], TimeoutAction::HeartbeatTimeout(x) if x == c));
    assert!(m
        .manage_connection_timeouts_at(c, ConnectionState::Established, None, Some(0), Some(0), 1, 90_000, 0)
        .unwrap()
        .is_empty());
}

#[test]
fn timeout_errors_back_off_until_retries_run_out() {
    let mut m = TimeoutManager::new();
    let ctx = TimeoutErrorContext::new(TimeoutEventType::Fragment, "reassembly".to_string(), None, String::new());
    let b = m.handle_timeout_error_with_backoff_at(ctx.clone(), 0).unwrap().unwrap();
    assert!((5_000..=5_500).contains(&b), "{}", b);
    let mut spent = ctx;
    for _ in 0..5 {
        spent.increment_retry();
    }
    assert!(spent.has_exceeded_max_retries());
    assert_eq!(m.handle_timeout_error_with_backoff_at(spent, 0).unwrap(), None);
    assert_eq!(m.get_timeout_statistics().len(), 2);
}

#[test]
fn packet_timestamps_outside_the_window_are_refused() {
    let m = TimeoutManager::new();
    let day: u64 = 86_400_000;
    let now = 31 * day + 10_000;
    // The month began one day ago.
    assert!(m.validate_packet_timestamp_timeout_at(day + 5_000, now).is_ok());
    assert!(m.validate_packet_timestamp_timeout_at(day - 40_000, now).is_err());
    assert!(m.validate_packet_timestamp_timeout_at(now + 100, now).is_err());
}
