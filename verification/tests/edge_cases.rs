use buckwild_protocol::boundary_conditions::{
    BoundaryConditionManager, BoundaryConditionRecovery, BoundaryConditionSeverity, BoundaryConditionType,
    BoundaryError, SecurityError,
};
use buckwild_protocol::error::ProtocolError;
use buckwild_protocol::edge_cases::{EdgeCaseConstants, EdgeCaseError, EdgeCaseHandler, RecoveryState, SessionState};
use buckwild_protocol::packet::builder::PacketBuilderEngine;
use buckwild_protocol::packet::structures::Packet;
use buckwild_protocol::types::ConnectionState;
use buckwild_protocol::values::{FragmentId, IpAddress, SequenceNumber, SessionId, Timestamp};

#[test]
fn session_state_starts_idle_at_sequence_one() {
    let s = SessionState::new(SessionId::new(7));
    assert_eq!(s.next_sequence_number, 1);
    assert_eq!(s.peer_window_size, 65536);
    assert_eq!(s.connection_state, ConnectionState::Idle);
    let r = RecoveryState::new();
    assert_eq!(r.current_level, 0);
}

#[test]
fn edge_case_error_descriptions() {
    assert_eq!(EdgeCaseError::EmptyDataPacket.description(), "DATA packets must have payload");
    assert_eq!(EdgeCaseError::ErrorLoop.description(), "Error loop detected");
}

#[test]
fn empty_data_packet_is_an_edge_case() {
    let mut handler = EdgeCaseHandler::new();
    let packet = PacketBuilderEngine::new().data().session_id(SessionId::new(5)).payload(Vec::new()).build().unwrap();
    assert_eq!(handler.handle_packet_edge_cases(&Packet::Data(packet)), Err(EdgeCaseError::EmptyDataPacket));
    assert_eq!(handler.get_edge_cases_handled(), 1);
    let packet = PacketBuilderEngine::new().data().session_id(SessionId::new(5)).payload(vec![1]).build().unwrap();
    assert_eq!(handler.handle_packet_edge_cases(&Packet::Data(packet)), Ok(()));
}

#[test]
fn zero_session_outside_syn_is_an_edge_case() {
    let mut handler = EdgeCaseHandler::new();
    let packet = PacketBuilderEngine::new().heartbeat().session_id(SessionId::new(0)).build().unwrap();
    assert_eq!(handler.handle_packet_edge_cases(&Packet::Heartbeat(packet)), Err(EdgeCaseError::InvalidSessionId));
}

#[test]
fn malformed_packets() {
    let mut handler = EdgeCaseHandler::new();
    assert_eq!(handler.handle_malformed_packet_edge_cases(&[0u8; 10]), Err(EdgeCaseError::PacketTooShort));
    let mut data = vec![0u8; 30];
    data[3] = 4;
    assert_eq!(handler.handle_malformed_packet_edge_cases(&data), Ok(()));
    data[3] = 5;
    assert_eq!(handler.handle_malformed_packet_edge_cases(&data), Err(EdgeCaseError::PayloadLengthMismatch));
}

#[test]
fn clock_regression_over_a_second_is_refused() {
    let mut handler = EdgeCaseHandler::new();
    let sid = SessionId::new(9);
    handler.add_session(sid);
    assert_eq!(handler.handle_time_sync_edge_cases_at(sid, 10_000), Ok(()));
    assert_eq!(handler.handle_time_sync_edge_cases_at(sid, 9_500), Ok(()));
    assert_eq!(handler.handle_time_sync_edge_cases_at(sid, 7_000), Err(EdgeCaseError::ClockRegressionDetected));
}

#[test]
fn connection_edge_cases() {
    let mut handler = EdgeCaseHandler::new();
    let sid = SessionId::new(11);
    assert_eq!(handler.handle_connection_edge_cases(sid, 1, 2), Ok(()));
    handler.add_session(sid);
    assert_eq!(handler.get_active_connections(), 1);
    assert_eq!(handler.handle_connection_edge_cases(sid, 1, 2), Ok(()));
    assert_eq!(handler.handle_connection_edge_cases(sid, 3, 2), Err(EdgeCaseError::SimultaneousConnection));
    handler.remove_session(sid);
    assert_eq!(handler.get_active_connections(), 0);
    handler.set_system_shutdown(true);
    assert_eq!(handler.handle_connection_edge_cases(sid, 1, 2), Err(EdgeCaseError::SystemShuttingDown));
}

#[test]
fn resource_and_security_edge_cases() {
    let mut handler = EdgeCaseHandler::new();
    assert_eq!(handler.handle_resource_exhaustion(), Ok(()));
    handler.update_memory_usage(EdgeCaseConstants::MIN_REQUIRED_MEMORY);
    assert_eq!(handler.handle_resource_exhaustion(), Err(EdgeCaseError::MemoryExhausted));
    assert_eq!(handler.get_boundary_conditions_detected(), 2);
    assert_eq!(handler.handle_security_edge_cases_at(0, 10_000, 15_000), Ok(()));
    assert_eq!(handler.handle_security_edge_cases_at(0, 10_000, 15_001), Err(EdgeCaseError::TimestampAttackDetected));
}

#[test]
fn error_processing_stops_after_ten_answers() {
    let mut handler = EdgeCaseHandler::new();
    assert_eq!(handler.handle_error_processing_edge_cases(300), Err(EdgeCaseError::UnknownError));
    for _ in 0..10 {
        assert_eq!(handler.handle_error_processing_edge_cases(1), Ok(()));
    }
    assert_eq!(handler.handle_error_processing_edge_cases(1), Err(EdgeCaseError::ErrorLoop));
    handler.cleanup_expired_entries_at(0);
    assert_eq!(handler.handle_error_processing_edge_cases(1), Ok(()));
}

#[test]
fn fragmentation_edge_cases() {
    let mut handler = EdgeCaseHandler::new();
    let seq = SequenceNumber::new(1);
    assert_eq!(
        handler.handle_fragmentation_edge_cases_at(FragmentId::new(1), 3, 3, seq, &[1], 0),
        Err(EdgeCaseError::FragmentIndexOutOfBounds)
    );
    assert_eq!(
        handler.handle_fragmentation_edge_cases_at(FragmentId::new(1), 0, 1001, seq, &[1], 0),
        Err(EdgeCaseError::TooManyFragments)
    );
    assert_eq!(
        handler.handle_fragmentation_edge_cases_at(FragmentId::new(1), 2, 3, seq, &[], 0),
        Err(EdgeCaseError::EmptyFinalFragment)
    );
    assert_eq!(handler.handle_fragmentation_edge_cases_at(FragmentId::new(1), 1, 3, seq, &[1], 0), Ok(()));
}

#[test]
fn fatal_boundary_condition_fails() {
    let mut manager = BoundaryConditionManager::new();
    let r = manager.handle_boundary_condition_at(
        BoundaryConditionType::MemoryExhaustion,
        None,
        BoundaryConditionSeverity::Fatal,
        "out of memory".to_string(),
        Timestamp::from_nanos(1),
    );
    assert_eq!(r, Err(BoundaryError::Internal("Fatal boundary condition: Memory exhaustion - out of memory".to_string())));
    assert_eq!(manager.get_stats().fatal_conditions.as_u64(), 1);
    assert_eq!(manager.get_stats().failed_recoveries.as_u64(), 1);
    assert_eq!(manager.get_recent_events(10).len(), 1);
}

#[test]
fn sequence_wraparound_resets_the_session() {
    let mut manager = BoundaryConditionManager::new();
    let r = manager.check_sequence_wraparound_at(SessionId::new(3), SequenceNumber::new(0x8000_0001), Timestamp::from_nanos(1));
    assert_eq!(r, Ok(()));
    let events = manager.get_recent_events(5);
    assert_eq!(events.len(), 1);
    assert_eq!(events[0].context, "Sequence number 2147483649 approaching wraparound");
    assert_eq!(manager.get_stats().successful_recoveries.as_u64(), 1);
    let r = manager.check_sequence_wraparound_at(SessionId::new(3), SequenceNumber::new(5), Timestamp::from_nanos(1));
    assert_eq!(r, Ok(()));
    assert_eq!(manager.get_recent_events(5).len(), 1);
}

#[test]
fn month_boundary_warning() {
    let mut manager = BoundaryConditionManager::new();
    let month: u64 = 30 * 24 * 3600;
    let near_end = Timestamp::from_nanos((month - 100) * 1_000_000_000);
    assert_eq!(manager.check_time_boundaries_at(near_end), Ok(()));
    let events = manager.get_recent_events(5);
    assert_eq!(events.len(), 1);
    assert_eq!(events[0].context, "Month boundary in 100 seconds");
    let far = Timestamp::from_nanos(10 * 1_000_000_000);
    assert_eq!(manager.check_time_boundaries_at(far), Ok(()));
    assert_eq!(manager.get_recent_events(5).len(), 1);
}

fn heartbeat(session: u64) -> Packet {
    Packet::Heartbeat(PacketBuilderEngine::new().heartbeat().session_id(SessionId::new(session)).build().unwrap())
}

#[test]
fn boundary_checks_refuse_an_invalid_size_first() {
    let mut m = BoundaryConditionManager::new();
    let p = heartbeat(9);
    let size = p.total_size();
    let replay = Err(SecurityError::ReplayAttack { reason: "seen".to_string() });
    let r = m.validate_packet_with_boundary_checks_at(&p, IpAddress::new(1), false, replay, Ok(()), Timestamp::from_millis(5));
    assert_eq!(r, Err(BoundaryError::Validation(format!("Invalid packet size: {}", size))));
    let events = m.get_recent_events(10);
    assert_eq!(events.len(), 1);
    assert_eq!(events[0].condition_type, BoundaryConditionType::PacketSizeLimit);
    assert_eq!(events[0].severity, BoundaryConditionSeverity::Error);
    assert_eq!(events[0].context, format!("Packet size {} outside valid range", size));
    assert_eq!(events[0].session_id, Some(SessionId::new(9)));
}

#[test]
fn boundary_checks_map_security_failures() {
    let mut m = BoundaryConditionManager::new();
    let p = heartbeat(9);
    let e = SecurityError::ReplayAttack { reason: "replayed".to_string() };
    let r = m.validate_packet_with_boundary_checks_at(&p, IpAddress::new(1), true, Err(e.clone()), Ok(()), Timestamp::from_millis(5));
    assert_eq!(r, Err(BoundaryError::Security(e)));
    let events = m.get_recent_events(10);
    assert_eq!(events[0].condition_type, BoundaryConditionType::AttackDetectionThreshold);
    assert_eq!(events[0].severity, BoundaryConditionSeverity::Critical);
    assert_eq!(events[0].recovery_action, Some(BoundaryConditionRecovery::SecurityResponse));
    assert_eq!(events[0].context, "Security validation failed: replayed");

    let e = SecurityError::TimestampValidationFailed { reason: "late".to_string() };
    m.validate_packet_with_boundary_checks_at(&p, IpAddress::new(1), true, Err(e), Ok(()), Timestamp::from_millis(6)).unwrap_err();
    let events = m.get_recent_events(1);
    assert_eq!(events[0].condition_type, BoundaryConditionType::ClockSynchronizationFailure);
    assert_eq!(events[0].severity, BoundaryConditionSeverity::Error);

    let e = SecurityError::InvalidSessionId { reason: "unknown".to_string() };
    let r = m.validate_packet_with_boundary_checks_at(&p, IpAddress::new(1), true, Ok(()), Err(e.clone()), Timestamp::from_millis(7));
    assert_eq!(r, Err(BoundaryError::Security(e)));
    let events = m.get_recent_events(1);
    assert_eq!(events[0].condition_type, BoundaryConditionType::SessionIdExhaustion);
    assert_eq!(events[0].context, "Session ID validation failed: unknown");
}

#[test]
fn boundary_checks_end_with_the_edge_cases() {
    let mut m = BoundaryConditionManager::new();
    assert_eq!(m.validate_packet_with_boundary_checks_at(&heartbeat(9), IpAddress::new(1), true, Ok(()), Ok(()), Timestamp::from_millis(5)), Ok(()));
    assert!(m.get_recent_events(10).is_empty());
    let empty = Packet::Data(PacketBuilderEngine::new().data().session_id(SessionId::new(5)).payload(Vec::new()).build().unwrap());
    let r = m.validate_packet_with_boundary_checks_at(&empty, IpAddress::new(1), true, Ok(()), Ok(()), Timestamp::from_millis(5));
    assert_eq!(
        r,
        Err(BoundaryError::Protocol(ProtocolError::InvalidFormat("DATA packets must have payload".to_string())))
    );
    let events = m.get_recent_events(10);
    assert_eq!(events.len(), 1);
    assert_eq!(events[0].condition_type, BoundaryConditionType::PacketSizeLimit);
    assert_eq!(events[0].context, "Edge case detected: DATA packets must have payload");
}
