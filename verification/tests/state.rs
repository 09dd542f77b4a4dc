use buckwild_protocol::packet::header::PacketHeader;
use buckwild_protocol::packet::structures::{AckPacket, DataPacket, Packet, SynAckPacket, SynPacket};
use buckwild_protocol::state::{
    calculate_new_state, is_valid_transition, session_state_of, ProtocolStateManager, StateConfig,
    StateTransitionRequest, StateTransitionResult,
};
use buckwild_protocol::types::{
    ConnectionState, HmacPolicy, PacketFlags, PacketType, SessionIdLength, SessionState, SubType, TimestampConfig,
    VersionByte,
};
use buckwild_protocol::values::{
    AckNumber, ConnectionCount, ConnectionParams, EcdhPublicKey, HmacTag, PayloadLength, ProtocolVersion,
    SequenceNumber, SessionConfig, SessionCount, SessionId, Timestamp, WindowSize,
};

fn header(t: PacketType, session: u64, seq: u32) -> PacketHeader {
    PacketHeader::new(
        VersionByte::new(1, SessionIdLength::Bits32, TimestampConfig::Bits24),
        t,
        SubType::new(0),
        PacketFlags::new(),
        SessionId::new(session),
        SequenceNumber::new(seq),
        AckNumber::new(0),
        Timestamp::from_millis(1_000),
        PayloadLength::new(0),
        HmacPolicy::Medium,
    )
}

fn syn(session: u64, seq: u32) -> Packet {
    Packet::Syn(SynPacket {
        header: header(PacketType::Syn, session, seq),
        hmac: HmacTag::default(),
        initial_sequence: SequenceNumber::new(seq),
        protocol_version: ProtocolVersion::new(1),
        session_config: SessionConfig::default(),
        connection_params: ConnectionParams::default(),
        client_public_key: EcdhPublicKey::new([1u8; 64]),
        psk_auth_hash: [0u8; 32],
        key_exchange_id: 7,
    })
}

fn syn_ack(session: u64, seq: u32) -> Packet {
    Packet::SynAck(SynAckPacket {
        header: header(PacketType::SynAck, session, seq),
        hmac: HmacTag::default(),
        ack_sequence: SequenceNumber::new(seq),
        server_sequence: SequenceNumber::new(seq),
        protocol_version: ProtocolVersion::new(1),
        session_config: SessionConfig::default(),
        connection_params: ConnectionParams::default(),
        server_public_key: EcdhPublicKey::new([2u8; 64]),
        key_exchange_id: 7,
        shared_secret_verification: [0u8; 32],
    })
}

fn ack(session: u64, seq: u32) -> Packet {
    Packet::Ack(AckPacket {
        header: header(PacketType::Ack, session, seq),
        hmac: HmacTag::default(),
        window_size: WindowSize::new(1024),
        sack_data: None,
    })
}

fn data(session: u64, seq: u32) -> Packet {
    Packet::Data(DataPacket {
        header: header(PacketType::Data, session, seq),
        hmac: HmacTag::default(),
        window_size: WindowSize::new(1024),
        fragment_header: None,
        payload: vec![1, 2, 3],
    })
}

fn success(r: StateTransitionResult) -> (ConnectionState, ConnectionState) {
    match r {
        StateTransitionResult::Success { old_state, new_state } => (old_state, new_state),
        other => panic!("unexpected result {:?}", other),
    }
}

#[test]
fn state_machine_follows_the_client_handshake() {
    let s1 = calculate_new_state(ConnectionState::Idle, PacketType::Syn, true);
    assert_eq!(s1, ConnectionState::SynSent);
    let s2 = calculate_new_state(s1, PacketType::SynAck, false);
    assert_eq!(s2, ConnectionState::Established);
    assert!(is_valid_transition(ConnectionState::Idle, s1, PacketType::Syn));
    assert!(is_valid_transition(s1, s2, PacketType::SynAck));
}

#[test]
fn state_machine_follows_the_server_handshake_and_close() {
    let s1 = calculate_new_state(ConnectionState::Closed, PacketType::Syn, false);
    assert_eq!(s1, ConnectionState::SynReceived);
    let s2 = calculate_new_state(s1, PacketType::Ack, false);
    assert_eq!(s2, ConnectionState::Established);
    let s3 = calculate_new_state(s2, PacketType::Fin, false);
    assert_eq!(s3, ConnectionState::CloseWait);
    assert_eq!(calculate_new_state(s3, PacketType::Ack, true), ConnectionState::Closed);
    let f = calculate_new_state(ConnectionState::Established, PacketType::Fin, true);
    assert_eq!(f, ConnectionState::FinWait);
    assert_eq!(calculate_new_state(f, PacketType::Ack, false), ConnectionState::Closed);
}

#[test]
fn reset_and_error_apply_from_any_state() {
    for s in [
        ConnectionState::Idle,
        ConnectionState::SynSent,
        ConnectionState::Established,
        ConnectionState::FinWait,
        ConnectionState::Recovering,
    ] {
        assert_eq!(calculate_new_state(s, PacketType::Rst, false), ConnectionState::Closed);
        assert_eq!(calculate_new_state(s, PacketType::Error, true), ConnectionState::Error);
    }
    assert_eq!(calculate_new_state(ConnectionState::Error, PacketType::Data, false), ConnectionState::Recovering);
    assert_eq!(calculate_new_state(ConnectionState::Recovering, PacketType::Ack, false), ConnectionState::Established);
}

#[test]
fn unexpected_packet_leaves_the_state_unchanged() {
    assert_eq!(calculate_new_state(ConnectionState::SynSent, PacketType::Data, false), ConnectionState::SynSent);
    assert!(is_valid_transition(ConnectionState::SynSent, ConnectionState::SynSent, PacketType::Data));
    assert!(!is_valid_transition(ConnectionState::Idle, ConnectionState::Established, PacketType::Data));
}

#[test]
fn session_state_follows_connection_state() {
    assert_eq!(session_state_of(ConnectionState::Established), SessionState::Active);
    assert_eq!(session_state_of(ConnectionState::Closed), SessionState::Terminated);
    assert_eq!(session_state_of(ConnectionState::FinWait), SessionState::Terminating);
    assert_eq!(session_state_of(ConnectionState::Recovering), SessionState::Degraded);
    assert_eq!(session_state_of(ConnectionState::SynSent), SessionState::Initializing);
}

#[test]
fn manager_tracks_a_client_handshake() {
    let mut m = ProtocolStateManager::new();
    let sid = SessionId::new(42);
    assert_eq!(m.get_connection_state(sid).unwrap(), None);
    let now = Timestamp::from_millis(10);
    let r = m
        .process_transition_at(StateTransitionRequest { session_id: sid, packet: syn(42, 100), is_local: true }, now)
        .unwrap();
    assert_eq!(success(r), (ConnectionState::Closed, ConnectionState::SynSent));
    assert_eq!(m.get_session_state(sid).unwrap(), Some(SessionState::Initializing));
    let r = m
        .process_transition_at(StateTransitionRequest { session_id: sid, packet: syn_ack(42, 500), is_local: false }, now)
        .unwrap();
    assert_eq!(success(r), (ConnectionState::SynSent, ConnectionState::Established));
    assert_eq!(m.get_connection_state(sid).unwrap(), Some(ConnectionState::Established));
    assert_eq!(m.get_session_state(sid).unwrap(), Some(SessionState::Active));
    let r = m
        .process_transition_at(StateTransitionRequest { session_id: sid, packet: data(42, 101), is_local: true }, now)
        .unwrap();
    assert_eq!(success(r), (ConnectionState::Established, ConnectionState::Established));
    let conns = m.get_active_connections().unwrap();
    assert_eq!(conns.len(), 1);
    assert_eq!(conns[0].local_sequence.as_u32(), 101);
    assert_eq!(conns[0].remote_sequence.as_u32(), 500);
    let stats = m.get_stats().unwrap();
    assert_eq!(stats.total_transitions.as_u64(), 3);
    assert_eq!(stats.active_connections, ConnectionCount::new(1));
    assert_eq!(stats.active_sessions, SessionCount::new(1));
    m.reset_stats().unwrap();
    assert_eq!(m.get_stats().unwrap().total_transitions.as_u64(), 0);
}

#[test]
fn manager_tracks_a_server_handshake() {
    let mut m = ProtocolStateManager::new();
    let sid = SessionId::new(9);
    let now = Timestamp::from_millis(10);
    let r = m
        .process_transition_at(StateTransitionRequest { session_id: sid, packet: syn(9, 1), is_local: false }, now)
        .unwrap();
    assert_eq!(success(r), (ConnectionState::Closed, ConnectionState::SynReceived));
    let r = m
        .process_transition_at(StateTransitionRequest { session_id: sid, packet: ack(9, 2), is_local: false }, now)
        .unwrap();
    assert_eq!(success(r), (ConnectionState::SynReceived, ConnectionState::Established));
    let sessions = m.get_active_sessions().unwrap();
    assert_eq!(sessions.len(), 1);
    assert_eq!(sessions[0].state, SessionState::Active);
    assert_eq!(sessions[0].connection_count, ConnectionCount::new(1));
}

#[test]
fn cleanup_drops_idle_connections_only() {
    let config = StateConfig { connection_timeout: 1_000, session_timeout: 1_000, ..StateConfig::default() };
    let mut m = ProtocolStateManager::with_config(config);
    let old = Timestamp::from_millis(1_000);
    let fresh = Timestamp::from_millis(5_000);
    m.process_transition_at(StateTransitionRequest { session_id: SessionId::new(1), packet: syn(1, 1), is_local: true }, old)
        .unwrap();
    m.process_transition_at(StateTransitionRequest { session_id: SessionId::new(2), packet: syn(2, 1), is_local: true }, fresh)
        .unwrap();
    m.cleanup_expired_states_at(Timestamp::from_millis(5_500)).unwrap();
    assert_eq!(m.get_connection_state(SessionId::new(1)).unwrap(), None);
    assert_eq!(m.get_connection_state(SessionId::new(2)).unwrap(), Some(ConnectionState::SynSent));
    assert_eq!(m.get_session_state(SessionId::new(1)).unwrap(), None);
    let stats = m.get_stats().unwrap();
    assert_eq!(stats.expired_connections, ConnectionCount::new(1));
    assert_eq!(stats.expired_sessions, SessionCount::new(1));
}

#[test]
fn metrics_update_applies_to_tracked_sessions() {
    let mut m = ProtocolStateManager::new();
    let sid = SessionId::new(3);
    m.process_transition_at(StateTransitionRequest { session_id: sid, packet: syn(3, 1), is_local: true }, Timestamp::from_millis(1))
        .unwrap();
    m.update_session_metrics(sid, |mut x| {
        x.packets_sent = buckwild_protocol::values::PacketCount::new(5);
        x
    })
    .unwrap();
    let sessions = m.get_active_sessions().unwrap();
    assert_eq!(sessions[0].metrics.packets_sent.as_u64(), 5);
    m.update_session_metrics(SessionId::new(99), |x| x).unwrap();
    assert_eq!(m.get_active_sessions().unwrap().len(), 1);
}
