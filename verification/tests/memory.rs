use buckwild_protocol::error::FragmentationError;
use buckwild_protocol::fragmentation::memory::{FragmentMemoryManager, MemoryConfig};
use buckwild_protocol::values::{FragmentId, FragmentIndex, FragmentTimeout, SessionId, Timestamp};

#[test]
fn stored_fragment_is_retrieved_and_removed() {
    let mut m = FragmentMemoryManager::new();
    let sid = SessionId::new(1);
    m.store_fragment_at(sid, FragmentId::new(2), FragmentIndex::new(3), vec![1, 2, 3], Timestamp::from_nanos(0)).unwrap();
    assert_eq!(m.retrieve_fragment(sid, FragmentId::new(2), FragmentIndex::new(3)), Some(vec![1, 2, 3]));
    m.store_fragment_at(sid, FragmentId::new(2), FragmentIndex::new(3), vec![9], Timestamp::from_nanos(0)).unwrap();
    assert_eq!(m.retrieve_fragment(sid, FragmentId::new(2), FragmentIndex::new(3)), Some(vec![9]));
    assert_eq!(m.get_stats().stored_fragments, 1);
    assert!(m.remove_fragment(sid, FragmentId::new(2), FragmentIndex::new(3)));
    assert!(!m.remove_fragment(sid, FragmentId::new(2), FragmentIndex::new(3)));
    assert_eq!(m.retrieve_fragment(sid, FragmentId::new(2), FragmentIndex::new(3)), None);
}

#[test]
fn memory_limit_refuses_a_fragment() {
    let config = MemoryConfig { max_memory_usage: 4, ..MemoryConfig::default() };
    let mut m = FragmentMemoryManager::with_config(config);
    let sid = SessionId::new(1);
    assert!(m.store_fragment_at(sid, FragmentId::new(1), FragmentIndex::new(0), vec![0; 3], Timestamp::from_nanos(0)).is_ok());
    assert_eq!(
        m.store_fragment_at(sid, FragmentId::new(1), FragmentIndex::new(1), vec![0; 2], Timestamp::from_nanos(0)),
        Err(FragmentationError::ReassemblyMemoryExhausted { session_id: sid })
    );
}

#[test]
fn expired_fragments_are_dropped() {
    let config = MemoryConfig { fragment_timeout_sec: FragmentTimeout::new(30), ..MemoryConfig::default() };
    let mut m = FragmentMemoryManager::with_config(config);
    let sid = SessionId::new(4);
    m.store_fragment_at(sid, FragmentId::new(1), FragmentIndex::new(0), vec![1], Timestamp::from_nanos(0)).unwrap();
    m.store_fragment_at(sid, FragmentId::new(1), FragmentIndex::new(1), vec![2], Timestamp::from_nanos(20_000_000_000)).unwrap();
    m.cleanup_expired_fragments_at(Timestamp::from_nanos(31_000_000_000));
    assert_eq!(m.retrieve_fragment(sid, FragmentId::new(1), FragmentIndex::new(0)), None);
    assert_eq!(m.retrieve_fragment(sid, FragmentId::new(1), FragmentIndex::new(1)), Some(vec![2]));
}

#[test]
fn pooled_buffers_are_empty_and_counted() {
    let mut m = FragmentMemoryManager::new();
    let b = m.allocate_buffer(100);
    assert!(b.is_empty());
    m.deallocate_buffer(vec![7u8; 10]);
    let b2 = m.allocate_buffer(10);
    assert!(b2.is_empty());
    let stats = m.get_stats();
    assert_eq!(stats.total_allocations, 2);
    assert_eq!(stats.total_deallocations, 1);
    assert_eq!(stats.pool_stats.len(), 4);
}
