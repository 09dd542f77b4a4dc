use buckwild_protocol::constants::{TIME_SYNC_PRECISION_MS, TIME_SYNC_PRECISION_NS};
use buckwild_protocol::values::FragmentTimeout;

#[test]
fn test_time_sync_precision_constant_exists() {
    assert_eq!(TIME_SYNC_PRECISION_MS, 10);
}

#[test]
fn test_time_sync_precision_correct_value() {
    assert_eq!(TIME_SYNC_PRECISION_MS, 10);
}

#[test]
fn test_time_sync_precision_nanosecond_conversion() {
    assert_eq!(TIME_SYNC_PRECISION_NS, 10_000_000);
}

#[test]
fn test_fragment_bomb_timeout_5_seconds() {
    assert_eq!(
        FragmentTimeout::FRAGMENT_TIMEOUT_MS,
        5000,
        "Fragment timeout should be 5000ms (5 seconds)"
    );
}
