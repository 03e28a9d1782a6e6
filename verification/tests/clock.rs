use agentloom_db::clock::{now_ms, now_secs, stored_millis, stored_seconds};

#[test]
fn now_secs_is_positive() {
    assert!(now_secs() > 1_600_000_000);
}

#[test]
fn milliseconds_keep_pace_with_seconds() {
    let before = now_secs();
    let millis = now_ms();
    let after = now_secs();
    assert!(before * 1000 <= millis && millis < (after + 1) * 1000);
}

#[test]
fn a_clock_before_the_epoch_counts_as_zero() {
    assert_eq!(stored_seconds(None), 0);
    assert_eq!(stored_millis(None), 0);
    assert_eq!(stored_seconds(Some(1_700_000_000)), 1_700_000_000);
    assert_eq!(stored_millis(Some(1_700_000_000_123)), 1_700_000_000_123);
}
