use ethproofs_client::reconnect::{backoff_ms, Reconnect};

#[test]
fn backoff_doubles_up_to_64_seconds() {
    let expected = [1000u64, 2000, 4000, 8000, 16000, 32000, 64000, 64000, 64000];
    for (attempt, ms) in expected.iter().enumerate() {
        assert_eq!(backoff_ms(attempt as u32), *ms);
    }
    assert_eq!(backoff_ms(u32::MAX), 64000);
}

#[test]
fn backoff_matches_saturating_formula() {
    for attempt in [0u32, 1, 5, 6, 7, 100, u32::MAX] {
        let formula = 1_000u64.saturating_mul(2u64.saturating_pow(attempt.min(6)));
        assert_eq!(backoff_ms(attempt), formula);
    }
}

#[test]
fn reconnect_counts_failures_and_resets() {
    let mut r = Reconnect::new();
    assert_eq!(r.backoff(), 1000);
    assert_eq!(r.backoff(), 2000);
    assert_eq!(r.attempt, 2);
    r.connected();
    assert_eq!(r.attempt, 0);
    assert_eq!(r.backoff(), 1000);
    let mut s = Reconnect { attempt: u32::MAX };
    assert_eq!(s.backoff(), 64000);
    assert_eq!(s.attempt, u32::MAX);
}
