use validator_network::backoff::{
    BackoffCursor, BackoffPolicy, BACKOFF_BASE_MS, BACKOFF_FACTOR, MAX_CONNECTION_DELAY_MS,
};

#[test]
fn default_delays_double_from_two_seconds() {
    let policy = BackoffPolicy::with_max_delay(MAX_CONNECTION_DELAY_MS);
    let expected = [2000u64, 4000, 8000, 16000, 32000, 64000, 128000, 256000, 512000];
    for (attempt, delay) in expected.iter().enumerate() {
        assert_eq!(policy.next_delay(attempt as u8), *delay);
    }
}

#[test]
fn default_delays_stop_at_ten_minutes() {
    let policy = BackoffPolicy::with_max_delay(MAX_CONNECTION_DELAY_MS);
    assert_eq!(MAX_CONNECTION_DELAY_MS, 600_000);
    assert_eq!(policy.next_delay(9), 600_000);
    assert_eq!(policy.next_delay(10), 600_000);
    assert_eq!(policy.next_delay(63), 600_000);
    assert_eq!(policy.next_delay(64), 600_000);
    assert_eq!(policy.next_delay(255), 600_000);
}

#[test]
fn with_max_delay_uses_the_default_base_and_factor() {
    let policy = BackoffPolicy::with_max_delay(77);
    assert_eq!(policy, BackoffPolicy::new(BACKOFF_BASE_MS, BACKOFF_FACTOR, 77));
    assert_eq!(policy.base_ms, 2);
    assert_eq!(policy.factor, 1000);
    assert_eq!(policy.next_delay(0), 77);
}

#[test]
fn delays_are_powers_of_the_base_times_the_factor() {
    let policy = BackoffPolicy::new(10, 1, u64::MAX);
    assert_eq!(policy.next_delay(0), 10);
    assert_eq!(policy.next_delay(1), 100);
    assert_eq!(policy.next_delay(2), 1000);
    let policy = BackoffPolicy::new(3, 7, u64::MAX);
    assert_eq!(policy.next_delay(0), 21);
    assert_eq!(policy.next_delay(3), 81 * 7);
}

#[test]
fn delays_saturate() {
    let policy = BackoffPolicy::new(u64::MAX - 1, 1, u64::MAX);
    assert_eq!(policy.next_delay(0), u64::MAX - 1);
    assert_eq!(policy.next_delay(1), u64::MAX);
    assert_eq!(policy.next_delay(2), u64::MAX);
    let policy = BackoffPolicy::new(2, u64::MAX, u64::MAX);
    assert_eq!(policy.next_delay(0), u64::MAX);
    let policy = BackoffPolicy::new(2, 1, u64::MAX);
    assert_eq!(policy.next_delay(62), 1u64 << 63);
    assert_eq!(policy.next_delay(63), u64::MAX);
    assert_eq!(policy.next_delay(200), u64::MAX);
}

#[test]
fn degenerate_bases_stay_constant() {
    let zero = BackoffPolicy::new(0, 1000, 600_000);
    let one = BackoffPolicy::new(1, 1000, 600_000);
    for attempt in [0u8, 1, 2, 50, 255] {
        assert_eq!(zero.next_delay(attempt), 0);
        assert_eq!(one.next_delay(attempt), 1000);
    }
}

#[test]
fn delays_never_shrink_and_never_pass_the_maximum() {
    for policy in [
        BackoffPolicy::with_max_delay(MAX_CONNECTION_DELAY_MS),
        BackoffPolicy::new(3, 5, 1_000_000),
        BackoffPolicy::new(1, 1, 0),
        BackoffPolicy::new(u64::MAX, u64::MAX, u64::MAX),
    ] {
        let mut previous = 0;
        for attempt in 0..=255u8 {
            let delay = policy.next_delay(attempt);
            assert!(delay >= previous);
            assert!(delay <= policy.max_delay_ms);
            previous = delay;
        }
    }
}

#[test]
fn cap_takes_the_smaller_and_stands_in_for_none() {
    let policy = BackoffPolicy::new(2, 1000, 500);
    assert_eq!(policy.cap(Some(499)), 499);
    assert_eq!(policy.cap(Some(500)), 500);
    assert_eq!(policy.cap(Some(501)), 500);
    assert_eq!(policy.cap(None), 500);
}

#[test]
fn fresh_cursor_is_due_at_once() {
    let cursor = BackoffCursor::fresh();
    assert_eq!(cursor, BackoffCursor { next_retry_ms: 0, attempts: 0 });
    assert!(cursor.is_due(0));
    assert!(cursor.is_due(u64::MAX));
}

#[test]
fn advance_waits_for_the_pending_delay_and_grows_the_next() {
    let policy = BackoffPolicy::with_max_delay(MAX_CONNECTION_DELAY_MS);
    let mut cursor = BackoffCursor::fresh();
    cursor.advance(&policy, 1000);
    assert_eq!(cursor, BackoffCursor { next_retry_ms: 3000, attempts: 1 });
    assert!(!cursor.is_due(2999));
    assert!(cursor.is_due(3000));
    cursor.advance(&policy, 3000);
    assert_eq!(cursor, BackoffCursor { next_retry_ms: 7000, attempts: 2 });
    cursor.advance(&policy, 10_000);
    assert_eq!(cursor, BackoffCursor { next_retry_ms: 18_000, attempts: 3 });
}

#[test]
fn advance_saturates_in_time_and_in_attempts() {
    let policy = BackoffPolicy::with_max_delay(MAX_CONNECTION_DELAY_MS);
    let mut cursor = BackoffCursor { next_retry_ms: 0, attempts: 254 };
    cursor.advance(&policy, u64::MAX - 5);
    assert_eq!(cursor, BackoffCursor { next_retry_ms: u64::MAX, attempts: 255 });
    cursor.advance(&policy, 0);
    assert_eq!(cursor, BackoffCursor { next_retry_ms: 600_000, attempts: 255 });
}

#[test]
fn withdraw_makes_the_dial_due_and_takes_the_attempt_back() {
    let mut cursor = BackoffCursor { next_retry_ms: 9000, attempts: 3 };
    cursor.withdraw();
    assert_eq!(cursor, BackoffCursor { next_retry_ms: 0, attempts: 2 });
    let mut cursor = BackoffCursor { next_retry_ms: 9000, attempts: 0 };
    cursor.withdraw();
    assert_eq!(cursor, BackoffCursor { next_retry_ms: 0, attempts: 0 });
}
