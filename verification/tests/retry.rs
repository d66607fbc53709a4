use typesafe::{Duration, RetryPolicy};

#[test]
fn defaults_match_the_documented_sdk_policy() {
    let p = RetryPolicy::default();
    assert_eq!(p.max_retries, 2);
    assert_eq!(p.backoff_initial, Duration::from_millis(500));
    assert_eq!(p.backoff_max, Duration::from_secs(5));
    assert!(p.respect_retry_after);
    assert!(p.retries_status(429));
    assert!(p.retries_status(529));
    assert!(p.retries_status(408));
    assert!(p.retries_status(503));
    assert!(!p.retries_status(422));
    assert!(!p.retries_status(401));
    assert!(!p.retries_status(200));
}

#[test]
fn backoff_grows_and_stays_under_the_ceiling() {
    let p = RetryPolicy { backoff_jitter: 0, ..RetryPolicy::default() };
    assert_eq!(p.delay_for(1, None), Duration::from_millis(500));
    assert_eq!(p.delay_for(2, None), Duration::from_secs(1));
    assert_eq!(p.delay_for(3, None), Duration::from_secs(2));
    assert_eq!(p.delay_for(9, None), Duration::from_secs(5));
}

#[test]
fn retry_after_overrides_backoff() {
    let p = RetryPolicy::default();
    assert_eq!(p.delay_for(1, Some(Duration::from_secs(30))), Duration::from_secs(30));

    let ignoring =
        RetryPolicy { respect_retry_after: false, backoff_jitter: 0, ..RetryPolicy::default() };
    assert_eq!(ignoring.delay_for(1, Some(Duration::from_secs(30))), Duration::from_millis(500));
}

#[test]
fn jitter_stays_within_its_band() {
    let p = RetryPolicy::default();
    for _ in 0..200 {
        let d = p.delay_for(2, None).as_nanos();
        assert!((750_000_000..=1_250_000_000).contains(&d), "delay {d} outside jitter band");
    }
}

#[test]
fn none_policy_disables_retrying() {
    assert_eq!(RetryPolicy::none().max_retries, 0);
}

#[test]
fn jitter_scales_the_delay_by_the_clock_reading() {
    let p = RetryPolicy::default();
    let base = Duration::from_secs(1);
    assert_eq!(p.apply_jitter(base, 500_000), Duration::from_secs(1));
    assert_eq!(p.apply_jitter(base, 0), Duration::from_millis(750));
    assert_eq!(p.apply_jitter(base, 1_750_000), Duration::from_millis(1125));
    assert_eq!(p.apply_jitter(base, 999_999), Duration::from_nanos(1_249_999_500));
    let none = RetryPolicy { backoff_jitter: 0, ..RetryPolicy::default() };
    assert_eq!(none.apply_jitter(base, 0), base);
}

#[test]
fn backoff_saturates_and_caps() {
    let p = RetryPolicy {
        backoff_initial: Duration::from_secs(u64::MAX / 2),
        backoff_max: Duration::max_value(),
        backoff_jitter: 0,
        ..RetryPolicy::default()
    };
    assert_eq!(p.backoff(5), Duration::max_value());
    assert_eq!(p.backoff(0), Duration::from_secs(u64::MAX / 2));
    let q = RetryPolicy { backoff_jitter: 0, ..RetryPolicy::default() };
    assert_eq!(q.backoff(0), Duration::from_millis(500));
    assert_eq!(q.backoff(4), Duration::from_secs(4));
    assert!(q.jitter_bounded(4));
    let huge = RetryPolicy {
        backoff_initial: Duration::max_value(),
        backoff_max: Duration::max_value(),
        ..RetryPolicy::default()
    };
    assert!(!huge.jitter_bounded(1));
}

#[test]
fn an_unbounded_ceiling_still_jitters_the_early_attempts() {
    let p = RetryPolicy { backoff_max: Duration::max_value(), ..RetryPolicy::default() };
    assert!(p.jitter_bounded(1));
    assert!(p.jitter_bounded(200));
    let d = p.delay_for(1, None).as_millis();
    assert!((375..=625).contains(&d), "{d}");
    let late = p.delay_for(200, None).as_secs();
    assert!((24_575..=40_960).contains(&late), "{late}");
}

#[test]
fn server_delay_is_honoured_whatever_the_backoff_ceiling() {
    let p = RetryPolicy {
        backoff_initial: Duration::max_value(),
        backoff_max: Duration::max_value(),
        ..RetryPolicy::default()
    };
    assert!(!p.jitter_bounded(3));
    assert_eq!(p.delay_for(3, Some(Duration::from_secs(42))), Duration::from_secs(42));
}
