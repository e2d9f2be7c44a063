use isq::governor::{
    backoff_for_roll, base_backoff_secs, calculate_backoff, cycle_pause, cycle_pause_for_roll,
    get_retry_delay, is_rate_limited, jitter, next_fetch_step, page_count, throttle_write,
    BackoffTable, FetchOutcome, RetryStep, MAX_RETRIES,
};

fn secs(millis: u64) -> f64 {
    millis as f64 / 1000.0
}

#[test]
fn test_calculate_backoff_base_case() {
    // 0 failures = base interval (30s) with jitter
    let backoff = calculate_backoff(0);
    let secs = secs(backoff);

    // Base is 30s, jitter is ±25%, so range is 22.5 to 37.5
    assert!(secs >= 22.5, "backoff {} too low for 0 failures", secs);
    assert!(secs <= 37.5, "backoff {} too high for 0 failures", secs);
}

#[test]
fn test_calculate_backoff_exponential_growth() {
    // Test that backoff grows exponentially (within jitter bounds)
    // 1 failure = 60s base, 2 = 120s, 3 = 240s, etc.

    let b1 = secs(calculate_backoff(1));
    let b2 = secs(calculate_backoff(2));
    let b3 = secs(calculate_backoff(3));

    // With ±25% jitter: 1 failure = 45-75s, 2 = 90-150s, 3 = 180-300s
    assert!(b1 >= 45.0 && b1 <= 75.0, "1 failure backoff {} out of range", b1);
    assert!(b2 >= 90.0 && b2 <= 150.0, "2 failure backoff {} out of range", b2);
    assert!(b3 >= 180.0 && b3 <= 300.0, "3 failure backoff {} out of range", b3);
}

#[test]
fn test_calculate_backoff_caps_at_max() {
    // Exponent caps at 6: 30 * 2^6 = 1920s max
    // With ±25% jitter: 1440 to 2400
    let backoff = calculate_backoff(10);
    let secs = secs(backoff);

    assert!(secs >= 1440.0, "max backoff {} too low", secs);
    assert!(secs <= 2400.0, "max backoff {} too high", secs);
}

#[test]
fn test_calculate_backoff_very_high_failures() {
    // Even with extreme failures, should not overflow and should cap at 1920s
    let backoff = calculate_backoff(100);
    let secs = secs(backoff);

    // Should be capped at 1920s with ±25% jitter = 1440 to 2400
    assert!(secs >= 1440.0 && secs <= 2400.0, "extreme failure backoff {} should be capped", secs);
    let most = secs_of_extreme();
    assert!(most >= 1440.0 && most <= 2400.0);
}

fn secs_of_extreme() -> f64 {
    secs(calculate_backoff(u32::MAX))
}

#[test]
fn test_calculate_backoff_has_jitter() {
    // Run multiple times and verify we get different values (jitter working)
    let mut values: Vec<f64> = Vec::new();
    for _ in 0..10 {
        values.push(secs(calculate_backoff(2)));
    }

    // Check that not all values are identical (jitter is applied)
    let first = values[0];
    let has_variation = values.iter().any(|&v| (v - first).abs() > 0.001);
    assert!(has_variation, "backoff should have jitter variation");
}

#[test]
fn base_backoff_doubles_six_times() {
    let expected = [30u64, 60, 120, 240, 480, 960, 1920, 1920, 1920];
    for (failures, secs) in expected.iter().enumerate() {
        assert_eq!(base_backoff_secs(failures as u32), *secs);
    }
    assert_eq!(base_backoff_secs(u32::MAX), 1920);
}

#[test]
fn jitter_spans_a_quarter_either_way() {
    assert_eq!(jitter(30, 0), 22_500);
    assert_eq!(jitter(30, 1 << 31), 30_000);
    assert_eq!(jitter(30, u32::MAX), 37_499);
    assert_eq!(jitter(3600, 0), 2_700_000);
    assert_eq!(jitter(3600, u32::MAX), 4_499_999);
    // never under a second
    assert_eq!(jitter(0, 0), 1000);
    assert_eq!(jitter(1, 0), 1000);
    assert_eq!(backoff_for_roll(0, 0), 22_500);
    assert_eq!(backoff_for_roll(3, 1 << 31), 240_000);
    assert_eq!(backoff_for_roll(6, u32::MAX), 2_399_999);
}

#[test]
fn backoff_stays_in_range_for_every_count() {
    for n in 0..40u32 {
        let base = base_backoff_secs(n);
        for _ in 0..20 {
            let millis = calculate_backoff(n);
            assert!(millis >= 750 * base && millis <= 1250 * base && millis >= 1000);
        }
    }
}

#[test]
fn cycle_pause_is_jittered_by_a_tenth() {
    assert_eq!(cycle_pause_for_roll(0), 27_000);
    assert_eq!(cycle_pause_for_roll(1 << 31), 30_000);
    assert_eq!(cycle_pause_for_roll(u32::MAX), 32_999);
    let mut seen = Vec::new();
    for _ in 0..20 {
        let pause = cycle_pause();
        assert!(pause >= 27_000 && pause <= 33_000);
        seen.push(pause);
    }
    assert!(seen.iter().any(|p| *p != seen[0]));
}

#[test]
fn rate_limit_signal_needs_status_and_words() {
    assert!(is_rate_limited(403, "API rate limit exceeded"));
    assert!(is_rate_limited(429, "You have exceeded a secondary rate limit"));
    assert!(!is_rate_limited(403, "Forbidden"));
    assert!(!is_rate_limited(500, "rate limit"));
    assert!(!is_rate_limited(403, "Rate Limit"));
}

#[test]
fn retry_delay_prefers_the_header() {
    assert_eq!(get_retry_delay(Some("45"), 0), 45);
    assert_eq!(get_retry_delay(Some("+7"), 2), 7);
    assert_eq!(get_retry_delay(Some("0"), 2), 0);
    assert_eq!(get_retry_delay(Some("soon"), 0), 1);
    assert_eq!(get_retry_delay(Some(""), 1), 2);
    assert_eq!(get_retry_delay(Some("-3"), 2), 4);
    assert_eq!(get_retry_delay(Some("18446744073709551616"), 1), 2);
    assert_eq!(get_retry_delay(Some("18446744073709551615"), 1), u64::MAX);
    assert_eq!(get_retry_delay(None, 0), 1);
    assert_eq!(get_retry_delay(None, 1), 2);
    assert_eq!(get_retry_delay(None, 2), 4);
    assert_eq!(get_retry_delay(None, 63), 1 << 63);
}

fn refused(status: u16, retry_after: Option<&str>, body: &str) -> FetchOutcome {
    FetchOutcome::Refused {
        status,
        retry_after: retry_after.map(|s| s.to_string()),
        body: body.to_string(),
    }
}

#[test]
fn fetch_retries_before_the_last_try() {
    assert_eq!(MAX_RETRIES, 3);
    let no_answer = FetchOutcome::NoAnswer { message: "connection reset".to_string() };
    assert!(matches!(next_fetch_step(0, &no_answer), RetryStep::Wait { secs: 1 }));
    assert!(matches!(next_fetch_step(1, &no_answer), RetryStep::Wait { secs: 2 }));
    assert!(matches!(next_fetch_step(2, &no_answer), RetryStep::GiveUp { message } if message == "connection reset"));

    let bad_body = FetchOutcome::BadBody { message: "expected value".to_string() };
    assert!(matches!(next_fetch_step(1, &bad_body), RetryStep::Wait { secs: 2 }));
    assert!(matches!(next_fetch_step(2, &bad_body), RetryStep::GiveUp { message } if message == "expected value"));

    assert!(matches!(next_fetch_step(0, &FetchOutcome::Page), RetryStep::Finished));
    assert!(matches!(next_fetch_step(2, &FetchOutcome::Page), RetryStep::Finished));
}

#[test]
fn fetch_waits_as_long_as_the_forge_asks() {
    let limited = refused(403, Some("45"), "API rate limit exceeded");
    assert!(matches!(next_fetch_step(0, &limited), RetryStep::Wait { secs: 45 }));
    assert!(matches!(next_fetch_step(2, &limited), RetryStep::GiveUp { message } if message == "GitHub API error 403: API rate limit exceeded"));
    let unnamed = refused(429, None, "secondary rate limit");
    assert!(matches!(next_fetch_step(1, &unnamed), RetryStep::Wait { secs: 2 }));
    let other = refused(404, Some("45"), "Not Found");
    assert!(matches!(next_fetch_step(0, &other), RetryStep::GiveUp { message } if message == "GitHub API error 404: Not Found"));
}

#[test]
fn page_count_rounds_up() {
    assert_eq!(page_count(0), 0);
    assert_eq!(page_count(1), 1);
    assert_eq!(page_count(100), 1);
    assert_eq!(page_count(101), 2);
    assert_eq!(page_count(2550), 26);
    assert_eq!(page_count(usize::MAX), usize::MAX / 100 + 1);
}

#[test]
fn writes_are_spaced_by_a_second() {
    assert_eq!(throttle_write(None), 0);
    assert_eq!(throttle_write(Some(0)), 1000);
    assert_eq!(throttle_write(Some(400)), 600);
    assert_eq!(throttle_write(Some(999)), 1);
    assert_eq!(throttle_write(Some(1000)), 0);
    assert_eq!(throttle_write(Some(u64::MAX)), 0);
}

#[test]
fn four_failures_in_a_row_double_the_backoff() {
    let mut table = BackoffTable::new();
    let ranges = [(22_500u64, 37_500u64), (45_000, 75_000), (90_000, 150_000), (180_000, 300_000)];
    let mut now = 1_000_000u64;
    for (k, (low, high)) in ranges.iter().enumerate() {
        let entry = table.record_failure("/src/app", now);
        assert_eq!(entry.remote, "/src/app");
        assert_eq!(entry.consecutive_failures, k as u32 + 1);
        let wait = entry.next_attempt - now;
        assert!(wait >= *low && wait <= *high, "wait {} after failure {}", wait, k + 1);
        assert!(table.should_skip("/src/app", now));
        assert!(table.should_skip("/src/app", entry.next_attempt - 1));
        assert!(!table.should_skip("/src/app", entry.next_attempt));
        assert!(!table.should_skip("/src/other", now));
        assert_eq!(table.entries.len(), 1);
        now = entry.next_attempt;
    }
}

#[test]
fn success_clears_the_backoff() {
    let mut table = BackoffTable::new();
    table.record_failure_with_roll("/a", 10, 0);
    table.record_failure_with_roll("/b", 10, 0);
    table.record_failure_with_roll("/a", 20, u32::MAX);
    let a = table.entry("/a").unwrap();
    assert_eq!(a.consecutive_failures, 2);
    assert_eq!(a.next_attempt, 20 + 74_999);
    table.record_success("/a");
    assert!(table.entry("/a").is_none());
    assert!(!table.should_skip("/a", 21));
    assert!(table.should_skip("/b", 21));
    table.record_success("/never-failed");
    assert_eq!(table.entries.len(), 1);
    // the count starts anew
    let again = table.record_failure_with_roll("/a", 30, 0);
    assert_eq!(again.consecutive_failures, 1);
    assert_eq!(again.next_attempt, 30 + 22_500);
}

#[test]
fn backoff_clock_does_not_run_over() {
    let mut table = BackoffTable::new();
    let entry = table.record_failure_with_roll("/a", u64::MAX - 5, 0);
    assert_eq!(entry.next_attempt, u64::MAX);
}
