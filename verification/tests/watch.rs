use torc::watch::{apply_resource_changes, keep_log_tail, JobRetryState, RateLimiter, ResourceChange, RetryGate};

#[test]
fn retries_are_gated() {
    let mut s = JobRetryState::new();
    assert_eq!(s.gate(2, 60, 61), RetryGate::Proceed);
    assert_eq!(s.gate(2, 60, 59), RetryGate::Cooldown);
    s.record_attempt(true, "abc");
    assert!(s.is_repeat_failure("abc"));
    assert!(!s.is_repeat_failure("abd"));
    s.record_attempt(false, "zzz");
    assert!(s.is_repeat_failure("abc"));
    assert_eq!(s.retry_count, 2);
    assert_eq!(s.gate(2, 60, 1000), RetryGate::ExceededRetries);
}

#[test]
fn rate_limit_counts_per_minute() {
    let mut r = RateLimiter::new(2);
    assert_eq!(r.check(0), (true, false));
    assert_eq!(r.check(10), (true, false));
    assert_eq!(r.check(59), (false, false));
    assert_eq!(r.calls_this_minute, 2);
    assert_eq!(r.check(60), (true, true));
    assert_eq!(r.calls_this_minute, 1);
    let mut none = RateLimiter::new(0);
    assert_eq!(none.check(100), (false, true));
}

#[test]
fn resources_change_as_asked() {
    let cur = ResourceChange { memory: "4g".to_string(), runtime: "PT1H".to_string(), num_cpus: 2 };
    let r = apply_resource_changes(&cur, &Some("8g".to_string()), &None, &Some(4));
    assert_eq!(r.memory, "8g");
    assert_eq!(r.runtime, "PT1H");
    assert_eq!(r.num_cpus, 4);
}

#[test]
fn long_logs_keep_their_end() {
    assert_eq!(keep_log_tail("short", 10), "short");
    assert_eq!(keep_log_tail("0123456789abc", 10), "...[truncated]...\n3456789abc");
}
