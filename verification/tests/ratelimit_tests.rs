use sub_manager_lite::ratelimit::{
    RateLimiter, AUTH_FAIL_LIMIT, AUTH_FAIL_WINDOW_NANOS, RATE_LIMIT, RATE_WINDOW_NANOS,
};

#[test]
fn requests_beyond_the_limit_are_refused_until_the_window_passes() {
    let mut l = RateLimiter::new();
    for i in 0..RATE_LIMIT {
        assert!(l.allow_at("1.2.3.4", i as u128), "request {i}");
    }
    assert!(!l.allow_at("1.2.3.4", 200));
    assert!(l.allow_at("5.6.7.8", 200));
    // The first request leaves the window at RATE_WINDOW_NANOS.
    assert!(!l.allow_at("1.2.3.4", RATE_WINDOW_NANOS - 1));
    assert!(l.allow_at("1.2.3.4", RATE_WINDOW_NANOS));
    assert!(!l.allow_at("1.2.3.4", RATE_WINDOW_NANOS));
}

#[test]
fn authentication_failures_cool_a_client_down() {
    let mut l = RateLimiter::new();
    for i in 0..(AUTH_FAIL_LIMIT - 1) {
        l.record_failure_at("9.9.9.9", i as u128);
    }
    assert!(l.allow_at("9.9.9.9", 100));
    l.record_failure_at("9.9.9.9", 100);
    assert!(!l.allow_at("9.9.9.9", 101));
    assert!(l.allow_at("8.8.8.8", 101));
    assert!(!l.allow_at("9.9.9.9", AUTH_FAIL_WINDOW_NANOS - 1));
    assert!(l.allow_at("9.9.9.9", AUTH_FAIL_WINDOW_NANOS));
}

#[test]
fn refused_requests_are_not_counted() {
    let mut l = RateLimiter::new();
    for i in 0..AUTH_FAIL_LIMIT {
        l.record_failure_at("a", i as u128);
    }
    for _ in 0..(2 * RATE_LIMIT) {
        assert!(!l.allow_at("a", 10));
    }
    // Once the failures age out, the full request budget is available.
    for i in 0..RATE_LIMIT {
        assert!(l.allow_at("a", AUTH_FAIL_WINDOW_NANOS + 10 + i as u128));
    }
}

#[test]
fn clock_based_calls_work() {
    let mut l = RateLimiter::new();
    assert!(l.allow("127.0.0.1"));
    l.record_failure("127.0.0.1");
    assert!(l.allow("127.0.0.1"));
}

#[test]
fn times_never_run_backwards() {
    let mut l = RateLimiter::new();
    l.record_failure_at("c", 1_000);
    // An earlier time is raised to the latest one used.
    for _ in 0..(AUTH_FAIL_LIMIT - 1) {
        l.record_failure_at("c", 5);
    }
    assert!(!l.allow_at("c", 10));
    assert!(l.allow_at("c", 1_000 + AUTH_FAIL_WINDOW_NANOS));
}

#[test]
fn throttled_client_is_let_through_after_its_window() {
    let mut l = RateLimiter::new();
    for i in 0..RATE_LIMIT {
        assert!(l.allow_at("d", i as u128));
    }
    for i in 0..50u128 {
        assert!(!l.allow_at("d", 1_000 + i));
    }
    assert!(l.allow_at("d", RATE_LIMIT as u128 + RATE_WINDOW_NANOS));
}
