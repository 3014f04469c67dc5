use nexora::gateway::rate_limit::{extract_ip, RateLimitConfig, RateLimiter};
use std::time::Duration;

const SECOND: u64 = 1_000_000_000;
const MILLI: u64 = 1_000_000;

fn limiter(max_requests: usize, window_nanos: u64) -> RateLimiter {
    RateLimiter::new(RateLimitConfig { max_requests, window_nanos })
}

#[test]
fn allows_under_limit() {
    let mut limiter = limiter(5, 60 * SECOND);
    for _ in 0..5 {
        assert!(limiter.check("1.2.3.4"));
    }
}

#[test]
fn blocks_over_limit() {
    let mut limiter = limiter(3, 60 * SECOND);
    for _ in 0..3 {
        assert!(limiter.check("1.2.3.4"));
    }
    assert!(!limiter.check("1.2.3.4"));
}

#[test]
fn different_ips_independent() {
    let mut limiter = limiter(2, 60 * SECOND);
    assert!(limiter.check("1.1.1.1"));
    assert!(limiter.check("1.1.1.1"));
    assert!(!limiter.check("1.1.1.1"));

    assert!(limiter.check("2.2.2.2"));
}

#[test]
fn window_reset() {
    let mut limiter = limiter(2, 100 * MILLI);
    assert!(limiter.check_at("1.1.1.1", 0));
    assert!(limiter.check_at("1.1.1.1", 0));
    assert!(!limiter.check_at("1.1.1.1", 0));

    // 150 ms later the window has run out.
    assert!(limiter.check_at("1.1.1.1", 150 * MILLI));
}

#[test]
fn remaining_calculations() {
    let mut limiter = limiter(5, 60 * SECOND);
    assert_eq!(limiter.remaining("1.1.1.1"), 5);
    limiter.check("1.1.1.1");
    assert_eq!(limiter.remaining("1.1.1.1"), 4);
    limiter.check("1.1.1.1");
    assert_eq!(limiter.remaining("1.1.1.1"), 3);
}

#[test]
fn remaining_for_unknown_ip_is_max() {
    let limiter = limiter(10, 60 * SECOND);
    assert_eq!(limiter.remaining("unknown"), 10);
}

#[test]
fn active_ips_count() {
    let mut limiter = limiter(10, 60 * SECOND);
    assert_eq!(limiter.active_ips(), 0);
    limiter.check("1.1.1.1");
    limiter.check("2.2.2.2");
    assert_eq!(limiter.active_ips(), 2);
}

#[test]
fn cleanup_removes_old() {
    let mut limiter = limiter(10, 50 * MILLI);
    limiter.check_at("1.1.1.1", 0);
    limiter.check_at("2.2.2.2", 0);
    assert_eq!(limiter.active_ips(), 2);

    // 150 ms later both windows are more than two windows old.
    let removed = limiter.cleanup_at(150 * MILLI);
    assert_eq!(removed, 2);
    assert_eq!(limiter.active_ips(), 0);
}

#[test]
fn cleanup_keeps_recent() {
    let mut limiter = limiter(10, 60 * SECOND);
    limiter.check("1.1.1.1");
    let removed = limiter.cleanup();
    assert_eq!(removed, 0);
    assert_eq!(limiter.active_ips(), 1);
}

#[test]
fn rate_limit_default_config() {
    let cfg = RateLimitConfig::default();
    assert_eq!(cfg.max_requests, 100);
    assert_eq!(cfg.window(), Duration::from_secs(60));
}

#[test]
fn window_boundary_is_inclusive() {
    let mut limiter = limiter(1, 100);
    assert!(limiter.check_at("a", 1000));
    assert!(!limiter.check_at("a", 1100));
    assert!(limiter.check_at("a", 1101));
}

#[test]
fn refused_stays_refused_in_window() {
    let mut limiter = limiter(1, 100);
    assert!(limiter.check_at("a", 0));
    assert!(!limiter.check_at("a", 10));
    assert!(!limiter.check_at("a", 20));
    assert_eq!(limiter.remaining_at("a", 20), 0);
    assert_eq!(limiter.remaining_at("a", 200), 1);
}

#[test]
fn cleanup_keeps_two_windows() {
    let mut limiter = limiter(10, 100);
    limiter.check_at("old", 0);
    limiter.check_at("new", 150);
    assert_eq!(limiter.cleanup_at(200), 0);
    assert_eq!(limiter.cleanup_at(201), 1);
    assert_eq!(limiter.active_ips(), 1);
    assert_eq!(limiter.remaining_at("new", 201), 9);
}

#[test]
fn decision_reports_remaining() {
    let mut limiter = limiter(2, 100);
    let d = limiter.decide_at("a", 0);
    assert!(d.allowed);
    assert_eq!(d.limit, 2);
    assert_eq!(d.remaining, 1);
    limiter.decide_at("a", 0);
    let d = limiter.decide_at("a", 0);
    assert!(!d.allowed);
    assert_eq!(d.remaining, 0);
}

#[test]
fn extract_ip_prefers_forwarded_for() {
    assert_eq!(extract_ip(Some(" 10.0.0.1 , 10.0.0.2"), Some("9.9.9.9")), "10.0.0.1");
    assert_eq!(extract_ip(Some("10.0.0.3"), None), "10.0.0.3");
    assert_eq!(extract_ip(None, Some(" 9.9.9.9 ")), "9.9.9.9");
    assert_eq!(extract_ip(None, None), "unknown");
    assert_eq!(extract_ip(Some(""), Some("9.9.9.9")), "");
}
