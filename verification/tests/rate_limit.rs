use conduit::error::Error;
use conduit::rate_limit::{RateLimiter, MAX_FAILED_ATTEMPTS, RATE_LIMIT_WINDOW_NANOS};

const MINUTE: u128 = 60_000_000_000;

#[test]
fn five_failures_lock_a_name_out() {
    let mut limiter = RateLimiter::new();
    let key = b"session-name".as_slice();
    for i in 0..MAX_FAILED_ATTEMPTS {
        assert!(limiter.check_rate_limit_at(key, i as u128 * MINUTE).is_ok());
        limiter.record_failed_attempt_at(key, i as u128 * MINUTE);
    }
    assert!(matches!(
        limiter.check_rate_limit_at(key, 5 * MINUTE),
        Err(Error::RateLimited)
    ));
    assert!(matches!(
        limiter.check_rate_limit_at(key, 14 * MINUTE),
        Err(Error::RateLimited)
    ));
    // other names are not affected
    assert!(limiter.check_rate_limit_at(b"another-name", 5 * MINUTE).is_ok());
}

#[test]
fn lockout_ends_with_the_window() {
    let mut limiter = RateLimiter::new();
    let key = b"session-name".as_slice();
    for _ in 0..MAX_FAILED_ATTEMPTS {
        limiter.record_failed_attempt_at(key, 0);
    }
    assert!(limiter.check_rate_limit_at(key, RATE_LIMIT_WINDOW_NANOS - 1).is_err());
    assert!(limiter.check_rate_limit_at(key, RATE_LIMIT_WINDOW_NANOS).is_ok());
    // the failures were forgotten: four more are not enough
    for _ in 0..MAX_FAILED_ATTEMPTS - 1 {
        limiter.record_failed_attempt_at(key, RATE_LIMIT_WINDOW_NANOS);
    }
    assert!(limiter.check_rate_limit_at(key, RATE_LIMIT_WINDOW_NANOS + 1).is_ok());
}

#[test]
fn a_late_failure_starts_a_new_window() {
    let mut limiter = RateLimiter::new();
    let key = b"session-name".as_slice();
    for _ in 0..4 {
        limiter.record_failed_attempt_at(key, 0);
    }
    // 16 minutes later: the count restarts at one
    limiter.record_failed_attempt_at(key, 16 * MINUTE);
    assert!(limiter.check_rate_limit_at(key, 16 * MINUTE).is_ok());
}

#[test]
fn clock_based_checks() {
    let mut limiter = RateLimiter::new();
    assert!(limiter.check_rate_limit("some-session").is_ok());
    for _ in 0..5 {
        limiter.record_failed_attempt("some-session");
    }
    assert!(matches!(
        limiter.check_rate_limit("some-session"),
        Err(Error::RateLimited)
    ));
    assert!(limiter.check_rate_limit("other-session").is_ok());
}

#[test]
fn failures_in_a_window_count_one_each() {
    for k in 1..9usize {
        let mut limiter = RateLimiter::new();
        let key = b"session-name".as_slice();
        for i in 0..k {
            limiter.record_failed_attempt_at(key, 3 * MINUTE + i as u128 * MINUTE);
        }
        // within the window that the first failure opened
        let refused = limiter.check_rate_limit_at(key, 17 * MINUTE).is_err();
        assert_eq!(refused, k >= MAX_FAILED_ATTEMPTS);
        // once it has passed, the name is let through and forgotten
        assert!(limiter.check_rate_limit_at(key, 18 * MINUTE).is_ok());
        for _ in 0..MAX_FAILED_ATTEMPTS - 1 {
            limiter.record_failed_attempt_at(key, 18 * MINUTE);
        }
        assert!(limiter.check_rate_limit_at(key, 18 * MINUTE).is_ok());
    }
}
