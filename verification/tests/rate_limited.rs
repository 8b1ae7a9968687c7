use std::time::{Duration, Instant};

use vmm::logger::rate_limited::{LogRateLimiter, DEFAULT_BURST, DEFAULT_REFILL_TIME_MS};

#[test]
fn test_burst_capacity_enforcement() {
    let mut limiter = LogRateLimiter::new();

    // First DEFAULT_BURST calls should be allowed.
    for _ in 0..DEFAULT_BURST {
        assert!(limiter.check(), "expected allow within burst");
    }

    // The next call should be suppressed.
    assert!(!limiter.check(), "expected suppress after burst");
    assert!(!limiter.check(), "expected suppress after burst");
}

#[test]
fn test_callsite_independence() {
    let mut limiter_a = LogRateLimiter::new();
    let mut limiter_b = LogRateLimiter::new();

    // Exhaust limiter_a.
    for _ in 0..DEFAULT_BURST {
        limiter_a.check();
    }
    assert!(!limiter_a.check());

    // limiter_b should be unaffected.
    assert!(limiter_b.check());
}

#[test]
fn test_refill_after_time() {
    let mut limiter = LogRateLimiter::new();

    // Exhaust burst.
    for _ in 0..DEFAULT_BURST {
        limiter.check();
    }
    assert!(!limiter.check());

    // Wait for refill. The bucket refills continuously, so after the full refill period we should
    // have all tokens back.
    let start = Instant::now();
    while start.elapsed() < Duration::from_millis(DEFAULT_REFILL_TIME_MS + 100) {}
    assert!(limiter.check(), "expected allow after refill");
}

const ONE_TOKEN_NS: u128 = 500_000_000;
const REFILL_NS: u128 = 5_000_000_000;

#[test]
fn default_limiter_is_unused() {
    let mut limiter = LogRateLimiter::default();
    for _ in 0..DEFAULT_BURST {
        assert!(limiter.check_at(7));
    }
    assert!(!limiter.check_at(7));
}

#[test]
fn burst_is_admitted_whatever_the_clock_reads() {
    let mut limiter = LogRateLimiter::new();
    for now in [9u128, 3, 0, 100, 50, 1, 1, 8, 2, 0] {
        assert!(limiter.check_at(now));
    }
    assert!(!limiter.check_at(9));
}

#[test]
fn flood_is_suppressed_until_one_token_has_accrued() {
    let mut limiter = LogRateLimiter::new();
    for _ in 0..DEFAULT_BURST {
        assert!(limiter.check_at(1_000));
    }
    for k in 0..50u128 {
        assert!(!limiter.check_at(1_000 + k * 10_000_000));
    }
    assert!(!limiter.check_at(1_000 + ONE_TOKEN_NS - 1));
    assert!(limiter.check_at(1_000 + ONE_TOKEN_NS));
    assert!(!limiter.check_at(1_000 + ONE_TOKEN_NS));
}

#[test]
fn refill_brings_all_tokens_back() {
    let mut limiter = LogRateLimiter::new();
    for _ in 0..DEFAULT_BURST {
        assert!(limiter.check_at(0));
    }
    assert!(!limiter.check_at(1));
    for _ in 0..DEFAULT_BURST {
        assert!(limiter.check_at(REFILL_NS));
    }
    assert!(!limiter.check_at(REFILL_NS));
}

#[test]
fn rate_over_a_long_time_is_bounded() {
    let mut limiter = LogRateLimiter::new();
    let mut admitted: u128 = 0;
    let end: u128 = 60_000_000_000;
    let mut now: u128 = 0;
    while now <= end {
        if limiter.check_at(now) {
            admitted += 1;
        }
        now += 1_000_000;
    }
    assert_eq!(admitted, 10 + end / ONE_TOKEN_NS);
}

#[test]
fn interleaved_limiters_do_not_disturb_each_other() {
    let mut flooded = LogRateLimiter::new();
    let mut quiet = LogRateLimiter::new();
    for k in 0..100u128 {
        let allowed = flooded.check_at(k);
        assert_eq!(allowed, k < 10);
        if k % 10 == 0 {
            assert!(quiet.check_at(k));
        }
    }
    assert!(!quiet.check_at(100));
}
