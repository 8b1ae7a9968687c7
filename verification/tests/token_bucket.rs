use vmm::rate_limiter::{BucketReduction, TokenBucket};

const MS: u128 = 1_000_000;

#[test]
fn invalid_configurations_are_refused() {
    assert!(TokenBucket::new(0, 0, 1000, 0).is_none());
    assert!(TokenBucket::new(1000, 0, 0, 0).is_none());
    assert!(TokenBucket::new(1000, 0, u64::MAX, 0).is_none());
    assert!(TokenBucket::new(1000, 0, u64::MAX / 1_000_000 + 1, 0).is_none());
    assert!(TokenBucket::new(1000, 0, u64::MAX / 1_000_000, 0).is_some());
    assert!(TokenBucket::new(1, 0, 1, 0).is_some());
}

#[test]
fn tokens_run_out_and_come_back() {
    let mut bucket = TokenBucket::new(1000, 0, 1000, 0).unwrap();
    assert_eq!(bucket.reduce(1, 0), BucketReduction::Success);
    assert_eq!(bucket.reduce(999, 0), BucketReduction::Success);
    assert_eq!(bucket.reduce(1, 0), BucketReduction::Failure);
    // One token per millisecond.
    assert_eq!(bucket.reduce(1, MS - 1), BucketReduction::Failure);
    assert_eq!(bucket.reduce(1, MS), BucketReduction::Success);
    assert_eq!(bucket.reduce(1, MS), BucketReduction::Failure);
    assert_eq!(bucket.reduce(500, 501 * MS), BucketReduction::Success);
    assert_eq!(bucket.reduce(1, 501 * MS), BucketReduction::Failure);
}

#[test]
fn full_refill_gives_the_whole_bucket() {
    let mut bucket = TokenBucket::new(1000, 0, 1000, 0).unwrap();
    assert_eq!(bucket.reduce(1000, 0), BucketReduction::Success);
    assert_eq!(bucket.reduce(1000, 1000 * MS), BucketReduction::Success);
    assert_eq!(bucket.reduce(1, 1000 * MS), BucketReduction::Failure);
    // Never more than the capacity.
    assert_eq!(bucket.reduce(1000, 100_000 * MS), BucketReduction::Success);
    assert_eq!(bucket.reduce(1, 100_000 * MS), BucketReduction::Failure);
}

#[test]
fn one_time_burst_is_spent_first_and_does_not_come_back() {
    let mut bucket = TokenBucket::new(10, 5, 1000, 0).unwrap();
    assert_eq!(bucket.reduce(5, 0), BucketReduction::Success);
    assert_eq!(bucket.reduce(10, 0), BucketReduction::Success);
    assert_eq!(bucket.reduce(1, 0), BucketReduction::Failure);
    assert_eq!(bucket.reduce(10, 1000 * MS), BucketReduction::Success);
    assert_eq!(bucket.reduce(1, 1000 * MS), BucketReduction::Failure);
}

#[test]
fn request_beyond_the_burst_takes_the_rest_from_the_budget() {
    let mut bucket = TokenBucket::new(10, 5, 1000, 0).unwrap();
    assert_eq!(bucket.reduce(8, 0), BucketReduction::Success);
    assert_eq!(bucket.reduce(7, 0), BucketReduction::Success);
    assert_eq!(bucket.reduce(1, 0), BucketReduction::Failure);
}

#[test]
fn request_beyond_the_capacity_empties_the_bucket() {
    let mut bucket = TokenBucket::new(5, 0, 5, 0).unwrap();
    assert_eq!(bucket.reduce(1, 0), BucketReduction::Success);
    assert_eq!(
        bucket.reduce(6, 0),
        BucketReduction::OverConsumption { excess: 2 }
    );
    assert_eq!(bucket.reduce(1, 0), BucketReduction::Failure);
}

#[test]
fn time_left_over_by_a_refill_counts_the_next_time() {
    // Three tokens in a millisecond: one token takes a third of it.
    let mut bucket = TokenBucket::new(3, 0, 1, 0).unwrap();
    assert_eq!(bucket.reduce(3, 0), BucketReduction::Success);
    // 1.5 tokens' worth of time yields one token, and the half is kept.
    assert_eq!(bucket.reduce(1, 500_000), BucketReduction::Success);
    assert_eq!(bucket.reduce(1, 500_000), BucketReduction::Failure);
    assert_eq!(bucket.reduce(1, 666_666), BucketReduction::Failure);
    // The first token used up 333_334 ns, rounded up, so the second is there 333_334 ns later.
    assert_eq!(bucket.reduce(1, 666_668), BucketReduction::Success);
}

#[test]
fn clock_that_runs_backwards_yields_nothing() {
    let mut bucket = TokenBucket::new(2, 0, 1, 1_000_000).unwrap();
    assert_eq!(bucket.reduce(2, 1_000_000), BucketReduction::Success);
    assert_eq!(bucket.reduce(1, 0), BucketReduction::Failure);
    assert_eq!(bucket.reduce(1, 1_500_000), BucketReduction::Success);
}

#[test]
fn extreme_values_do_not_overflow() {
    let refill_ms = u64::MAX / 1_000_000;
    let mut bucket = TokenBucket::new(u64::MAX, 0, refill_ms, 0).unwrap();
    assert_eq!(bucket.reduce(u64::MAX, 0), BucketReduction::Success);
    assert_eq!(
        bucket.reduce(1, u128::from(refill_ms) * MS - 1),
        BucketReduction::Success
    );
    assert_eq!(bucket.reduce(u64::MAX, u128::MAX), BucketReduction::Success);
}
