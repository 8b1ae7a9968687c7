//! Per-callsite rate limiting of log messages.
//!
//! Each place that logs has a [`LogRateLimiter`] of its own, so that a flood of messages at one
//! place does not suppress messages at another.

use std::time::Instant;

use vstd::prelude::*;

use crate::logger::laws::law_admits;
use crate::rate_limiter::{
    BucketReduction, BucketState, TokenBucket, NANOSEC_IN_ONE_MILLISEC,
};

verus! {

/// Maximum number of messages allowed per refill period.
pub const DEFAULT_BURST: u64 = 10;

/// Refill period in milliseconds (5 seconds).
pub const DEFAULT_REFILL_TIME_MS: u64 = 5000;

/// `std::time::Instant`, a reading of the monotonic clock, carried without looking inside.
#[verifier::external_type_specification]
#[verifier::external_body]
pub struct ExInstant(std::time::Instant);

/// Calls `std::time::Instant::now`. Nothing is claimed of the reading.
#[verifier::external_body]
fn clock_now() -> Instant {
    Instant::now()
}

/// Calls `std::time::Instant::elapsed` and gives the duration as a number of nanoseconds. Nothing
/// is claimed of the number: it depends on when the call is made.
#[verifier::external_body]
fn elapsed_nanos(origin: &Instant) -> u128 {
    origin.elapsed().as_nanos()
}

/// Whether an instant is one that the monotonic clock can have read.
pub closed spec fn is_origin(origin: Instant) -> bool {
    call_ensures(clock_now, (), origin)
}

/// Whether a number is one that the monotonic clock can have given for the nanoseconds since an
/// instant.
pub closed spec fn is_reading(origin: Instant, now_ns: u128) -> bool {
    call_ensures(elapsed_nanos, (&origin,), now_ns)
}

/// A reading of a limiter's clock is one that `Instant::elapsed` gave for its origin, and an origin
/// is one that `Instant::now` gave.
proof fn law_readings_are_of_the_clock(origin: Instant, now_ns: u128)
    ensures
        is_reading(origin, now_ns) <==> call_ensures(elapsed_nanos, (&origin,), now_ns),
        is_origin(origin) <==> call_ensures(clock_now, (), origin),
{
}

/// The bucket that a limiter uses: the one it has, or, at the first use, a full one.
pub open spec fn bucket_in_use(limiter: Option<BucketState>, now: nat) -> BucketState {
    match limiter {
        Some(bucket) => bucket,
        None => BucketState::full(
            DEFAULT_BURST as nat,
            0,
            (DEFAULT_REFILL_TIME_MS * NANOSEC_IN_ONE_MILLISEC) as nat,
            now,
        ),
    }
}

/// Whether a message is let through when the limiter's clock reads `now`.
pub open spec fn admits(limiter: Option<BucketState>, now: nat) -> bool {
    bucket_in_use(limiter, now).reduced(1, now).0 == BucketReduction::Success
}

/// The limiter after a message has been checked.
pub open spec fn checked(limiter: Option<BucketState>, now: nat) -> Option<BucketState> {
    Some(bucket_in_use(limiter, now).reduced(1, now).1)
}

/// Rate limiter of one callsite: a bucket of [`DEFAULT_BURST`] tokens that refills in
/// [`DEFAULT_REFILL_TIME_MS`]. The bucket and the origin of its clock are set at the first use.
#[derive(Debug)]
pub struct LogRateLimiter {
    origin: Option<Instant>,
    bucket: Option<TokenBucket>,
}

impl View for LogRateLimiter {
    type V = Option<BucketState>;

    closed spec fn view(&self) -> Option<BucketState> {
        match self.bucket {
            Some(bucket) => Some(bucket@),
            None => None,
        }
    }
}

impl Default for LogRateLimiter {
    /// An unused rate limiter.
    fn default() -> (limiter: Self)
        ensures
            limiter.wf(),
            limiter@ is None,
            limiter.clock() is None,
    {
        Self::new()
    }
}

/// What holds of every limiter, by its model: a bucket that is there is valid, has the default
/// capacity and rate, and has no one-time burst.
pub open spec fn limiter_wf(limiter: Option<BucketState>) -> bool {
    limiter matches Some(bucket) ==> {
        &&& bucket.wf()
        &&& bucket.size == DEFAULT_BURST
        &&& bucket.refill_ns == DEFAULT_REFILL_TIME_MS * NANOSEC_IN_ONE_MILLISEC
        &&& bucket.one_time_burst == 0
    }
}

impl LogRateLimiter {
    /// What holds of every limiter.
    pub open spec fn wf(&self) -> bool {
        limiter_wf(self@)
    }

    /// The origin of the limiter's clock; `None` before the first use, when no clock has been read.
    pub closed spec fn clock(&self) -> Option<Instant> {
        self.origin
    }

    /// The clock of a limiter is the one that its origin starts.
    proof fn law_clock_is_the_origin(&self)
        ensures
            self.clock() == self.origin,
    {
    }

    /// Creates an unused rate limiter, without reading the clock.
    pub fn new() -> (limiter: Self)
        ensures
            limiter.wf(),
            limiter@ is None,
            limiter.clock() is None,
    {
        LogRateLimiter { origin: None, bucket: None }
    }

    /// Checks whether a message should be emitted: `true` if it should be logged, `false` if it
    /// should be suppressed. The time is what has passed since the first use, where the clock
    /// starts; as long as there are tokens the answer does not depend on it.
    pub fn check(&mut self) -> (allowed: bool)
        requires
            old(self).wf(),
        ensures
            final(self).wf(),
            final(self)@ is Some,
            final(self).clock() is Some,
            old(self).clock() is Some ==> final(self).clock() == old(self).clock(),
            old(self).clock() is None ==> is_origin(final(self).clock()->0),
            exists|now_ns: u128| #[trigger]
                is_reading(final(self).clock()->0, now_ns) && allowed == admits(
                    old(self)@,
                    now_ns as nat,
                ) && final(self)@ == checked(old(self)@, now_ns as nat),
            old(self)@ is None ==> allowed && final(self)@->0.budget == DEFAULT_BURST - 1,
            old(self)@ matches Some(b) ==> (b.budget > 0 ==> allowed && final(self)@ == Some(
                (BucketState { budget: (b.budget - 1) as nat, ..b }),
            )),
    {
        let origin: Instant = match self.origin {
            Some(origin) => origin,
            None => clock_now(),
        };
        self.origin = Some(origin);
        let now_ns: u128 = elapsed_nanos(&origin);
        let allowed = self.check_at(now_ns);
        assert(self.clock() == Some(origin));
        assert(is_reading(self.clock()->0, now_ns));
        allowed
    }

    /// [`check`](Self::check) for a given reading of the limiter's clock, in nanoseconds.
    pub fn check_at(&mut self, now_ns: u128) -> (allowed: bool)
        requires
            old(self).wf(),
        ensures
            final(self).wf(),
            final(self).clock() == old(self).clock(),
            allowed == admits(old(self)@, now_ns as nat),
            final(self)@ == checked(old(self)@, now_ns as nat),
            allowed <==> match old(self)@ {
                None => true,
                Some(b) => b.budget > 0 || (now_ns >= b.last_update && (now_ns - b.last_update) * 10
                    >= 5_000_000_000),
            },
    {
        proof {
            law_admits(self@, now_ns as nat);
        }
        let mut bucket: TokenBucket = match self.bucket.take() {
            Some(bucket) => bucket,
            None => match TokenBucket::new(DEFAULT_BURST, 0, DEFAULT_REFILL_TIME_MS, now_ns) {
                Some(bucket) => bucket,
                None => {
                    assert(false);
                    return false;
                },
            },
        };
        let outcome = bucket.reduce(1, now_ns);
        self.bucket = Some(bucket);
        match outcome {
            BucketReduction::Success => true,
            _ => false,
        }
    }
}

} // verus!
