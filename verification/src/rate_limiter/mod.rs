//! A token bucket with continuous refill.
//!
//! Time enters as a number of nanoseconds on a clock of the caller's choice, so that every
//! decision of the bucket is a function of its state and of the reading handed in.

use vstd::prelude::*;

pub mod laws;

use crate::rate_limiter::laws::law_request_outcome;

verus! {

/// Nanoseconds in one millisecond.
pub const NANOSEC_IN_ONE_MILLISEC: u64 = 1_000_000;

/// What came of an attempt to take tokens from a bucket.
#[derive(Clone, Copy, Debug, PartialEq, Eq, Structural)]
pub enum BucketReduction {
    /// There are not enough tokens, and none was taken.
    Failure,
    /// All the tokens were taken.
    Success,
    /// More tokens were asked for than the bucket can ever hold. It was emptied, and `excess`
    /// tokens are still owed.
    OverConsumption { excess: u64 },
}

/// A bucket as a mathematical value: it gains `size` tokens in each `refill_ns` nanoseconds and
/// never holds more than `size`.
pub struct BucketState {
    /// Capacity.
    pub size: nat,
    /// Nanoseconds in which an empty bucket fills up.
    pub refill_ns: nat,
    /// Extra tokens that are given out first and never come back.
    pub one_time_burst: nat,
    /// Tokens in the bucket.
    pub budget: nat,
    /// The reading of the clock up to which time has been turned into tokens.
    pub last_update: nat,
}

/// The least integer that is not below `a / b`.
pub open spec fn ceil_div(a: nat, b: nat) -> nat
    recommends
        b > 0,
{
    ((a + b - 1) / b as int) as nat
}

/// The lesser of two numbers.
pub open spec fn min_nat(a: nat, b: nat) -> nat {
    if a <= b {
        a
    } else {
        b
    }
}

/// The time from `earlier` to `later`; zero where `later` is not after `earlier`.
pub open spec fn time_since(later: nat, earlier: nat) -> nat {
    if later >= earlier {
        (later - earlier) as nat
    } else {
        0
    }
}

impl BucketState {
    /// What holds of every bucket.
    pub open spec fn wf(self) -> bool {
        &&& 0 < self.size <= u64::MAX
        &&& 0 < self.refill_ns <= u64::MAX
        &&& self.one_time_burst <= u64::MAX
        &&& self.budget <= self.size
    }

    /// A full bucket whose clock reads `now`.
    pub open spec fn full(size: nat, one_time_burst: nat, refill_ns: nat, now: nat) -> Self {
        BucketState { size, refill_ns, one_time_burst, budget: size, last_update: now }
    }

    /// The whole tokens that accrue in `delta` nanoseconds.
    pub open spec fn tokens_in(self, delta: nat) -> nat {
        (delta * self.size) / self.refill_ns
    }

    /// The least number of nanoseconds in which `tokens` tokens accrue.
    pub open spec fn time_for(self, tokens: nat) -> nat {
        ceil_div(tokens * self.refill_ns, self.size)
    }

    /// The bucket once the time up to `now` has been turned into whole tokens. What is left of
    /// the time, less than one token's worth, still counts the next time.
    pub open spec fn replenished(self, now: nat) -> Self {
        let delta = time_since(now, self.last_update);
        if delta >= self.refill_ns {
            BucketState { budget: self.size, last_update: now, ..self }
        } else {
            let tokens = self.tokens_in(delta);
            BucketState {
                budget: min_nat(self.budget + tokens, self.size),
                last_update: self.last_update + self.time_for(tokens),
                ..self
            }
        }
    }

    /// The outcome of asking for `tokens` tokens when the clock reads `now`, and the bucket
    /// afterwards. The one-time burst is spent first, then the budget, and only where that is too
    /// small is time turned into tokens.
    pub open spec fn reduced(self, tokens: nat, now: nat) -> (BucketReduction, Self) {
        if self.one_time_burst > 0 && self.one_time_burst >= tokens {
            (
                BucketReduction::Success,
                BucketState {
                    one_time_burst: (self.one_time_burst - tokens) as nat,
                    last_update: now,
                    ..self
                },
            )
        } else {
            let left = (tokens - self.one_time_burst) as nat;
            let spent = BucketState { one_time_burst: 0, ..self };
            let b = if left > spent.budget {
                spent.replenished(now)
            } else {
                spent
            };
            if left > b.size {
                (
                    BucketReduction::OverConsumption { excess: (left - b.budget) as u64 },
                    BucketState { budget: 0, ..b },
                )
            } else if left > b.budget {
                (BucketReduction::Failure, b)
            } else {
                (BucketReduction::Success, BucketState { budget: (b.budget - left) as nat, ..b })
            }
        }
    }
}

/// A bucket of tokens that refills with time.
#[derive(Debug)]
pub struct TokenBucket {
    size: u64,
    refill_ns: u64,
    one_time_burst: u64,
    budget: u64,
    last_update: u128,
}

impl View for TokenBucket {
    type V = BucketState;

    closed spec fn view(&self) -> BucketState {
        BucketState {
            size: self.size as nat,
            refill_ns: self.refill_ns as nat,
            one_time_burst: self.one_time_burst as nat,
            budget: self.budget as nat,
            last_update: self.last_update as nat,
        }
    }
}

/// What a refill uses up in time is never more than has passed, is worth at least the tokens it
/// yields, and leaves less than one token's worth.
pub(crate) proof fn lemma_refill_time(b: BucketState, delta: nat)
    requires
        b.wf(),
        delta < b.refill_ns,
    ensures
        delta * b.size <= u128::MAX,
        b.tokens_in(delta) <= b.size,
        b.tokens_in(delta) * b.refill_ns <= delta * b.size,
        delta * b.size < (b.tokens_in(delta) + 1) * b.refill_ns,
        b.time_for(b.tokens_in(delta)) <= delta,
        b.tokens_in(delta) * b.refill_ns <= b.time_for(b.tokens_in(delta)) * b.size,
        (delta - b.time_for(b.tokens_in(delta))) * b.size < b.refill_ns,
{
    let s = b.size as int;
    let r = b.refill_ns as int;
    let d = delta as int;
    let t = b.tokens_in(delta) as int;
    let a = t * r;
    let c = b.time_for(b.tokens_in(delta)) as int;
    assert(d * s <= u128::MAX) by (nonlinear_arith)
        requires
            0 <= d <= u64::MAX,
            0 <= s <= u64::MAX,
    ;
    vstd::arithmetic::div_mod::lemma_fundamental_div_mod(d * s, r);
    vstd::arithmetic::div_mod::lemma_mod_bound(d * s, r);
    assert(r * t == t * r) by (nonlinear_arith);
    assert(d * s < (t + 1) * r) by (nonlinear_arith)
        requires
            d * s - t * r < r,
    ;
    assert(0 <= a) by (nonlinear_arith)
        requires
            a == t * r,
            t >= 0,
            r >= 0,
    ;
    assert(t <= s) by (nonlinear_arith)
        requires
            t * r <= d * s,
            d < r,
            s > 0,
            r > 0,
            t >= 0,
    ;
    vstd::arithmetic::div_mod::lemma_fundamental_div_mod(a + s - 1, s);
    vstd::arithmetic::div_mod::lemma_mod_bound(a + s - 1, s);
    vstd::arithmetic::div_mod::lemma_div_pos_is_pos(a + s - 1, s);
    assert(c == (a + s - 1) / s);
    assert(a <= c * s) by (nonlinear_arith)
        requires
            a + s - 1 < s * c + s,
    ;
    assert(c * s <= a + s - 1) by (nonlinear_arith)
        requires
            a + s - 1 >= s * c,
    ;
    assert(c <= d) by (nonlinear_arith)
        requires
            c * s <= a + s - 1,
            a <= d * s,
            s > 0,
    ;
    assert((d - c) * s < r) by (nonlinear_arith)
        requires
            d * s < (t + 1) * r,
            a == t * r,
            a <= c * s,
    ;
}

impl TokenBucket {
    /// What holds of every bucket.
    pub open spec fn wf(&self) -> bool {
        self@.wf()
    }

    /// Makes a full bucket of `size` tokens that fills up in `complete_refill_time_ms`
    /// milliseconds and gives out `one_time_burst` tokens beforehand. `None` where the capacity
    /// or the refill time is zero, or the refill time in nanoseconds does not fit in 64 bits.
    pub fn new(
        size: u64,
        one_time_burst: u64,
        complete_refill_time_ms: u64,
        now_ns: u128,
    ) -> (bucket: Option<Self>)
        ensures
            bucket is Some <==> size > 0 && complete_refill_time_ms > 0 && complete_refill_time_ms
                * NANOSEC_IN_ONE_MILLISEC <= u64::MAX,
            bucket matches Some(b) ==> b.wf() && b@ == BucketState::full(
                size as nat,
                one_time_burst as nat,
                (complete_refill_time_ms * NANOSEC_IN_ONE_MILLISEC) as nat,
                now_ns as nat,
            ),
            bucket matches Some(b) ==> {
                &&& b@.size == size
                &&& b@.refill_ns == complete_refill_time_ms * 1_000_000
                &&& b@.one_time_burst == one_time_burst
                &&& b@.budget == size
                &&& b@.last_update == now_ns
            },
    {
        if size == 0 || complete_refill_time_ms == 0 {
            return None;
        }
        match complete_refill_time_ms.checked_mul(NANOSEC_IN_ONE_MILLISEC) {
            None => None,
            Some(refill_ns) => Some(
                TokenBucket { size, refill_ns, one_time_burst, budget: size, last_update: now_ns },
            ),
        }
    }

    /// Turns the time up to `now_ns` into tokens.
    fn auto_replenish(&mut self, now_ns: u128)
        requires
            old(self).wf(),
        ensures
            final(self).wf(),
            final(self)@ == old(self)@.replenished(now_ns as nat),
    {
        let delta: u128 = now_ns.saturating_sub(self.last_update);
        if delta >= self.refill_ns as u128 {
            self.budget = self.size;
            self.last_update = now_ns;
        } else {
            let size: u128 = self.size as u128;
            let refill_ns: u128 = self.refill_ns as u128;
            proof {
                lemma_refill_time(self@, delta as nat);
            }
            let tokens: u128 = (delta * size) / refill_ns;
            let worth: u128 = tokens * refill_ns;
            let mut used: u128 = worth / size;
            proof {
                lemma_ceil(worth as nat, size as nat);
            }
            if worth % size != 0 {
                used = used + 1;
            }
            self.last_update = self.last_update + used;
            let room: u64 = self.size - self.budget;
            if tokens >= room as u128 {
                self.budget = self.size;
            } else {
                self.budget = self.budget + tokens as u64;
            }
        }
    }

    /// Attempts to take `tokens` tokens when the clock reads `now_ns`.
    pub fn reduce(&mut self, tokens: u64, now_ns: u128) -> (outcome: BucketReduction)
        requires
            old(self).wf(),
        ensures
            final(self).wf(),
            (outcome, final(self)@) == old(self)@.reduced(tokens as nat, now_ns as nat),
            final(self)@.size == old(self)@.size,
            final(self)@.refill_ns == old(self)@.refill_ns,
            outcome == BucketReduction::Success <==> (tokens <= old(self)@.one_time_burst + old(
                self,
            )@.budget || (tokens - old(self)@.one_time_burst <= old(self)@.size && now_ns >= old(
                self,
            )@.last_update && (now_ns - old(self)@.last_update) * old(self)@.size >= (tokens - old(
                self,
            )@.one_time_burst - old(self)@.budget) * old(self)@.refill_ns)),
            outcome is OverConsumption <==> tokens > old(self)@.one_time_burst + old(self)@.size,
    {
        proof {
            law_request_outcome(self@, tokens as nat, now_ns as nat);
        }
        let mut left: u64 = tokens;
        if self.one_time_burst > 0 {
            if self.one_time_burst >= left {
                self.one_time_burst = self.one_time_burst - left;
                self.last_update = now_ns;
                return BucketReduction::Success;
            }
            left = left - self.one_time_burst;
            self.one_time_burst = 0;
        }
        if left > self.budget {
            self.auto_replenish(now_ns);
            if left > self.size {
                let excess: u64 = left - self.budget;
                self.budget = 0;
                return BucketReduction::OverConsumption { excess };
            }
            if left > self.budget {
                return BucketReduction::Failure;
            }
        }
        self.budget = self.budget - left;
        BucketReduction::Success
    }
}

/// Rounding up is rounding down and adding one where something is left over.
proof fn lemma_ceil(a: nat, b: nat)
    requires
        b > 0,
    ensures
        ceil_div(a, b) == if a % b == 0 {
            a / b
        } else {
            a / b + 1
        },
{
    let q = (a / b) as int;
    let r = (a % b) as int;
    let d = b as int;
    vstd::arithmetic::div_mod::lemma_fundamental_div_mod(a as int, d);
    vstd::arithmetic::div_mod::lemma_mod_bound(a as int, d);
    if r == 0 {
        assert(a + b - 1 == q * d + (d - 1)) by (nonlinear_arith)
            requires
                a == d * q,
                d == b,
        ;
        vstd::arithmetic::div_mod::lemma_fundamental_div_mod_converse(a + b - 1, d, q, d - 1);
    } else {
        assert(a + b - 1 == (q + 1) * d + (r - 1)) by (nonlinear_arith)
            requires
                a == d * q + r,
                d == b,
        ;
        vstd::arithmetic::div_mod::lemma_fundamental_div_mod_converse(a + b - 1, d, q + 1, r - 1);
    }
}

} // verus!
