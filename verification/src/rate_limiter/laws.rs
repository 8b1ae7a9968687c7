//! What holds of a bucket over one request and over any sequence of requests.

use vstd::prelude::*;

use super::{lemma_refill_time, time_since, BucketReduction, BucketState, TokenBucket};

verus! {

/// A request: how many tokens are asked for, and what the clock reads then.
pub struct Request {
    pub tokens: nat,
    pub now: nat,
}

/// The bucket after a sequence of requests.
pub open spec fn after(b: BucketState, requests: Seq<Request>) -> BucketState
    decreases requests.len(),
{
    if requests.len() == 0 {
        b
    } else {
        let last = requests.last();
        after(b, requests.drop_last()).reduced(last.tokens, last.now).1
    }
}

/// Whether the request at position `i` of a sequence succeeds.
pub open spec fn succeeds(b: BucketState, requests: Seq<Request>, i: int) -> bool {
    after(b, requests.take(i)).reduced(requests[i].tokens, requests[i].now).0
        == BucketReduction::Success
}

/// How many tokens the successful requests of a sequence were given in all.
pub open spec fn granted(b: BucketState, requests: Seq<Request>) -> nat
    decreases requests.len(),
{
    if requests.len() == 0 {
        0
    } else {
        let last = requests.last();
        let before = after(b, requests.drop_last());
        granted(b, requests.drop_last()) + if before.reduced(last.tokens, last.now).0
            == BucketReduction::Success {
            last.tokens
        } else {
            0
        }
    }
}

/// The clock never runs backwards over the sequence, from the reading `start` on.
pub open spec fn clock_runs_forward(start: nat, requests: Seq<Request>) -> bool {
    &&& forall|i: int| 0 <= i < requests.len() ==> start <= (#[trigger] requests[i]).now
    &&& forall|i: int, j: int|
        0 <= i <= j < requests.len() ==> (#[trigger] requests[i]).now <= (
        #[trigger] requests[j]).now
}

/// Turning time into tokens keeps the bucket valid, changes neither its capacity nor its rate,
/// takes no token away, yields no more than the time is worth, and leaves over less than one
/// token's worth of time.
pub proof fn law_replenish(b: BucketState, now: nat)
    requires
        b.wf(),
        b.last_update <= now,
    ensures
        b.replenished(now).wf(),
        b.replenished(now).size == b.size,
        b.replenished(now).refill_ns == b.refill_ns,
        b.replenished(now).one_time_burst == b.one_time_burst,
        b.budget <= b.replenished(now).budget,
        b.last_update <= b.replenished(now).last_update <= now,
        (b.replenished(now).budget - b.budget) * b.refill_ns <= (b.replenished(now).last_update
            - b.last_update) * b.size,
        (now - b.replenished(now).last_update) * b.size < b.refill_ns,
{
    let delta = time_since(now, b.last_update);
    let c = b.replenished(now);
    let gain = c.budget - b.budget;
    let used = c.last_update - b.last_update;
    let s = b.size as int;
    let r = b.refill_ns as int;
    if delta >= b.refill_ns {
        assert(gain * r <= used * s) by (nonlinear_arith)
            requires
                0 <= gain <= s,
                0 < r <= used,
        ;
        assert((now - c.last_update) * s == 0) by (nonlinear_arith)
            requires
                now - c.last_update == 0,
        ;
    } else {
        lemma_refill_time(b, delta);
        let t = b.tokens_in(delta) as int;
        assert(gain * r <= t * r) by (nonlinear_arith)
            requires
                gain <= t,
                r > 0,
        ;
        assert(now - c.last_update == delta - b.time_for(b.tokens_in(delta)));
    }
}

/// One request keeps the bucket valid, and what it gives out and leaves behind is paid for by
/// what was there and by the time that was turned into tokens.
pub proof fn law_request(b: BucketState, tokens: nat, now: nat)
    requires
        b.wf(),
        b.last_update <= now,
    ensures
        ({
            let (outcome, c) = b.reduced(tokens, now);
            let given: nat = if outcome == BucketReduction::Success {
                tokens
            } else {
                0
            };
            &&& c.wf()
            &&& c.size == b.size
            &&& c.refill_ns == b.refill_ns
            &&& b.last_update <= c.last_update <= now
            &&& (given + c.one_time_burst + c.budget) * b.refill_ns <= (b.one_time_burst + b.budget)
                * b.refill_ns + (c.last_update - b.last_update) * b.size
        }),
{
    let (outcome, c) = b.reduced(tokens, now);
    let given: nat = if outcome == BucketReduction::Success {
        tokens
    } else {
        0
    };
    let r = b.refill_ns as int;
    let s = b.size as int;
    let spent = BucketState { one_time_burst: 0, ..b };
    law_replenish(spent, now);
    let used = c.last_update - b.last_update;
    let out = given + c.one_time_burst + c.budget;
    let had = b.one_time_burst + b.budget;
    assert(used * s >= 0) by (nonlinear_arith)
        requires
            used >= 0,
            s >= 0,
    ;
    if out <= had {
        assert(out * r <= had * r) by (nonlinear_arith)
            requires
                out <= had,
                r >= 0,
        ;
    } else {
        let gain = spent.replenished(now).budget - b.budget;
        assert(c.last_update == spent.replenished(now).last_update);
        assert(out <= had + gain);
        assert(out * r <= had * r + gain * r) by (nonlinear_arith)
            requires
                out <= had + gain,
                r >= 0,
        ;
    }
}

/// The rate limit: over any sequence of requests on a clock that runs forward, the tokens given
/// out are at most those the bucket held at the start, its one-time burst included, and those
/// that accrue, at `size` in each `refill_ns`, in the time that has passed.
pub proof fn law_rate_limit(b: BucketState, requests: Seq<Request>, end: nat)
    requires
        b.wf(),
        clock_runs_forward(b.last_update, requests),
        b.last_update <= end,
        forall|i: int| 0 <= i < requests.len() ==> (#[trigger] requests[i]).now <= end,
    ensures
        after(b, requests).wf(),
        granted(b, requests) * b.refill_ns <= (b.one_time_burst + b.budget) * b.refill_ns + (end
            - b.last_update) * b.size,
{
    lemma_account(b, requests);
    let c = after(b, requests);
    let r = b.refill_ns as int;
    let s = b.size as int;
    let g = granted(b, requests) as int;
    let rest = (c.one_time_burst + c.budget) as int;
    assert((g + rest) * r >= g * r) by (nonlinear_arith)
        requires
            rest >= 0,
            r >= 0,
    ;
    let used = c.last_update - b.last_update;
    let passed = end - b.last_update;
    if requests.len() > 0 {
        assert(requests.last().now <= end);
    }
    assert(used * s <= passed * s) by (nonlinear_arith)
        requires
            used <= passed,
            s >= 0,
    ;
}

/// The account behind the rate limit, by induction over the sequence.
proof fn lemma_account(b: BucketState, requests: Seq<Request>)
    requires
        b.wf(),
        clock_runs_forward(b.last_update, requests),
    ensures
        ({
            let c = after(b, requests);
            &&& c.wf()
            &&& c.size == b.size
            &&& c.refill_ns == b.refill_ns
            &&& b.last_update <= c.last_update
            &&& requests.len() == 0 ==> c.last_update == b.last_update
            &&& requests.len() > 0 ==> c.last_update <= requests.last().now
            &&& (granted(b, requests) + c.one_time_burst + c.budget) * b.refill_ns <= (
            b.one_time_burst + b.budget) * b.refill_ns + (c.last_update - b.last_update) * b.size
        }),
    decreases requests.len(),
{
    if requests.len() > 0 {
        let init = requests.drop_last();
        let last = requests.last();
        lemma_account(b, init);
        let m = after(b, init);
        if init.len() > 0 {
            assert(init.last() == requests[requests.len() - 2]);
        }
        law_request(m, last.tokens, last.now);
        let (outcome, c) = m.reduced(last.tokens, last.now);
        let given: int = if outcome == BucketReduction::Success {
            last.tokens as int
        } else {
            0
        };
        let r = b.refill_ns as int;
        let s = b.size as int;
        let g = granted(b, init) as int;
        let rest_m = (m.one_time_burst + m.budget) as int;
        let rest_c = (c.one_time_burst + c.budget) as int;
        assert((g + given + rest_c) * r == g * r + (given + rest_c) * r) by (nonlinear_arith);
        assert((g + rest_m) * r == g * r + rest_m * r) by (nonlinear_arith);
        assert((c.last_update - b.last_update) * s == (c.last_update - m.last_update) * s + (
        m.last_update - b.last_update) * s) by (nonlinear_arith);
    } else {
        assert(0 * b.size == 0);
    }
}

/// A bucket without one-time burst that holds at least as many tokens as a sequence has
/// requests for one token each grants them all, whatever the clock reads, and no time is used.
pub proof fn law_burst(b: BucketState, requests: Seq<Request>)
    requires
        b.wf(),
        b.one_time_burst == 0,
        requests.len() <= b.budget,
        forall|i: int| 0 <= i < requests.len() ==> (#[trigger] requests[i]).tokens == 1,
    ensures
        forall|i: int| 0 <= i < requests.len() ==> succeeds(b, requests, i),
        after(b, requests) == (BucketState { budget: (b.budget - requests.len()) as nat, ..b }),
    decreases requests.len(),
{
    if requests.len() > 0 {
        let init = requests.drop_last();
        law_burst(b, init);
        assert forall|i: int| 0 <= i < requests.len() implies succeeds(b, requests, i) by {
            if i < init.len() {
                assert(succeeds(b, init, i));
                assert(init.take(i) =~= requests.take(i));
            } else {
                assert(requests.take(i) =~= init);
            }
        }
    }
}

/// A bucket whose tokens and one-time burst are spent refuses a request for one token exactly
/// as long as the time since it was last brought up to date is worth less than one token, and
/// a refusal leaves it as it was.
pub proof fn law_empty_bucket(b: BucketState, now: nat)
    requires
        b.wf(),
        b.one_time_burst == 0,
        b.budget == 0,
    ensures
        b.reduced(1, now).0 == BucketReduction::Failure <==> time_since(now, b.last_update) * b.size
            < b.refill_ns,
        b.reduced(1, now).0 == BucketReduction::Success <==> time_since(now, b.last_update) * b.size
            >= b.refill_ns,
        b.reduced(1, now).0 == BucketReduction::Failure ==> b.reduced(1, now).1 == b,
{
    let delta = time_since(now, b.last_update);
    let s = b.size as int;
    let r = b.refill_ns as int;
    let d = delta as int;
    if delta >= b.refill_ns {
        assert(d * s >= r) by (nonlinear_arith)
            requires
                d >= r,
                s >= 1,
                r > 0,
        ;
    } else {
        lemma_refill_time(b, delta);
        let t = b.tokens_in(delta);
        if t == 0 {
            assert(b.time_for(0) == 0) by {
                assert(0 * b.refill_ns == 0);
                vstd::arithmetic::div_mod::lemma_small_mod((s - 1) as nat, b.size);
                vstd::arithmetic::div_mod::lemma_basic_div(s - 1, s);
            }
            assert(d * s < r) by (nonlinear_arith)
                requires
                    d * s < (t + 1) * r,
                    t == 0,
            ;
        } else {
            assert(d * s >= r) by (nonlinear_arith)
                requires
                    t * r <= d * s,
                    t >= 1,
                    r > 0,
            ;
        }
    }
}

/// After a whole refill period any request that fits the bucket succeeds, and one that had to
/// wait for the refill leaves all the other tokens of a full bucket.
pub proof fn law_full_refill(b: BucketState, tokens: nat, now: nat)
    requires
        b.wf(),
        b.one_time_burst == 0,
        tokens <= b.size,
        b.last_update + b.refill_ns <= now,
    ensures
        b.reduced(tokens, now).0 == BucketReduction::Success,
        tokens > b.budget ==> b.reduced(tokens, now).1 == BucketState::full(
            b.size,
            0,
            b.refill_ns,
            now,
        ).reduced(tokens, now).1,
{
}

/// A refill in plain arithmetic. With `t` the whole tokens that the time since the last update is
/// worth, it gives all of them, up to the capacity, and uses up the least whole number of
/// nanoseconds that is worth them; after a whole refill period it gives a full bucket and uses up
/// all the time. A clock that has not moved on gives nothing.
pub proof fn law_refill_is_exact(b: BucketState, now: nat, t: nat)
    requires
        b.wf(),
    ensures
        b.replenished(now).size == b.size,
        b.replenished(now).refill_ns == b.refill_ns,
        b.replenished(now).one_time_burst == b.one_time_burst,
        now <= b.last_update ==> b.replenished(now) == b,
        now >= b.last_update + b.refill_ns ==> b.replenished(now).budget == b.size && b.replenished(
            now,
        ).last_update == now,
        b.last_update <= now < b.last_update + b.refill_ns && t * b.refill_ns <= (now
            - b.last_update) * b.size < (t + 1) * b.refill_ns ==> {
            let c = b.replenished(now);
            &&& b.budget + t <= b.size ==> c.budget == b.budget + t
            &&& b.budget + t >= b.size ==> c.budget == b.size
            &&& t * b.refill_ns <= (c.last_update - b.last_update) * b.size < t * b.refill_ns
                + b.size
        },
{
    let s = b.size as int;
    let r = b.refill_ns as int;
    if now <= b.last_update {
        assert(time_since(now, b.last_update) == 0);
        assert(0 * b.size == 0);
        assert(b.tokens_in(0) == 0) by {
            vstd::arithmetic::div_mod::lemma_basic_div(0, r);
        }
        lemma_time_for_none(b);
    }
    if b.last_update <= now < b.last_update + b.refill_ns {
        let delta = (now - b.last_update) as nat;
        lemma_refill_time(b, delta);
        if t * b.refill_ns <= delta * b.size < (t + 1) * b.refill_ns {
            let u = b.tokens_in(delta);
            assert(u == t) by (nonlinear_arith)
                requires
                    t * b.refill_ns <= delta * b.size < (t + 1) * b.refill_ns,
                    u * b.refill_ns <= delta * b.size < (u + 1) * b.refill_ns,
                    b.refill_ns > 0,
            ;
            lemma_time_for_bounds(b, t);
        }
    }
}

/// No token takes no time.
proof fn lemma_time_for_none(b: BucketState)
    requires
        b.wf(),
    ensures
        b.time_for(0) == 0,
{
    assert(0 * b.refill_ns == 0);
    vstd::arithmetic::div_mod::lemma_basic_div(b.size - 1, b.size as int);
}

/// The time for some tokens is the least that is worth them.
proof fn lemma_time_for_bounds(b: BucketState, t: nat)
    requires
        b.wf(),
    ensures
        t * b.refill_ns <= b.time_for(t) * b.size < t * b.refill_ns + b.size,
{
    let s = b.size as int;
    let a = (t * b.refill_ns) as int;
    let c = b.time_for(t) as int;
    vstd::arithmetic::div_mod::lemma_fundamental_div_mod(a + s - 1, s);
    vstd::arithmetic::div_mod::lemma_mod_bound(a + s - 1, s);
    vstd::arithmetic::div_mod::lemma_div_pos_is_pos(a + s - 1, s);
    assert(c == (a + s - 1) / s);
    assert(c * s == s * c) by (nonlinear_arith);
}

/// After a refill a bucket holds at least `k` tokens, for any `k` up to its capacity, exactly if
/// it held them before or the time since the last update is worth the rest.
pub proof fn law_refill_reaches(b: BucketState, now: nat, k: nat)
    requires
        b.wf(),
        k <= b.size,
    ensures
        b.replenished(now).budget >= k <==> (k <= b.budget || (now >= b.last_update && (now
            - b.last_update) * b.size >= (k - b.budget) * b.refill_ns)),
{
    let s = b.size as int;
    let r = b.refill_ns as int;
    let need = k - b.budget;
    if now <= b.last_update {
        law_refill_is_exact(b, now, 0);
        if need > 0 {
            assert(need * r > 0) by (nonlinear_arith)
                requires
                    need > 0,
                    r > 0,
            ;
            assert((now - b.last_update) * s <= 0) by (nonlinear_arith)
                requires
                    now - b.last_update <= 0,
                    s > 0,
            ;
        }
    } else if now >= b.last_update + b.refill_ns {
        let d = now - b.last_update;
        assert(d * s >= need * r) by (nonlinear_arith)
            requires
                d >= r,
                need <= s,
                s > 0,
                r > 0,
        ;
    } else {
        let d = now - b.last_update;
        lemma_refill_time(b, d as nat);
        let t = b.tokens_in(d as nat) as int;
        law_refill_is_exact(b, now, t as nat);
        if need <= t {
            assert(d * s >= need * r) by (nonlinear_arith)
                requires
                    need <= t,
                    t * r <= d * s,
                    r > 0,
            ;
        } else {
            assert(d * s < need * r) by (nonlinear_arith)
                requires
                    need >= t + 1,
                    d * s < (t + 1) * r,
                    r > 0,
            ;
        }
    }
}

/// When a request is granted, in plain arithmetic: the one-time burst and the budget cover it, or
/// what is left of it after the burst fits the bucket and the time since the last update is worth
/// what the budget lacks. One that is left larger than the bucket is never granted but for
/// overconsumption, and any other is refused.
pub proof fn law_request_outcome(b: BucketState, tokens: nat, now: nat)
    requires
        b.wf(),
        tokens <= u64::MAX,
    ensures
        b.reduced(tokens, now).0 == BucketReduction::Success <==> (tokens <= b.one_time_burst
            + b.budget || (tokens - b.one_time_burst <= b.size && now >= b.last_update && (now
            - b.last_update) * b.size >= (tokens - b.one_time_burst - b.budget) * b.refill_ns)),
        b.reduced(tokens, now).0 is OverConsumption <==> tokens > b.one_time_burst + b.size,
{
    let spent = BucketState { one_time_burst: 0, ..b };
    if tokens > b.one_time_burst + b.budget && tokens <= b.one_time_burst + b.size {
        law_refill_reaches(spent, now, (tokens - b.one_time_burst) as nat);
    }
}

/// What a request does to a bucket. Its capacity and its rate stay. One that the one-time burst
/// covers takes its tokens from there alone and starts the clock anew; any other uses up the burst.
/// One that burst and budget cover takes its tokens from them and uses no time. Where they do not,
/// the bucket is refilled first: then what is given out and what remains, or what remains alone
/// where the request is refused, is what the refilled bucket held; and one that is left larger
/// than the bucket empties it and is told what is owed.
pub proof fn law_request_account(b: BucketState, tokens: nat, now: nat)
    requires
        b.wf(),
        tokens <= u64::MAX,
    ensures
        ({
            let (outcome, c) = b.reduced(tokens, now);
            let refilled = b.replenished(now);
            &&& c.size == b.size && c.refill_ns == b.refill_ns
            &&& b.one_time_burst > 0 && tokens <= b.one_time_burst ==> c.one_time_burst + tokens
                == b.one_time_burst && c.budget == b.budget && c.last_update == now
            &&& tokens >= b.one_time_burst ==> c.one_time_burst == 0
            &&& (b.one_time_burst == 0 || b.one_time_burst < tokens) && tokens <= b.one_time_burst
                + b.budget ==> c.budget + tokens == b.one_time_burst + b.budget && c.last_update
                == b.last_update
            &&& tokens > b.one_time_burst + b.budget ==> {
                &&& c.last_update == refilled.last_update
                &&& outcome == BucketReduction::Success ==> c.budget + tokens == b.one_time_burst
                    + refilled.budget
                &&& outcome == BucketReduction::Failure ==> c.budget == refilled.budget
                &&& outcome matches BucketReduction::OverConsumption { excess } ==> c.budget == 0
                    && excess + refilled.budget + b.one_time_burst == tokens
            }
        }),
{
    let spent = BucketState { one_time_burst: 0, ..b };
    assert(spent.replenished(now) == (BucketState { one_time_burst: 0, ..b.replenished(now) }));
    assert(b.replenished(now).budget <= b.size);
}

/// Continuous refill: of requests for one token each that come to an empty bucket at one reading
/// of the clock, the one at position `i` is granted exactly if the bucket can hold `i + 1` tokens
/// and the time since the last update is worth them.
pub proof fn law_continuous_refill(b: BucketState, requests: Seq<Request>, now: nat, i: int)
    requires
        b.wf(),
        b.one_time_burst == 0,
        b.budget == 0,
        b.last_update <= now,
        forall|j: int|
            0 <= j < requests.len() ==> (#[trigger] requests[j]).tokens == 1 && requests[j].now
                == now,
        0 <= i < requests.len(),
    ensures
        succeeds(b, requests, i) <==> i + 1 <= b.size && (now - b.last_update) * b.size >= (i + 1)
            * b.refill_ns,
{
    let head = requests.take(i);
    lemma_refilled_run(b, head, now);
    let c = b.replenished(now);
    law_refill_reaches(b, now, c.budget);
    if i + 1 <= b.size {
        law_refill_reaches(b, now, (i + 1) as nat);
    }
    law_replenish(b, now);
    let m = after(b, head);
    law_request_outcome(m, 1, now);
    if i > 0 {
        if m.budget == 0 {
            assert((now - m.last_update) * m.size < m.refill_ns);
            assert((1 - 0) * m.refill_ns == m.refill_ns);
        }
    } else {
        assert(m == b);
        assert((0 + 1) * b.refill_ns == b.refill_ns);
        assert((1 - 0 - 0) * b.refill_ns == b.refill_ns);
    }
}

/// An empty bucket after requests for one token each at one reading of the clock.
proof fn lemma_refilled_run(b: BucketState, requests: Seq<Request>, now: nat)
    requires
        b.wf(),
        b.one_time_burst == 0,
        b.budget == 0,
        b.last_update <= now,
        forall|j: int|
            0 <= j < requests.len() ==> (#[trigger] requests[j]).tokens == 1 && requests[j].now
                == now,
    ensures
        requests.len() == 0 ==> after(b, requests) == b,
        requests.len() > 0 ==> after(b, requests) == (BucketState {
            budget: if requests.len() <= b.replenished(now).budget {
                (b.replenished(now).budget - requests.len()) as nat
            } else {
                0
            },
            ..b.replenished(now)
        }),
    decreases requests.len(),
{
    if requests.len() > 0 {
        let init = requests.drop_last();
        lemma_refilled_run(b, init, now);
        assert(requests.last() == requests[requests.len() - 1]);
        let c = b.replenished(now);
        law_replenish(b, now);
        let m = after(b, init);
        if init.len() == 0 {
            assert(m == b);
        } else if m.budget == 0 {
            law_empty_bucket(m, now);
        }
    }
}

/// A new bucket is full, gives out its one-time burst beforehand, and fills up in as many
/// milliseconds as it was made for; there is one exactly if its capacity and its refill time are not
/// zero and the refill time in nanoseconds fits in 64 bits.
pub proof fn law_call_of_new(
    size: u64,
    one_time_burst: u64,
    refill_ms: u64,
    now_ns: u128,
    bucket: Option<TokenBucket>,
)
    requires
        call_ensures(TokenBucket::new, (size, one_time_burst, refill_ms, now_ns), bucket),
    ensures
        bucket is Some <==> size > 0 && refill_ms > 0 && refill_ms * 1_000_000 <= u64::MAX,
        bucket matches Some(b) ==> {
            &&& b.wf()
            &&& b@.size == size && b@.budget == size
            &&& b@.refill_ns == refill_ms * 1_000_000
            &&& b@.one_time_burst == one_time_burst
            &&& b@.last_update == now_ns
        },
{
}

/// A call of `reduce` succeeds exactly if the one-time burst, the budget and the time that has
/// passed are worth the request. The burst is spent first, and then the clock starts anew; then the
/// budget, and then no time is used. Where they are too small, with `t` the whole tokens that the
/// time is worth, all of these are gained, up to the capacity, for the least time that is worth
/// them; what is then given out and what remains is all that was there, and a request larger than
/// burst and bucket empties it and is told what is still owed.
pub proof fn law_call_of_reduce(
    bucket: &mut TokenBucket,
    tokens: u64,
    now_ns: u128,
    outcome: BucketReduction,
    t: nat,
)
    requires
        old(bucket).wf(),
        call_ensures(TokenBucket::reduce, (bucket, tokens, now_ns), outcome),
    ensures
        ({
            let b = old(bucket)@;
            let c = final(bucket)@;
            let had = b.one_time_burst + b.budget;
            let passed = now_ns - b.last_update;
            let most = b.one_time_burst + b.size;
            &&& final(bucket).wf()
            &&& c.size == b.size && c.refill_ns == b.refill_ns
            &&& outcome == BucketReduction::Success <==> tokens <= had || (tokens <= most && passed
                >= 0 && passed * b.size >= (tokens - had) * b.refill_ns)
            &&& outcome is OverConsumption <==> tokens > most
            &&& tokens <= had ==> c.one_time_burst + c.budget + tokens == had
            &&& tokens <= b.one_time_burst ==> c.budget == b.budget
            &&& tokens >= b.one_time_burst ==> c.one_time_burst == 0
            &&& 0 < b.one_time_burst && tokens <= b.one_time_burst ==> c.last_update == now_ns
            &&& b.one_time_burst < tokens <= had ==> c.last_update == b.last_update
            &&& tokens > had && passed <= 0 ==> c.last_update == b.last_update
            &&& tokens > had && passed >= b.refill_ns ==> c.last_update == now_ns
            &&& tokens > had && 0 <= passed < b.refill_ns && t * b.refill_ns <= passed * b.size < (t
                + 1) * b.refill_ns ==> t * b.refill_ns <= (c.last_update - b.last_update) * b.size
                < t * b.refill_ns + b.size
            &&& tokens > had ==> {
                let left = match outcome {
                    BucketReduction::Success => c.budget + tokens - b.one_time_burst,
                    BucketReduction::Failure => c.budget as int,
                    BucketReduction::OverConsumption { excess } => tokens - excess
                        - b.one_time_burst,
                };
                &&& outcome is OverConsumption ==> c.budget == 0
                &&& passed <= 0 ==> left == b.budget
                &&& passed >= b.refill_ns ==> left == b.size
                &&& 0 <= passed < b.refill_ns && t * b.refill_ns <= passed * b.size < (t + 1)
                    * b.refill_ns ==> left == (if b.budget + t <= b.size {
                    b.budget + t
                } else {
                    b.size
                })
            }
        }),
{
    let b = old(bucket)@;
    law_request_outcome(b, tokens as nat, now_ns as nat);
    law_request_account(b, tokens as nat, now_ns as nat);
    law_refill_is_exact(b, now_ns as nat, t);
}

/// Which calls may be made: a bucket of any kind may be asked for, and a valid one may be asked for
/// any number of tokens at any reading of the clock.
pub proof fn law_calls_may_be_made(
    size: u64,
    one_time_burst: u64,
    refill_ms: u64,
    bucket: &mut TokenBucket,
    tokens: u64,
    now_ns: u128,
)
    requires
        old(bucket).wf(),
    ensures
        call_requires(TokenBucket::new, (size, one_time_burst, refill_ms, now_ns)),
        call_requires(TokenBucket::reduce, (bucket, tokens, now_ns)),
{
}

} // verus!
