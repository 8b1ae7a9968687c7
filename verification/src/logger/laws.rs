//! What holds of rate-limited logging over any sequence of messages.

use vstd::prelude::*;

use crate::logger::callsite::{plus_one, CallSite, CallSiteState, Decision, LogDecision};
use crate::logger::metrics::{SharedIncMetric, SharedStoreMetric};
use crate::logger::rate_limited::{
    admits, bucket_in_use, checked, is_origin, is_reading, limiter_wf, LogRateLimiter,
    DEFAULT_BURST, DEFAULT_REFILL_TIME_MS,
};
use crate::logger::text::{decimal, decimal_text};
use crate::logger::{
    dev_preview_text, log_dev_preview_warning, update_metric_with_elapsed_time, Level, LogLine,
};
use crate::rate_limiter::laws::{
    after, clock_runs_forward, granted, law_burst, law_continuous_refill, law_empty_bucket,
    law_rate_limit, law_refill_is_exact, law_request_account, law_request_outcome, succeeds,
    Request,
};
use crate::rate_limiter::{time_since, BucketState, NANOSEC_IN_ONE_MILLISEC};

verus! {

/// A limiter after checks at the given readings of its clock.
pub open spec fn after_checks(limiter: Option<BucketState>, times: Seq<nat>) -> Option<BucketState>
    decreases times.len(),
{
    if times.len() == 0 {
        limiter
    } else {
        checked(after_checks(limiter, times.drop_last()), times.last())
    }
}

/// Whether the check at position `i` lets its message through.
pub open spec fn admitted_at(limiter: Option<BucketState>, times: Seq<nat>, i: int) -> bool {
    admits(after_checks(limiter, times.take(i)), times[i])
}

/// How many of the checks let their message through.
pub open spec fn admitted(limiter: Option<BucketState>, times: Seq<nat>) -> nat
    decreases times.len(),
{
    if times.len() == 0 {
        0
    } else {
        admitted(limiter, times.drop_last()) + if admits(
            after_checks(limiter, times.drop_last()),
            times.last(),
        ) {
            1nat
        } else {
            0nat
        }
    }
}

/// The requests for one token each that a limiter makes of its bucket.
pub open spec fn single_requests(times: Seq<nat>) -> Seq<Request> {
    times.map_values(|now: nat| Request { tokens: 1, now })
}

/// A limiter asks its bucket for one token at each check, and lets through as many messages as
/// it is given tokens.
proof fn lemma_limiter_is_bucket(limiter: Option<BucketState>, times: Seq<nat>)
    requires
        times.len() > 0,
    ensures
        after_checks(limiter, times) == Some(
            after(bucket_in_use(limiter, times[0]), single_requests(times)),
        ),
        admitted(limiter, times) == granted(
            bucket_in_use(limiter, times[0]),
            single_requests(times),
        ),
    decreases times.len(),
{
    let b = bucket_in_use(limiter, times[0]);
    let init = times.drop_last();
    let reqs = single_requests(times);
    assert(reqs.drop_last() =~= single_requests(init));
    assert(reqs.last() == (Request { tokens: 1, now: times.last() }));
    if init.len() > 0 {
        lemma_limiter_is_bucket(limiter, init);
    } else {
        assert(single_requests(init) =~= Seq::empty());
        assert(after(b, single_requests(init)) == b);
        assert(granted(b, single_requests(init)) == 0);
        assert(after_checks(limiter, init) == limiter);
        assert(admitted(limiter, init) == 0);
    }
}

/// Each check of a limiter is a request of its bucket, with the same outcome.
proof fn lemma_admitted_at_is_success(limiter: Option<BucketState>, times: Seq<nat>, i: int)
    requires
        0 <= i < times.len(),
    ensures
        admitted_at(limiter, times, i) == succeeds(
            bucket_in_use(limiter, times[0]),
            single_requests(times),
            i,
        ),
{
    let head = times.take(i);
    assert(single_requests(times).take(i) =~= single_requests(head));
    if i > 0 {
        lemma_limiter_is_bucket(limiter, head);
    } else {
        assert(single_requests(head) =~= Seq::empty());
        assert(head =~= Seq::empty());
    }
}

/// An unused limiter lets the first [`DEFAULT_BURST`] messages through, whatever the clock
/// reads.
pub proof fn law_burst_is_admitted(times: Seq<nat>)
    requires
        times.len() <= DEFAULT_BURST,
    ensures
        forall|i: int| 0 <= i < times.len() ==> admitted_at(None, times, i),
{
    if times.len() > 0 {
        let b = bucket_in_use(None, times[0]);
        law_burst(b, single_requests(times));
        assert forall|i: int| 0 <= i < times.len() implies admitted_at(None, times, i) by {
            lemma_admitted_at_is_success(None, times, i);
        }
    }
}

/// An unused limiter that is checked over and over within less than the time for one token,
/// the refill period over the burst, lets through the first [`DEFAULT_BURST`] messages and
/// none after them.
pub proof fn law_flood_is_suppressed(times: Seq<nat>)
    requires
        forall|i: int|
            0 <= i < times.len() ==> time_since(#[trigger] times[i], times[0]) * DEFAULT_BURST
                < DEFAULT_REFILL_TIME_MS * NANOSEC_IN_ONE_MILLISEC,
    ensures
        forall|i: int|
            0 <= i < times.len() ==> (admitted_at(None, times, i) <==> i < DEFAULT_BURST),
{
    assert forall|i: int| 0 <= i < times.len() implies (admitted_at(None, times, i) <==> i
        < DEFAULT_BURST) by {
        if i < DEFAULT_BURST {
            let head = times.take(i + 1);
            law_burst_is_admitted(head);
            assert(head.take(i) =~= times.take(i));
            assert(admitted_at(None, head, i));
        } else {
            lemma_flooded(times.take(i));
            let b = after_checks(None, times.take(i))->0;
            law_empty_bucket(b, times[i]);
        }
    }
}

/// The bucket of a limiter that was checked at least [`DEFAULT_BURST`] times within less than
/// the time for one token is empty, and no time was turned into tokens.
proof fn lemma_flooded(times: Seq<nat>)
    requires
        times.len() >= DEFAULT_BURST,
        forall|i: int|
            0 <= i < times.len() ==> time_since(#[trigger] times[i], times[0]) * DEFAULT_BURST
                < DEFAULT_REFILL_TIME_MS * NANOSEC_IN_ONE_MILLISEC,
    ensures
        after_checks(None, times) == Some(
            (BucketState { budget: 0, ..bucket_in_use(None, times[0]) }),
        ),
    decreases times.len(),
{
    let b = bucket_in_use(None, times[0]);
    if times.len() == DEFAULT_BURST {
        law_burst(b, single_requests(times));
        lemma_limiter_is_bucket(None, times);
    } else {
        let init = times.drop_last();
        lemma_flooded(init);
        assert(times.last() == times[times.len() - 1]);
        law_empty_bucket(BucketState { budget: 0, ..b }, times.last());
    }
}

/// Once a whole refill period has passed since the bucket was last brought up to date, a
/// message is let through, and where the bucket was empty all the other tokens are back.
pub proof fn law_refill(limiter: Option<BucketState>, now: nat)
    requires
        limiter_wf(limiter),
        limiter matches Some(b) ==> b.last_update + DEFAULT_REFILL_TIME_MS
            * NANOSEC_IN_ONE_MILLISEC <= now,
    ensures
        admits(limiter, now),
        limiter matches Some(b) ==> (b.budget == 0 ==> checked(limiter, now)->0.budget
            == DEFAULT_BURST - 1),
{
}

/// A limiter that was unused before its first check lets through, up to the reading `end` of a
/// clock that runs forward, at most [`DEFAULT_BURST`] messages and as many more as the burst
/// accrues, over the refill period, in the time since the first check.
pub proof fn law_rate(times: Seq<nat>, end: nat)
    requires
        times.len() > 0,
        forall|i: int, j: int| 0 <= i <= j < times.len() ==> times[i] <= times[j],
        times.last() <= end,
    ensures
        admitted(None, times) * (DEFAULT_REFILL_TIME_MS * NANOSEC_IN_ONE_MILLISEC) <= DEFAULT_BURST
            * (DEFAULT_REFILL_TIME_MS * NANOSEC_IN_ONE_MILLISEC) + (end - times[0]) * DEFAULT_BURST,
{
    let b = bucket_in_use(None, times[0]);
    let reqs = single_requests(times);
    assert(clock_runs_forward(b.last_update, reqs));
    law_rate_limit(b, reqs, end);
    lemma_limiter_is_bucket(None, times);
}

/// A check of one of many callsites: which one, and what the clock reads.
pub struct SiteCheck {
    pub site: int,
    pub now: nat,
}

/// The limiters of many callsites after a sequence of checks, each of which changes the limiter
/// of its own site only.
pub open spec fn after_site_checks(
    sites: spec_fn(int) -> Option<BucketState>,
    checks: Seq<SiteCheck>,
) -> spec_fn(int) -> Option<BucketState>
    decreases checks.len(),
{
    if checks.len() == 0 {
        sites
    } else {
        let before = after_site_checks(sites, checks.drop_last());
        let last = checks.last();
        |site: int|
            if site == last.site {
                checked(before(site), last.now)
            } else {
                before(site)
            }
    }
}

/// The readings of the clock at the checks of one site.
pub open spec fn times_of(site: int, checks: Seq<SiteCheck>) -> Seq<nat>
    decreases checks.len(),
{
    if checks.len() == 0 {
        Seq::empty()
    } else {
        let before = times_of(site, checks.drop_last());
        if checks.last().site == site {
            before.push(checks.last().now)
        } else {
            before
        }
    }
}

/// Callsites are independent: after any interleaving of checks at many sites, each site's
/// limiter is what its own checks alone make of it, so a flood at one site suppresses nothing at
/// another.
pub proof fn law_callsites_are_independent(
    sites: spec_fn(int) -> Option<BucketState>,
    checks: Seq<SiteCheck>,
    site: int,
)
    ensures
        after_site_checks(sites, checks)(site) == after_checks(
            sites(site),
            times_of(site, checks),
        ),
    decreases checks.len(),
{
    if checks.len() > 0 {
        let init = checks.drop_last();
        law_callsites_are_independent(sites, init, site);
        let before = times_of(site, init);
        assert(before.push(checks.last().now).drop_last() =~= before);
    }
}

/// A message at a callsite: whether its level is enabled, and what the clock reads.
pub struct Message {
    pub enabled: bool,
    pub now: nat,
}

/// A callsite after a sequence of messages.
pub open spec fn after_messages(site: CallSiteState, messages: Seq<Message>) -> CallSiteState
    decreases messages.len(),
{
    if messages.len() == 0 {
        site
    } else {
        let last = messages.last();
        after_messages(site, messages.drop_last()).next(last.enabled, last.now)
    }
}

/// What was decided about the last message of a sequence.
pub open spec fn last_decision(site: CallSiteState, messages: Seq<Message>) -> Decision
    recommends
        messages.len() > 0,
{
    let last = messages.last();
    after_messages(site, messages.drop_last()).decision(last.enabled, last.now)
}

/// How many messages of a sequence were suppressed.
pub open spec fn suppressed_in(site: CallSiteState, messages: Seq<Message>) -> nat
    decreases messages.len(),
{
    if messages.len() == 0 {
        0
    } else {
        suppressed_in(site, messages.drop_last()) + if last_decision(site, messages) is Suppressed {
            1nat
        } else {
            0nat
        }
    }
}

/// How many suppressed messages the summaries of a sequence reported in all.
pub open spec fn reported_in(site: CallSiteState, messages: Seq<Message>) -> nat
    decreases messages.len(),
{
    if messages.len() == 0 {
        0
    } else {
        reported_in(site, messages.drop_last()) + match last_decision(site, messages) {
            Decision::Emit { reported } => reported,
            _ => 0,
        }
    }
}

/// No suppressed message is lost and none is reported twice: those suppressed are those that the
/// summaries reported and those that are still to be reported. (The count would wrap around
/// after 2 to the 64 messages.)
pub proof fn law_every_suppressed_message_is_reported(site: CallSiteState, messages: Seq<Message>)
    requires
        site.suppressed + messages.len() <= u64::MAX,
    ensures
        site.suppressed + suppressed_in(site, messages) == reported_in(site, messages)
            + after_messages(site, messages).suppressed,
        suppressed_in(site, messages) <= messages.len(),
    decreases messages.len(),
{
    if messages.len() > 0 {
        let init = messages.drop_last();
        law_every_suppressed_message_is_reported(site, init);
        let m = after_messages(site, init);
        assert(m.suppressed < u64::MAX);
        assert(plus_one(m.suppressed) == m.suppressed + 1);
    }
}

/// A message whose level is off changes nothing and takes no token.
pub proof fn law_disabled_message_changes_nothing(site: CallSiteState, now: nat)
    ensures
        site.next(false, now) == site,
        site.decision(false, now) is Disabled,
{
}

/// A callsite stays valid over any sequence of messages.
pub proof fn law_callsite_stays_valid(site: CallSiteState, messages: Seq<Message>)
    requires
        site.wf(),
    ensures
        after_messages(site, messages).wf(),
    decreases messages.len(),
{
    if messages.len() > 0 {
        law_callsite_stays_valid(site, messages.drop_last());
        let m = after_messages(site, messages.drop_last());
        let last = messages.last();
        lemma_checked_wf(m.limiter, last.now);
    }
}

/// A check keeps a limiter valid.
proof fn lemma_checked_wf(limiter: Option<BucketState>, now: nat)
    requires
        limiter_wf(limiter),
    ensures
        limiter_wf(checked(limiter, now)),
{
}

/// An unused limiter has a full bucket of ten tokens, which fills up in five seconds, from the
/// reading of its first check on; one that has been used keeps its bucket.
pub proof fn law_bucket_in_use(limiter: Option<BucketState>, now: nat)
    ensures
        limiter matches Some(b) ==> bucket_in_use(limiter, now) == b,
        limiter is None ==> {
            let b = bucket_in_use(limiter, now);
            &&& b.size == 10
            &&& b.refill_ns == 5_000_000_000
            &&& b.one_time_burst == 0
            &&& b.budget == 10
            &&& b.last_update == now
        },
        limiter_wf(None),
{
}

/// Which limiters are valid: those that are unused, and those whose bucket holds at most ten
/// tokens, fills up in five seconds and has no one-time burst.
pub proof fn law_limiter_wf(b: BucketState)
    ensures
        limiter_wf(Some(b)) <==> b.size == 10 && b.refill_ns == 5_000_000_000 && b.one_time_burst
            == 0 && b.budget <= 10,
{
}

/// When a message is let through: always at the first use, and later exactly if there is a token
/// left or the time since the bucket was brought up to date is worth one, half a second.
pub proof fn law_admits(limiter: Option<BucketState>, now: nat)
    requires
        limiter_wf(limiter),
    ensures
        admits(limiter, now) <==> match limiter {
            None => true,
            Some(b) => b.budget > 0 || (now >= b.last_update && (now - b.last_update) * 10
                >= 5_000_000_000),
        },
{
    law_request_outcome(bucket_in_use(limiter, now), 1, now);
}

/// What a check does to a limiter: at the first use it takes one of ten tokens; later, where there
/// is a token left, it takes it and nothing else changes; and where there is none it takes one of
/// those that the time has brought, if any.
pub proof fn law_checked(limiter: Option<BucketState>, now: nat, t: nat)
    requires
        limiter_wf(limiter),
    ensures
        checked(limiter, now) is Some,
        limiter_wf(checked(limiter, now)),
        limiter is None ==> checked(limiter, now)->0.budget == 9 && checked(
            limiter,
            now,
        )->0.last_update == now,
        limiter matches Some(b) ==> {
            let c = checked(limiter, now)->0;
            &&& b.budget > 0 ==> c.budget == b.budget - 1 && c.last_update == b.last_update
            &&& b.budget == 0 && now >= b.last_update + 5_000_000_000 ==> c.budget == 9
                && c.last_update == now
            &&& b.budget == 0 && b.last_update <= now < b.last_update + 5_000_000_000 && t
                * 500_000_000 <= now - b.last_update < (t + 1) * 500_000_000 ==> {
                &&& c.budget == (if t == 0 {
                    0
                } else {
                    t - 1
                })
                &&& c.last_update == b.last_update + t * 500_000_000
            }
            &&& b.budget == 0 && now < b.last_update ==> c == b
        },
{
    let b = bucket_in_use(limiter, now);
    law_request_outcome(b, 1, now);
    law_request_account(b, 1, now);
    law_refill_is_exact(b, now, t);
    lemma_checked_wf(limiter, now);
}

/// Continuous refill: of messages that come at one reading of the clock to a limiter whose tokens
/// are spent, the one at position `i` is let through exactly if it is among the first ten and half
/// a second has passed for it and for each before it.
pub proof fn law_messages_after_a_wait(b: BucketState, times: Seq<nat>, now: nat, i: int)
    requires
        limiter_wf(Some(b)),
        b.budget == 0,
        b.last_update <= now,
        forall|j: int| 0 <= j < times.len() ==> #[trigger] times[j] == now,
        0 <= i < times.len(),
    ensures
        admitted_at(Some(b), times, i) <==> i < 10 && now - b.last_update >= (i + 1) * 500_000_000,
{
    let requests = single_requests(times);
    lemma_admitted_at_is_success(Some(b), times, i);
    law_continuous_refill(b, requests, now, i);
}

/// What is decided about a message and what becomes of the callsite: one on a level that is off
/// changes nothing; any other is put to the limiter; where that lets it through, all messages
/// suppressed so far are reported, and none is left to report; and where it does not, there is one
/// more.
pub proof fn law_decision(site: CallSiteState, now: nat)
    requires
        site.wf(),
    ensures
        site.decision(true, now) is Emit <==> match site.limiter {
            None => true,
            Some(b) => b.budget > 0 || (now >= b.last_update && (now - b.last_update) * 10
                >= 5_000_000_000),
        },
        site.decision(true, now) is Suppressed <==> !(site.decision(true, now) is Emit),
        site.next(true, now).limiter == checked(site.limiter, now),
        site.decision(true, now) matches Decision::Emit { reported } ==> reported
            == site.suppressed && site.next(true, now).suppressed == 0,
        site.decision(true, now) is Suppressed ==> (site.suppressed < u64::MAX ==> site.next(
            true,
            now,
        ).suppressed == site.suppressed + 1) && (site.suppressed == u64::MAX ==> site.next(
            true,
            now,
        ).suppressed == 0),
{
    law_admits(site.limiter, now);
}

/// What a decision holds: a summary exactly if there is something to report, which is a warning
/// whose text is the number and what it counts.
pub proof fn law_summary(decision: LogDecision, reported: nat)
    ensures
        decision.realizes(Decision::Emit { reported }) <==> (decision matches LogDecision::Emit {
            summary,
        } && (summary is Some <==> reported > 0) && (summary matches Some(line) ==> line.level
            == Level::Warn && line.text@ == decimal(reported)
            + " messages were suppressed due to rate limiting"@)),
        decision.realizes(Decision::Disabled) <==> decision is Disabled,
        decision.realizes(Decision::Suppressed) <==> decision is Suppressed,
{
}

/// The number that a text of decimal digits stands for.
pub open spec fn decimal_value(text: Seq<char>) -> int
    decreases text.len(),
{
    if text.len() == 0 {
        0
    } else {
        decimal_value(text.drop_last()) * 10 + (text.last() as u32 - 48)
    }
}

/// A number in decimal is made of the digits from '0' to '9', does not start with '0' unless it is
/// zero, and stands for the number.
pub proof fn law_decimal(n: nat)
    ensures
        decimal(n).len() > 0,
        forall|i: int| 0 <= i < decimal(n).len() ==> '0' <= #[trigger] decimal(n)[i] <= '9',
        n == 0 ==> decimal(n).len() == 1,
        n > 0 ==> decimal(n)[0] != '0',
        decimal_value(decimal(n)) == n,
    decreases n,
{
    if n < 10 {
        let one = decimal(n);
        assert(one.drop_last() =~= Seq::empty());
        assert(decimal_value(one.drop_last()) == 0);
    } else {
        law_decimal(n / 10);
        let head = decimal(n / 10);
        assert(decimal(n).drop_last() =~= head);
        assert(decimal(n)[0] == head[0]);
        assert forall|i: int| 0 <= i < decimal(n).len() implies '0' <= #[trigger] decimal(n)[i]
            <= '9' by {
            if i < head.len() {
                assert(decimal(n)[i] == head[i]);
            }
        }
    }
}

/// The warning about a feature in development preview names the feature after the prefix, and ends
/// with the remark where there is one.
pub proof fn law_dev_preview_text(feature_name: Seq<char>, remark: Option<Seq<char>>)
    ensures
        dev_preview_text(feature_name, remark) == "[DevPreview] "@ + feature_name + match remark {
            None => " is in development preview."@,
            Some(msg) => " is in development preview - "@ + msg,
        },
{
    reveal_strlit("[DevPreview]");
    reveal_strlit(" ");
    reveal_strlit("[DevPreview] ");
    assert("[DevPreview]"@ + " "@ =~= "[DevPreview] "@);
    assert(dev_preview_text(feature_name, remark) =~= "[DevPreview] "@ + feature_name + match remark {
        None => " is in development preview."@,
        Some(msg) => " is in development preview - "@ + msg,
    });
}

/// A new limiter, made in either way, is unused and has read no clock.
pub proof fn law_calls_of_new(made: LogRateLimiter, default: LogRateLimiter, site: CallSite)
    requires
        call_ensures(LogRateLimiter::new, (), made),
        call_ensures(<LogRateLimiter as Default>::default, (), default),
        call_ensures(CallSite::new, (), site),
    ensures
        made@ is None && made.clock() is None && made.wf(),
        default@ is None && default.clock() is None && default.wf(),
        site@.limiter is None && site@.suppressed == 0 && site.clock() is None && site.wf(),
{
}

/// A call of `check_at` lets a message through exactly if the limiter is unused, has a token left,
/// or half a second has passed since its bucket was brought up to date; and each message that is
/// let through while tokens are left takes one.
pub proof fn law_call_of_check_at(limiter: &mut LogRateLimiter, now_ns: u128, allowed: bool)
    requires
        old(limiter).wf(),
        call_ensures(LogRateLimiter::check_at, (limiter, now_ns), allowed),
    ensures
        final(limiter).wf(),
        final(limiter)@ is Some,
        final(limiter).clock() == old(limiter).clock(),
        allowed <==> match old(limiter)@ {
            None => true,
            Some(b) => b.budget > 0 || now_ns >= b.last_update + 500_000_000,
        },
        old(limiter)@ is None ==> final(limiter)@->0.budget == 9 && final(limiter)@->0.last_update
            == now_ns,
        old(limiter)@ matches Some(b) ==> {
            let c = final(limiter)@->0;
            &&& b.budget > 0 ==> c.budget + 1 == b.budget && c.last_update == b.last_update
            &&& b.budget == 0 && !allowed ==> c == b
            &&& b.budget == 0 && allowed && now_ns < b.last_update + 5_000_000_000 ==> {
                &&& (c.budget + 1) * 500_000_000 == c.last_update - b.last_update
                &&& c.last_update <= now_ns < c.last_update + 500_000_000
            }
            &&& b.budget == 0 && now_ns >= b.last_update + 5_000_000_000 ==> c.budget == 9
                && c.last_update == now_ns
        },
{
    let t = match old(limiter)@ {
        None => 0,
        Some(b) => if now_ns >= b.last_update {
            ((now_ns - b.last_update) / 500_000_000) as nat
        } else {
            0
        },
    };
    law_checked(old(limiter)@, now_ns as nat, t);
    law_limiter_wf(old(limiter)@->0);
    law_limiter_wf(final(limiter)@->0);
}

/// A call of `check` answers as one of `check_at` for a reading of the clock since the limiter's
/// origin, which the first call sets and no later one changes.
pub proof fn law_call_of_check(limiter: &mut LogRateLimiter, allowed: bool)
    requires
        old(limiter).wf(),
        call_ensures(LogRateLimiter::check, (limiter,), allowed),
    ensures
        final(limiter).wf(),
        final(limiter)@ is Some,
        final(limiter).clock() is Some,
        old(limiter).clock() is Some ==> final(limiter).clock() == old(limiter).clock(),
        old(limiter).clock() is None ==> is_origin(final(limiter).clock()->0),
        exists|now_ns: u128| #[trigger]
            is_reading(final(limiter).clock()->0, now_ns) && (allowed <==> match old(limiter)@ {
                None => true,
                Some(b) => b.budget > 0 || now_ns >= b.last_update + 500_000_000,
            }) && final(limiter)@ == checked(old(limiter)@, now_ns as nat),
{
    let now_ns = choose|now_ns: u128| #[trigger]
        is_reading(final(limiter).clock()->0, now_ns) && allowed == admits(
            old(limiter)@,
            now_ns as nat,
        ) && final(limiter)@ == checked(old(limiter)@, now_ns as nat);
    law_admits(old(limiter)@, now_ns as nat);
    assert(is_reading(final(limiter).clock()->0, now_ns));
}

/// A call of `on_message_at` on an enabled level either has the message logged, with a summary of
/// all that was suppressed before, or suppresses it and counts it twice, at the callsite and in the
/// metric; which of them goes by the limiter.
pub proof fn law_call_of_on_message_at(
    site: &mut CallSite,
    enabled: bool,
    now_ns: u128,
    metric: &mut SharedIncMetric,
    decision: LogDecision,
)
    requires
        old(site).wf(),
        call_ensures(CallSite::on_message_at, (site, enabled, now_ns, metric), decision),
    ensures
        final(site).wf(),
        final(site).clock() == old(site).clock(),
        decision is Disabled <==> !enabled,
        !enabled ==> final(site)@ == old(site)@ && final(metric)@ == old(metric)@,
        enabled ==> (decision is Emit <==> match old(site)@.limiter {
            None => true,
            Some(b) => b.budget > 0 || now_ns >= b.last_update + 500_000_000,
        }),
        enabled ==> final(site)@.limiter == checked(old(site)@.limiter, now_ns as nat),
        decision matches LogDecision::Emit { summary } ==> {
            &&& final(site)@.suppressed == 0
            &&& final(metric)@ == old(metric)@
            &&& summary is Some <==> old(site)@.suppressed > 0
            &&& summary matches Some(line) ==> line.level == Level::Warn && line.text@ == decimal(
                old(site)@.suppressed as nat,
            ) + " messages were suppressed due to rate limiting"@
        },
        decision is Suppressed && old(site)@.suppressed < u64::MAX ==> final(site)@.suppressed
            == old(site)@.suppressed + 1,
        decision is Suppressed && old(metric)@ < u64::MAX ==> final(metric)@ == old(metric)@ + 1,
        decision is Suppressed && old(site)@.suppressed == u64::MAX ==> final(site)@.suppressed == 0,
        decision is Suppressed && old(metric)@ == u64::MAX ==> final(metric)@ == 0,
{
    law_decision(old(site)@, now_ns as nat);
}

/// A call of `on_message` on an enabled level does what one of `on_message_at` does for a reading
/// of the clock since the callsite's origin.
pub proof fn law_call_of_on_message(
    site: &mut CallSite,
    enabled: bool,
    metric: &mut SharedIncMetric,
    decision: LogDecision,
)
    requires
        old(site).wf(),
        call_ensures(CallSite::on_message, (site, enabled, metric), decision),
    ensures
        final(site).wf(),
        decision is Disabled <==> !enabled,
        !enabled ==> final(site)@ == old(site)@ && final(site).clock() == old(site).clock()
            && final(metric)@ == old(metric)@,
        old(site).clock() is Some ==> final(site).clock() == old(site).clock(),
        enabled && old(site).clock() is None ==> is_origin(final(site).clock()->0),
        enabled ==> final(site).clock() is Some && exists|now_ns: u128| #[trigger]
            is_reading(final(site).clock()->0, now_ns) && (decision is Emit <==> match old(site)@.limiter {
                None => true,
                Some(b) => b.budget > 0 || now_ns >= b.last_update + 500_000_000,
            }) && final(site)@.limiter == checked(old(site)@.limiter, now_ns as nat),
        decision matches LogDecision::Emit { summary } ==> {
            &&& final(site)@.suppressed == 0
            &&& final(metric)@ == old(metric)@
            &&& summary is Some <==> old(site)@.suppressed > 0
            &&& summary matches Some(line) ==> line.level == Level::Warn && line.text@ == decimal(
                old(site)@.suppressed as nat,
            ) + " messages were suppressed due to rate limiting"@
        },
        decision is Suppressed && old(site)@.suppressed < u64::MAX ==> final(site)@.suppressed
            == old(site)@.suppressed + 1,
        decision is Suppressed && old(metric)@ < u64::MAX ==> final(metric)@ == old(metric)@ + 1,
        decision is Suppressed && old(site)@.suppressed == u64::MAX ==> final(site)@.suppressed == 0,
        decision is Suppressed && old(metric)@ == u64::MAX ==> final(metric)@ == 0,
{
    if enabled {
        let now_ns = choose|now_ns: u128| #[trigger]
            is_reading(final(site).clock()->0, now_ns) && decision.realizes(
                old(site)@.decision(true, now_ns as nat),
            ) && final(site)@ == old(site)@.next(true, now_ns as nat);
        law_decision(old(site)@, now_ns as nat);
        assert(is_reading(final(site).clock()->0, now_ns));
    }
}

/// The warning about a feature in development preview is a warning that names the feature after the
/// prefix, and ends with the remark where there is one.
pub proof fn law_call_of_log_dev_preview_warning(
    feature_name: &str,
    msg_opt: Option<String>,
    line: LogLine,
)
    requires
        call_ensures(log_dev_preview_warning, (feature_name, msg_opt), line),
    ensures
        line.level == Level::Warn,
        msg_opt is None ==> line.text@ == "[DevPreview] "@ + feature_name@
            + " is in development preview."@,
        msg_opt matches Some(msg) ==> line.text@ == "[DevPreview] "@ + feature_name@ + (
        " is in development preview - "@ + msg@),
{
}

/// The elapsed time is what leads from the start to now, and is what the metric then holds.
pub proof fn law_call_of_update_metric(
    metric: &mut SharedStoreMetric,
    start_time_us: u64,
    now_us: u64,
    delta_us: u64,
)
    requires
        start_time_us <= now_us,
        call_ensures(update_metric_with_elapsed_time, (metric, start_time_us, now_us), delta_us),
    ensures
        start_time_us + delta_us == now_us,
        final(metric)@ == delta_us,
{
}

/// A stored value is the one that is fetched, a counter counts one more each time, and both kinds of
/// metric start at zero.
pub proof fn law_calls_of_metrics(
    store: &mut SharedStoreMetric,
    value: u64,
    fetched: u64,
    counter: &mut SharedIncMetric,
    before: u64,
    after: u64,
    new_counter: SharedIncMetric,
    new_store: SharedStoreMetric,
)
    requires
        call_ensures(SharedStoreMetric::store, (store, value), ()),
        call_ensures(SharedStoreMetric::fetch, (&*final(store),), fetched),
        call_ensures(SharedIncMetric::count, (&*old(counter),), before),
        call_ensures(SharedIncMetric::inc, (counter,), ()),
        call_ensures(SharedIncMetric::count, (&*final(counter),), after),
        call_ensures(<SharedIncMetric as Default>::default, (), new_counter),
        call_ensures(<SharedStoreMetric as Default>::default, (), new_store),
    ensures
        fetched == value,
        before < u64::MAX ==> after == before + 1,
        before == u64::MAX ==> after == 0,
        new_counter@ == 0,
        new_store@ == 0,
{
}

/// The text of a number is made of decimal digits that stand for it.
pub proof fn law_call_of_decimal_text(n: u64, text: String)
    requires
        call_ensures(decimal_text, (n,), text),
    ensures
        decimal_value(text@) == n,
        text@.len() > 0,
        forall|i: int| 0 <= i < text@.len() ==> '0' <= #[trigger] text@[i] <= '9',
        n > 0 ==> text@[0] != '0',
        n == 0 ==> text@.len() == 1,
{
    law_decimal(n as nat);
}

/// Which calls may be made: a valid limiter and a valid callsite take a message at any reading of
/// the clock, any number has a text, any feature can be warned of, and an elapsed time can be stored
/// wherever the clock did not run backwards.
pub proof fn law_calls_may_be_made(
    limiter: &mut LogRateLimiter,
    site: &mut CallSite,
    metric: &mut SharedIncMetric,
    enabled: bool,
    now_ns: u128,
    n: u64,
    feature_name: &str,
    msg_opt: Option<String>,
    store: &mut SharedStoreMetric,
    start_time_us: u64,
    now_us: u64,
)
    requires
        old(limiter).wf(),
        old(site).wf(),
        start_time_us <= now_us,
    ensures
        call_requires(LogRateLimiter::check, (limiter,)),
        call_requires(LogRateLimiter::check_at, (limiter, now_ns)),
        call_requires(CallSite::on_message, (site, enabled, metric)),
        call_requires(CallSite::on_message_at, (site, enabled, now_ns, metric)),
        call_requires(decimal_text, (n,)),
        call_requires(log_dev_preview_warning, (feature_name, msg_opt)),
        call_requires(update_metric_with_elapsed_time, (store, start_time_us, now_us)),
        call_requires(SharedIncMetric::inc, (metric,)),
        call_requires(SharedStoreMetric::store, (store, n)),
{
}

} // verus!
