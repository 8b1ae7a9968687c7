//! What one rate-limited callsite does with each of its messages.

use std::time::Instant;

use vstd::prelude::*;

use crate::logger::metrics::SharedIncMetric;
use crate::logger::rate_limited::{
    admits, checked, is_origin, is_reading, limiter_wf, LogRateLimiter,
};
use crate::logger::text::{decimal, decimal_text};
use crate::logger::{Level, LogLine};
use crate::rate_limiter::BucketState;

verus! {

/// What is to be done with a message.
#[derive(Debug)]
pub enum LogDecision {
    /// Its level is off: nothing is to be done.
    Disabled,
    /// It is to be logged, after the summary where there is one.
    Emit { summary: Option<LogLine> },
    /// It is to be dropped.
    Suppressed,
}

/// A decision as a mathematical value: how many suppressed messages a summary speaks of, zero
/// for no summary.
pub enum Decision {
    Disabled,
    Emit { reported: nat },
    Suppressed,
}

/// A callsite as a mathematical value.
pub struct CallSiteState {
    /// Its rate limiter.
    pub limiter: Option<BucketState>,
    /// Messages suppressed since the last one that was logged.
    pub suppressed: u64,
}

/// One more, wrapping around at the end of the 64-bit range.
pub open spec fn plus_one(n: u64) -> u64 {
    ((n + 1) % 0x1_0000_0000_0000_0000) as u64
}

impl CallSiteState {
    /// What holds of every callsite.
    pub open spec fn wf(self) -> bool {
        limiter_wf(self.limiter)
    }

    /// What is done with a message when the clock reads `now`.
    pub open spec fn decision(self, enabled: bool, now: nat) -> Decision {
        if !enabled {
            Decision::Disabled
        } else if admits(self.limiter, now) {
            Decision::Emit { reported: self.suppressed as nat }
        } else {
            Decision::Suppressed
        }
    }

    /// The callsite after a message. A message whose level is off leaves it as it was.
    pub open spec fn next(self, enabled: bool, now: nat) -> CallSiteState {
        if !enabled {
            self
        } else {
            CallSiteState {
                limiter: checked(self.limiter, now),
                suppressed: if admits(self.limiter, now) {
                    0
                } else {
                    plus_one(self.suppressed)
                },
            }
        }
    }
}

/// The text that reports how many messages were suppressed.
pub open spec fn summary_text(suppressed: nat) -> Seq<char> {
    decimal(suppressed) + " messages were suppressed due to rate limiting"@
}

impl LogDecision {
    /// The decision holds what its mathematical value says: a summary is there if it has
    /// something to report, is a warning, and gives the number.
    pub open spec fn realizes(self, decision: Decision) -> bool {
        match decision {
            Decision::Disabled => self is Disabled,
            Decision::Suppressed => self is Suppressed,
            Decision::Emit { reported } => self matches LogDecision::Emit { summary } && match summary {
                None => reported == 0,
                Some(line) => reported > 0 && line.level == Level::Warn && line.text@
                    == summary_text(reported),
            },
        }
    }
}

/// A place that logs: its rate limiter and the count of its suppressed messages.
#[derive(Debug)]
pub struct CallSite {
    limiter: LogRateLimiter,
    suppressed: u64,
}

impl View for CallSite {
    type V = CallSiteState;

    closed spec fn view(&self) -> CallSiteState {
        CallSiteState { limiter: self.limiter@, suppressed: self.suppressed }
    }
}

impl CallSite {
    /// What holds of every callsite.
    pub open spec fn wf(&self) -> bool {
        self@.wf()
    }

    /// The origin of the callsite's clock; `None` where no clock has been read.
    pub closed spec fn clock(&self) -> Option<Instant> {
        self.limiter.clock()
    }

    /// The clock of a callsite is that of its limiter.
    proof fn law_clock_is_the_limiters(&self)
        ensures
            self.clock() == self.limiter.clock(),
    {
    }

    /// A callsite that has logged nothing yet.
    pub fn new() -> (site: Self)
        ensures
            site.wf(),
            site.clock() is None,
            site@ == (CallSiteState { limiter: None, suppressed: 0 }),
    {
        CallSite { limiter: LogRateLimiter::new(), suppressed: 0 }
    }

    /// Decides about a message on a level that is `enabled` or not, and counts it in `metric`
    /// where it is suppressed. The time is what has passed since the first message on an enabled
    /// level, where the clock starts.
    pub fn on_message(&mut self, enabled: bool, metric: &mut SharedIncMetric) -> (decision:
        LogDecision)
        requires
            old(self).wf(),
        ensures
            final(self).wf(),
            !enabled ==> final(self)@ == old(self)@ && final(self).clock() == old(self).clock(),
            enabled ==> final(self).clock() is Some,
            old(self).clock() is Some ==> final(self).clock() == old(self).clock(),
            enabled && old(self).clock() is None ==> is_origin(final(self).clock()->0),
            enabled ==> exists|now_ns: u128| #[trigger]
                is_reading(final(self).clock()->0, now_ns) && decision.realizes(
                    old(self)@.decision(true, now_ns as nat),
                ) && final(self)@ == old(self)@.next(true, now_ns as nat),
            final(metric)@ == if decision is Suppressed {
                plus_one(old(metric)@)
            } else {
                old(metric)@
            },
            decision is Disabled <==> !enabled,
            decision is Suppressed ==> final(self)@.suppressed == (if old(self)@.suppressed
                == u64::MAX {
                0
            } else {
                old(self)@.suppressed + 1
            }),
            decision matches LogDecision::Emit { summary } ==> {
                &&& final(self)@.suppressed == 0
                &&& summary is Some <==> old(self)@.suppressed > 0
                &&& summary matches Some(line) ==> line.level == Level::Warn && line.text@
                    == decimal(old(self)@.suppressed as nat)
                    + " messages were suppressed due to rate limiting"@
            },
            decision is Suppressed ==> final(metric)@ == (if old(metric)@ == u64::MAX {
                0
            } else {
                old(metric)@ + 1
            }),
            enabled && old(self)@.limiter is None ==> decision is Emit,
            enabled && old(self)@.limiter is Some && old(self)@.limiter->0.budget > 0
                ==> decision is Emit,
    {
        if !enabled {
            return LogDecision::Disabled;
        }
        let allowed = self.limiter.check();
        let ghost now_ns = choose|now_ns: u128| #[trigger]
            is_reading(self.limiter.clock()->0, now_ns) && allowed == admits(
                old(self)@.limiter,
                now_ns as nat,
            ) && self.limiter@ == checked(old(self)@.limiter, now_ns as nat);
        let decision = self.settle(allowed, metric);
        assert(is_reading(self.clock()->0, now_ns));
        decision
    }

    /// [`on_message`](Self::on_message) for a given reading of the clock, in nanoseconds.
    pub fn on_message_at(
        &mut self,
        enabled: bool,
        now_ns: u128,
        metric: &mut SharedIncMetric,
    ) -> (decision: LogDecision)
        requires
            old(self).wf(),
        ensures
            final(self).wf(),
            final(self).clock() == old(self).clock(),
            decision.realizes(old(self)@.decision(enabled, now_ns as nat)),
            final(self)@ == old(self)@.next(enabled, now_ns as nat),
            decision is Disabled <==> !enabled,
            enabled ==> (decision is Emit <==> match old(self)@.limiter {
                None => true,
                Some(b) => b.budget > 0 || (now_ns >= b.last_update && (now_ns - b.last_update) * 10
                    >= 5_000_000_000),
            }),
            decision is Suppressed ==> final(self)@.suppressed == (if old(self)@.suppressed
                == u64::MAX {
                0
            } else {
                old(self)@.suppressed + 1
            }),
            decision matches LogDecision::Emit { summary } ==> {
                &&& final(self)@.suppressed == 0
                &&& summary is Some <==> old(self)@.suppressed > 0
                &&& summary matches Some(line) ==> line.level == Level::Warn && line.text@
                    == decimal(old(self)@.suppressed as nat)
                    + " messages were suppressed due to rate limiting"@
            },
            decision is Suppressed ==> final(metric)@ == (if old(metric)@ == u64::MAX {
                0
            } else {
                old(metric)@ + 1
            }),
            final(metric)@ == if decision is Suppressed {
                plus_one(old(metric)@)
            } else {
                old(metric)@
            },
    {
        if !enabled {
            return LogDecision::Disabled;
        }
        let allowed = self.limiter.check_at(now_ns);
        self.settle(allowed, metric)
    }

    /// Carries out the limiter's verdict on a message: the pending count is reported and reset,
    /// or one is added to it and to `metric`.
    fn settle(&mut self, allowed: bool, metric: &mut SharedIncMetric) -> (decision: LogDecision)
        ensures
            final(self).limiter == old(self).limiter,
            allowed ==> {
                &&& decision.realizes(Decision::Emit { reported: old(self)@.suppressed as nat })
                &&& final(self)@.suppressed == 0
                &&& final(metric)@ == old(metric)@
            },
            !allowed ==> {
                &&& decision is Suppressed
                &&& final(self)@.suppressed == plus_one(old(self)@.suppressed)
                &&& final(metric)@ == plus_one(old(metric)@)
            },
    {
        if allowed {
            let suppressed: u64 = self.suppressed;
            self.suppressed = 0;
            if suppressed > 0 {
                let mut text: String = decimal_text(suppressed);
                text.append(" messages were suppressed due to rate limiting");
                LogDecision::Emit { summary: Some(LogLine { level: Level::Warn, text }) }
            } else {
                LogDecision::Emit { summary: None }
            }
        } else {
            self.suppressed = self.suppressed.wrapping_add(1);
            metric.inc();
            LogDecision::Suppressed
        }
    }
}

} // verus!
