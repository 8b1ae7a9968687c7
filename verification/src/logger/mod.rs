//! Logging and the metrics that go with it.

use vstd::prelude::*;

pub mod callsite;
pub mod laws;
pub mod metrics;
pub mod rate_limited;
pub mod text;

use crate::logger::laws::law_dev_preview_text;
use crate::logger::metrics::SharedStoreMetric;

verus! {

/// Prefix of log lines about functions and modules that are not generally available.
pub const DEV_PREVIEW_LOG_PREFIX: &'static str = "[DevPreview]";

/// How grave a log line is.
#[derive(Clone, Copy, Debug, PartialEq, Eq, Structural)]
pub enum Level {
    Error,
    Warn,
    Info,
    Debug,
    Trace,
}

/// A line for the log.
#[derive(Debug)]
pub struct LogLine {
    pub level: Level,
    pub text: String,
}

/// The text of the warning that a feature is in development preview, with a remark or without.
pub open spec fn dev_preview_text(feature_name: Seq<char>, remark: Option<Seq<char>>) -> Seq<char> {
    match remark {
        None => DEV_PREVIEW_LOG_PREFIX@ + " "@ + feature_name + " is in development preview."@,
        Some(msg) => DEV_PREVIEW_LOG_PREFIX@ + " "@ + feature_name
            + " is in development preview - "@ + msg,
    }
}

/// The standard warning that a given feature is in development preview, for the caller to log.
pub fn log_dev_preview_warning(feature_name: &str, msg_opt: Option<String>) -> (line: LogLine)
    ensures
        line.level == Level::Warn,
        line.text@ == dev_preview_text(
            feature_name@,
            match msg_opt {
                None => None,
                Some(msg) => Some(msg@),
            },
        ),
        line.text@ == "[DevPreview] "@ + feature_name@ + match msg_opt {
            None => " is in development preview."@,
            Some(msg) => " is in development preview - "@ + msg@,
        },
{
    let mut text: String = DEV_PREVIEW_LOG_PREFIX.to_owned();
    text.append(" ");
    text.append(feature_name);
    match msg_opt {
        None => {
            text.append(" is in development preview.");
            proof {
                law_dev_preview_text(feature_name@, None);
            }
        },
        Some(msg) => {
            text.append(" is in development preview - ");
            text.append(msg.as_str());
            proof {
                law_dev_preview_text(feature_name@, Some(msg@));
            }
        },
    }
    LogLine { level: Level::Warn, text }
}

/// Stores in a metric the time from `start_time_us` to `now_us`, two readings of one clock in
/// microseconds, and returns it.
pub fn update_metric_with_elapsed_time(
    metric: &mut SharedStoreMetric,
    start_time_us: u64,
    now_us: u64,
) -> (delta_us: u64)
    requires
        start_time_us <= now_us,
    ensures
        delta_us == now_us - start_time_us,
        final(metric)@ == delta_us,
{
    let delta_us: u64 = now_us - start_time_us;
    metric.store(delta_us);
    delta_us
}

} // verus!
