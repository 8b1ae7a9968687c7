use vmm::logger::callsite::{CallSite, LogDecision};
use vmm::logger::metrics::{SharedIncMetric, SharedStoreMetric};
use vmm::logger::text::decimal_text;
use vmm::logger::{log_dev_preview_warning, update_metric_with_elapsed_time, Level};

#[test]
fn dev_preview_warning_without_remark() {
    let line = log_dev_preview_warning("Virtio Rng", None);
    assert_eq!(line.level, Level::Warn);
    assert_eq!(
        line.text,
        "[DevPreview] Virtio Rng is in development preview."
    );
}

#[test]
fn dev_preview_warning_with_remark() {
    let line = log_dev_preview_warning("ünïcode", Some(String::from("use with care")));
    assert_eq!(line.level, Level::Warn);
    assert_eq!(
        line.text,
        "[DevPreview] ünïcode is in development preview - use with care"
    );
}

#[test]
fn dev_preview_warning_of_empty_strings() {
    let line = log_dev_preview_warning("", Some(String::new()));
    assert_eq!(line.text, "[DevPreview]  is in development preview - ");
}

#[test]
fn elapsed_time_is_stored_and_returned() {
    let mut metric = SharedStoreMetric::default();
    assert_eq!(metric.fetch(), 0);
    assert_eq!(update_metric_with_elapsed_time(&mut metric, 100, 350), 250);
    assert_eq!(metric.fetch(), 250);
    assert_eq!(update_metric_with_elapsed_time(&mut metric, 7, 7), 0);
    assert_eq!(metric.fetch(), 0);
    assert_eq!(
        update_metric_with_elapsed_time(&mut metric, 0, u64::MAX),
        u64::MAX
    );
}

#[test]
fn numbers_in_decimal() {
    for n in [0u64, 7, 9, 10, 99, 100, 1234567890, u64::MAX] {
        assert_eq!(decimal_text(n), format!("{n}"));
    }
}

#[test]
fn counter_counts() {
    let mut metric = SharedIncMetric::default();
    assert_eq!(metric.count(), 0);
    metric.inc();
    metric.inc();
    assert_eq!(metric.count(), 2);
}

#[test]
fn summary_reports_each_suppressed_message_once() {
    let mut metric = SharedIncMetric::default();
    let mut site = CallSite::new();
    let mut suppressed = 0;
    for now in 0..25u128 {
        match site.on_message_at(true, now, &mut metric) {
            LogDecision::Emit { summary } => {
                assert!(now < 10);
                assert!(summary.is_none());
            }
            LogDecision::Suppressed => suppressed += 1,
            LogDecision::Disabled => panic!("level is on"),
        }
    }
    assert_eq!(suppressed, 15);
    assert_eq!(metric.count(), 15);

    match site.on_message_at(true, 10_000_000_000, &mut metric) {
        LogDecision::Emit {
            summary: Some(line),
        } => {
            assert_eq!(line.level, Level::Warn);
            assert_eq!(
                line.text,
                "15 messages were suppressed due to rate limiting"
            );
        }
        other => panic!("unexpected {other:?}"),
    }
    match site.on_message_at(true, 10_000_000_000, &mut metric) {
        LogDecision::Emit { summary } => assert!(summary.is_none()),
        other => panic!("unexpected {other:?}"),
    }
    assert_eq!(metric.count(), 15);
}

#[test]
fn message_on_a_disabled_level_takes_no_token() {
    let mut metric = SharedIncMetric::default();
    let mut site = CallSite::new();
    for _ in 0..100 {
        assert!(matches!(
            site.on_message(false, &mut metric),
            LogDecision::Disabled
        ));
    }
    for _ in 0..10 {
        assert!(matches!(
            site.on_message(true, &mut metric),
            LogDecision::Emit { summary: None }
        ));
    }
    assert!(matches!(
        site.on_message(true, &mut metric),
        LogDecision::Suppressed
    ));
    assert_eq!(metric.count(), 1);
}
