use tale_ndjson::json_profiler::{get_counts, record_parse_error, record_variant, reset_counters, VariantCounters, VariantCounts};
use tale_ndjson::logpatterns::Printable;
use tale_ndjson::multiplexed::batch::{BatchConfig, BatchProcessor, BatchedLine};
use tale_ndjson::multiplexed::watcher::{convert_event, tail_action, EventKind, TailAction, WatchEvent, WatcherConfig};
use tale_ndjson::readers::follow::{check_file, creation_watch_setup, CreationWait, FileCheck, WaitStep};
use tale_ndjson::strip_line_ending;
use tale_ndjson::logpatterns::formatting::{LayoutMetrics, Timestamp};

#[test]
fn can_count_variants() {
    let mut counters = VariantCounters::new();
    reset_counters(&mut counters);

    let counts = VariantCounts {
        canonical: 50,
        message: 30,
        json: 15,
        text: 5,
        java: 0,
        logfmt: 0,
        time_only: 0,
        parse_errors: 0,
    };
    assert_eq!(counts.total(), 100);
    assert_eq!(counts.successful_parses(), 95);
    assert_eq!(counts.json_parses(), 95);
}

#[test]
fn counters_follow_recorded_lines() {
    let mut counters = VariantCounters::new();
    record_variant(&mut counters, &Printable::Text("x".to_string()));
    record_variant(&mut counters, &Printable::Text("y".to_string()));
    record_parse_error(&mut counters);
    let counts = get_counts(&counters);
    assert_eq!(counts.text, 2);
    assert_eq!(counts.parse_errors, 1);
    assert_eq!(counts.total(), 2);
    reset_counters(&mut counters);
    assert_eq!(get_counts(&counters).total(), 0);
}

#[test]
fn strips_line_endings() {
    let mut s = "line\r\n".to_string();
    strip_line_ending(&mut s);
    assert_eq!(s, "line");
    let mut s = "line\n".to_string();
    strip_line_ending(&mut s);
    assert_eq!(s, "line");
    let mut s = "line\r".to_string();
    strip_line_ending(&mut s);
    assert_eq!(s, "line\r");
    let mut s = String::new();
    strip_line_ending(&mut s);
    assert_eq!(s, "");
}

fn line(stamp: Option<i128>, at: u64, body: &str) -> BatchedLine {
    let metrics = LayoutMetrics::for_width(80, false);
    let mut l = BatchedLine::new(None, body.to_string(), &metrics, at);
    l.timestamp = stamp.map(|n| Timestamp { nanosecond: n });
    l
}

#[test]
fn batches_come_out_sorted() {
    let mut p = BatchProcessor::new(BatchConfig { batch_window_ms: 250, max_batch_size: 3 });
    assert!(p.on_line(line(None, 5, "late"), 5).is_none());
    assert!(p.on_line(line(Some(20), 6, "b"), 6).is_none());
    let batch = p.on_line(line(Some(10), 7, "a"), 7).expect("the third line fills the batch");
    let bodies: Vec<String> = batch.iter().map(|l| String::from_utf8_lossy(&l.rendered).to_string()).collect();
    assert_eq!(bodies, vec!["a\n", "b\n", "late\n"]);
    assert_eq!(p.pending_len(), 0);
    assert!(p.on_tick().is_none());
    assert!(p.on_line(line(None, 9, "c"), 9).is_none());
    let batch = p.on_close().expect("a waiting line is handed out");
    assert_eq!(batch.len(), 1);
}

#[test]
fn batch_defaults() {
    let c = BatchConfig::default();
    assert_eq!(c.batch_window_ms, 250);
    assert_eq!(c.max_batch_size, 200);
    let w = WatcherConfig::default();
    assert_eq!(w.poll_interval_ms, 100);
    assert_eq!(w.event_buffer_size, 1000);
    assert!(!w.use_polling);
}

#[test]
fn watch_events_and_actions() {
    let paths = vec!["a.log".to_string(), "b.log".to_string()];
    assert_eq!(convert_event(EventKind::Modify, &paths), Some(WatchEvent::FileModified("a.log".to_string())));
    assert_eq!(convert_event(EventKind::Create, &paths), Some(WatchEvent::FileCreated("a.log".to_string())));
    assert_eq!(convert_event(EventKind::Remove, &paths), Some(WatchEvent::FileDeleted("a.log".to_string())));
    assert_eq!(convert_event(EventKind::Other, &paths), None);
    assert_eq!(convert_event(EventKind::Modify, &vec![]), None);
    assert_eq!(
        tail_action(&WatchEvent::FileModified("a.log".to_string())),
        TailAction::ReadNewLines("a.log".to_string())
    );
    assert_eq!(tail_action(&WatchEvent::Error("boom".to_string())), TailAction::Report("Watch error: boom".to_string()));
    assert_eq!(tail_action(&WatchEvent::FileDeleted("a.log".to_string())), TailAction::Ignore);
}

#[test]
fn file_checks() {
    assert_eq!(check_file(true, true, false), FileCheck::Proceed);
    assert_eq!(check_file(true, false, true), FileCheck::NotAFile);
    assert_eq!(check_file(false, false, true), FileCheck::WaitForCreation);
    assert_eq!(check_file(false, false, false), FileCheck::NotFound);
}

#[test]
fn waiting_for_a_file() {
    let name = creation_watch_setup("logs/app.log", &Some("logs".to_string()), true).expect("set up");
    assert_eq!(name, "app.log");
    assert!(creation_watch_setup("logs/app.log", &Some("logs".to_string()), false).is_err());
    assert!(creation_watch_setup("app.log", &None, true).is_err());

    let mut wait = CreationWait::new(name);
    assert_eq!(wait.on_created(&Some("other.log".to_string())), WaitStep::Continue);
    assert_eq!(wait.on_created(&Some("app.log".to_string())), WaitStep::Done);
    assert_eq!(wait.on_timeout(5, false), WaitStep::Continue);
    assert_eq!(wait.on_timeout(30, false), WaitStep::StillWaiting(10));
    assert_eq!(wait.on_timeout(0, true), WaitStep::Done);
}
