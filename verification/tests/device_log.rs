use halogen_ui_core::device_log::{
    capture, capture_at, captures, clear, drain_pending, export_text, ingest, ingest_persisted, search,
    set_enabled, set_level, snapshot, DeviceLog, LogLine, CAP,
};
use halogen_ui_core::level::Level;

fn reset(enabled: bool, level: Level) -> DeviceLog {
    let mut log = DeviceLog::new(false);
    set_enabled(&mut log, enabled);
    set_level(&mut log, level);
    log
}

fn line(log: &mut DeviceLog, level: Level, msg: &str) {
    capture(log, level, "test", msg);
}

#[test]
fn disabled_captures_nothing() {
    let mut log = reset(false, Level::Info);
    line(&mut log, Level::Error, "nope");
    assert!(snapshot(&log).is_empty());
}

#[test]
fn level_threshold_filters() {
    let mut log = reset(true, Level::Warn);
    line(&mut log, Level::Error, "err");
    line(&mut log, Level::Warn, "warn");
    line(&mut log, Level::Info, "info");
    line(&mut log, Level::Debug, "debug");
    let msgs: Vec<_> = snapshot(&log).into_iter().map(|l| l.msg).collect();
    assert_eq!(msgs, vec!["err", "warn"]);
}

#[test]
fn ring_is_capped_dropping_oldest() {
    let mut log = reset(true, Level::Trace);
    for i in 0..(CAP + 10) {
        line(&mut log, Level::Info, &format!("m{i}"));
    }
    let snap = snapshot(&log);
    assert_eq!(snap.len(), CAP);
    assert_eq!(snap.first().unwrap().msg, "m10");
    assert_eq!(snap.last().unwrap().msg, format!("m{}", CAP + 9));
}

#[test]
fn search_matches_message_and_level() {
    let mut log = reset(true, Level::Trace);
    line(&mut log, Level::Info, "alpha");
    line(&mut log, Level::Error, "beta");
    assert_eq!(search(&log, "alph").len(), 1);
    assert_eq!(search(&log, "error").len(), 1);
    assert_eq!(search(&log, "zzz").len(), 0);
}

#[test]
fn export_and_clear() {
    let mut log = reset(true, Level::Trace);
    line(&mut log, Level::Info, "hello");
    assert!(export_text(&log).contains("hello"));
    clear(&mut log);
    assert!(snapshot(&log).is_empty());
}

#[test]
fn drain_pending_yields_captured_then_empties() {
    let mut log = reset(true, Level::Trace);
    line(&mut log, Level::Info, "p1");
    line(&mut log, Level::Info, "p2");
    let drained = drain_pending(&mut log);
    assert_eq!(drained.len(), 2);
    assert!(drain_pending(&mut log).is_empty());
}

#[test]
fn ingest_persisted_prepends_older_lines() {
    let mut log = reset(true, Level::Trace);
    line(&mut log, Level::Info, "session");
    ingest_persisted(
        &mut log,
        vec![LogLine { ts_ms: 1, level: Level::Info, target: "test".into(), msg: "persisted".into() }],
    );
    let msgs: Vec<_> = snapshot(&log).into_iter().map(|l| l.msg).collect();
    assert_eq!(msgs, vec!["persisted", "session"]);
}

#[test]
fn formatted_line_has_time_level_target_and_message() {
    let l = LogLine { ts_ms: 0, level: Level::Warn, target: "t".into(), msg: "m".into() };
    assert_eq!(l.time_str(), "00:00:00.000");
    assert_eq!(l.formatted(), "00:00:00.000 Warn  t: m");
    let l2 = LogLine { ts_ms: 3_723_004, level: Level::Info, target: "x".into(), msg: "y".into() };
    assert_eq!(l2.time_str(), "01:02:03.004");
}

#[test]
fn capture_at_stamps_the_given_time_and_ingest_bypasses_the_filter() {
    let mut log = reset(true, Level::Error);
    capture_at(&mut log, Level::Error, "tgt", "boom", 42);
    let snap = snapshot(&log);
    assert_eq!(snap.len(), 1);
    assert_eq!(snap[0].ts_ms, 42);
    assert_eq!(snap[0].target, "tgt");
    ingest(&mut log, LogLine { ts_ms: 7, level: Level::Trace, target: "w".into(), msg: "fwd".into() });
    assert_eq!(snapshot(&log).len(), 2);
}

#[test]
fn capture_test_matches_the_threshold() {
    let log = reset(true, Level::Warn);
    assert!(captures(&log, Level::Error));
    assert!(captures(&log, Level::Warn));
    assert!(!captures(&log, Level::Info));
    let off = reset(false, Level::Trace);
    assert!(!captures(&off, Level::Error));
}

#[test]
fn clock_text_is_the_time_of_day_even_before_the_epoch() {
    let at = |ts_ms: i64| LogLine { ts_ms, level: Level::Info, target: "t".into(), msg: "m".into() };
    assert_eq!(at(947_638_923_004).time_str(), "01:02:03.004");
    assert_eq!(at(-1).time_str(), "23:59:59.999");
    assert_eq!(at(86_399_999).time_str(), "23:59:59.999");
    assert_eq!(at(86_400_000).time_str(), "00:00:00.000");
    // Outside the calendar's range the raw stamp is shown.
    assert_eq!(at(i64::MAX).time_str(), i64::MAX.to_string());
}
