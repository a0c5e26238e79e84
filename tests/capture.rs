use notify_reg::extract::extract_quoted_string;
use notify_reg::reassembler::{reassemble, Reassembler};
use notify_reg::record::{parse_notification, parse_record, Event, Stamp};
use notify_reg::sink::{render_all, render_block};
use notify_reg::store::{cleanup_notifications, RetentionStore};

fn lines(v: &[&str]) -> Vec<String> {
    v.iter().map(|s| s.to_string()).collect()
}

fn stamp(secs: i64) -> Stamp {
    Stamp::new(secs, "2024-05-01 12:00:00".to_string())
}

fn event(secs: i64, app: &str) -> Event {
    Event {
        timestamp: stamp(secs),
        app_name: app.to_string(),
        summary: format!("{} title", app),
        body: format!("{} body", app),
    }
}

fn sample_stream() -> Vec<String> {
    lines(&[
        "method call time=1 sender=:1.2 -> destination=:1.3 serial=7 path=/org/freedesktop/Notifications; interface=org.freedesktop.Notifications; member=Notify",
        "   string \"Firefox\"",
        "   uint32 0",
        "   string \"\"",
        "   string \"Build complete\"",
        "   string \"All tests passed\"",
        "   array [",
        "   ]",
        "   int32 5",
    ])
}

#[test]
fn extracts_between_first_two_quotes() {
    assert_eq!(extract_quoted_string("\"a\"b\"c\"d\""), "a");
    assert_eq!(extract_quoted_string("   string \"Firefox\""), "Firefox");
    assert_eq!(extract_quoted_string("x \"hello world\" y \"z\""), "hello world");
    assert_eq!(extract_quoted_string("s \"通知\""), "通知");
}

#[test]
fn extractor_placeholder_cases() {
    assert_eq!(extract_quoted_string(""), "none");
    assert_eq!(extract_quoted_string("no quotes here"), "none");
    assert_eq!(extract_quoted_string("only \"one"), "none");
    assert_eq!(extract_quoted_string("trailing\""), "none");
    assert_eq!(extract_quoted_string("   string \"\""), "none");
    assert_eq!(extract_quoted_string("\"\"abc\""), "none");
}

#[test]
fn parser_short_records_use_placeholders() {
    let e = parse_record(&lines(&[]), stamp(1));
    assert_eq!(e.app_name, "unknown");
    assert_eq!(e.summary, "untitled");
    assert_eq!(e.body, "empty");
    let e = parse_record(&lines(&["start", "string \"app\""]), stamp(1));
    assert_eq!(e.app_name, "app");
    assert_eq!(e.summary, "untitled");
    assert_eq!(e.body, "empty");
    let e = parse_record(&lines(&["s", "\"a\"", "x", "y", "\"sum\""]), stamp(1));
    assert_eq!(e.app_name, "a");
    assert_eq!(e.summary, "sum");
    assert_eq!(e.body, "empty");
}

#[test]
fn parser_canonical_record() {
    let rec = lines(&["s", "string \"app\"", "u", "v", "string \"Title\"", "string \"Text\""]);
    let e = parse_record(&rec, stamp(42));
    assert_eq!(e.app_name, "app");
    assert_eq!(e.summary, "Title");
    assert_eq!(e.body, "Text");
    assert_eq!(e.timestamp.secs, 42);
    assert_eq!(e.timestamp.text, "2024-05-01 12:00:00");
}

#[test]
fn parser_stamps_present_time() {
    let rec = lines(&["s", "string \"app\""]);
    let e = parse_notification(&rec);
    assert_eq!(e.app_name, "app");
    assert_eq!(e.timestamp.text.len(), 19);
    assert!(e.timestamp.secs > 1_600_000_000);
}

#[test]
fn stream_without_start_yields_nothing() {
    let s = lines(&["", "signal something", "   int32 5", "string \"x\""]);
    assert!(reassemble(&s).is_empty());
}

#[test]
fn stream_with_one_record() {
    let s = sample_stream();
    let recs = reassemble(&s);
    assert_eq!(recs.len(), 1);
    assert_eq!(recs[0].len(), 9);
    assert_eq!(recs[0], s);
}

#[test]
fn stream_with_two_records_in_order() {
    let mut s = lines(&["noise"]);
    s.extend(lines(&["method call member=Notify", "string \"one\"", "int32 1"]));
    s.push(String::new());
    s.extend(lines(&["method call member=Notify", "string \"two\"", "\tint32 2"]));
    let recs = reassemble(&s);
    assert_eq!(recs.len(), 2);
    assert_eq!(recs[0][1], "string \"one\"");
    assert_eq!(recs[1][1], "string \"two\"");
}

#[test]
fn start_line_restarts_open_record() {
    let mut m = Reassembler::new();
    assert!(m.feed_line("method call member=Notify").is_none());
    assert!(m.in_record());
    assert!(m.feed_line("string \"lost\"").is_none());
    assert!(m.feed_line("method call member=Notify again").is_none());
    let done = m.feed_line("int32 0").unwrap();
    assert_eq!(done, lines(&["method call member=Notify again", "int32 0"]));
    assert!(!m.in_record());
    assert!(m.feed_line("int32 0").is_none());
}

#[test]
fn terminator_needs_leading_token() {
    let mut m = Reassembler::new();
    m.feed_line("method call Notify");
    assert!(m.feed_line("uint32 0").is_none());
    assert!(m.feed_line("x int32").is_none());
    assert!(m.feed_line("\u{3000} int32 7").is_some());
}

#[test]
fn end_to_end_capture() {
    let s = lines(&[
        "method call ... Notify",
        "string \"Firefox\"",
        "string \"\"",
        "array []",
        "string \"Build complete\"",
        "string \"All tests passed\"",
        "int32 5",
    ]);
    let recs = reassemble(&s);
    assert_eq!(recs.len(), 1);
    let e = parse_record(&recs[0], stamp(100));
    assert_eq!(e.app_name, "Firefox");
    assert_eq!(e.summary, "Build complete");
    assert_eq!(e.body, "All tests passed");
    let block = render_block(&e);
    let mut store = RetentionStore::new();
    store.append(e);
    assert_eq!(store.len(), 1);
    let sep = "=".repeat(50);
    assert_eq!(
        block,
        format!("[2024-05-01 12:00:00] Firefox\nBuild complete\nAll tests passed\n{}\n\n", sep)
    );
    assert_eq!(render_all(&store.snapshot_all()), block);
    assert!(block.ends_with("=\n\n"));
}

#[test]
fn eviction_removes_old_event() {
    let now: i64 = 1_000_000;
    let mut store = RetentionStore::new();
    store.append(event(now - 10, "a"));
    store.append(event(now - 100_000, "b"));
    store.append(event(now - 5, "c"));
    let sweep = store.sweep_at(86_400, now);
    assert_eq!(sweep.removed, 1);
    assert_eq!(sweep.now, now);
    let snap = store.snapshot_all();
    assert_eq!(snap.len(), 2);
    assert_eq!(snap[0].app_name, "a");
    assert_eq!(snap[1].app_name, "c");
    let expected = format!("{}{}", render_block(&snap[0]), render_block(&snap[1]));
    assert_eq!(sweep.rewrite, Some(expected));
}

#[test]
fn eviction_boundary_and_nothing_removed() {
    let mut store = RetentionStore::new();
    store.append(event(0, "edge"));
    store.append(event(1, "young"));
    let sweep = store.sweep_at(10, 5);
    assert_eq!(sweep.removed, 0);
    assert_eq!(sweep.rewrite, None);
    assert_eq!(store.evict_older_than(10, 10), 1);
    let snap = store.snapshot_all();
    assert_eq!(snap.len(), 1);
    assert_eq!(snap[0].app_name, "young");
    assert_eq!(store.evict_older_than(0, i64::MIN), 0);
    assert_eq!(store.evict_older_than(0, 1), 1);
    assert_eq!(store.len(), 0);
}

#[test]
fn append_during_sweeps_is_kept() {
    let mut store = RetentionStore::new();
    store.append(event(0, "old"));
    store.append(event(95, "mid"));
    assert_eq!(store.evict_older_than(50, 100), 1);
    store.append(event(100, "new"));
    assert_eq!(store.evict_older_than(50, 120), 0);
    let snap = store.snapshot_all();
    assert_eq!(snap[0].app_name, "mid");
    assert_eq!(snap[1].app_name, "new");
}

#[test]
fn rewrite_twice_is_identical() {
    let mut store = RetentionStore::new();
    store.append(event(1, "x"));
    store.append(event(2, "y"));
    let snap = store.snapshot_all();
    let first = render_all(&snap);
    let second = render_all(&snap);
    assert_eq!(first, second);
    assert_eq!(render_all(&Vec::new()), "");
}

#[test]
fn cleanup_uses_present_time() {
    let mut store = RetentionStore::new();
    store.append(event(0, "ancient"));
    store.append(event(i64::MAX, "future"));
    let sweep = cleanup_notifications(&mut store, 86_400);
    assert_eq!(sweep.removed, 1);
    assert!(sweep.now > 1_600_000_000);
    let snap = store.snapshot_all();
    assert_eq!(snap.len(), 1);
    assert_eq!(snap[0].app_name, "future");
    assert!(sweep.rewrite.unwrap().starts_with("[2024-05-01 12:00:00] future\n"));
}
