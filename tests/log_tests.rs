use dcompose_watch::containers::{container_name_for_service, listing_to_json_array, ComposeContainer};
use dcompose_watch::log_line::{parse_log_line, split_log_line};
use dcompose_watch::log_watch::{LogAction, LogInput, LogType, LogWatcher, RawLogLine};
use dcompose_watch::registry::ServiceKey;
use dcompose_watch::timestamp::{display_timestamp, format_rfc3339, get_formatted_date, Timestamp};

fn now() -> Timestamp {
    Timestamp { year: 2025, month: 3, day: 7, hour: 9, minute: 5, second: 4 }
}

#[test]
fn log_line_with_timestamp() {
    let l = parse_log_line("2024-01-01T00:00:00Z hello world", &now());
    assert_eq!(l.timestamp, "01/01/2024 00:00:00");
    assert_eq!(l.text, "hello world");
}

#[test]
fn log_line_without_space() {
    let l = parse_log_line("no-space-here", &now());
    assert_eq!(l.timestamp, "");
    assert_eq!(l.text, "no-space-here");
}

#[test]
fn log_line_with_bad_timestamp_uses_now() {
    let l = parse_log_line("garbage rest of line", &now());
    assert_eq!(l.timestamp, "07/03/2025 09:05:04");
    assert_eq!(l.text, "rest of line");
}

#[test]
fn split_at_first_space_only() {
    assert_eq!(
        split_log_line("a b c"),
        Some(("a".to_string(), "b c".to_string()))
    );
    assert_eq!(split_log_line(" lead"), Some(("".to_string(), "lead".to_string())));
    assert_eq!(split_log_line(""), None);
}

#[test]
fn rfc3339_offset_is_brought_to_utc() {
    assert_eq!(format_rfc3339("2024-06-30T23:30:15+02:00", &now()), "30/06/2024 21:30:15");
    assert_eq!(format_rfc3339("2024-12-31T23:59:59-01:00", &now()), "01/01/2025 00:59:59");
    assert_eq!(
        format_rfc3339("2023-05-06T07:08:09.123456789Z", &now()),
        "06/05/2023 07:08:09"
    );
    assert_eq!(format_rfc3339("not a date", &now()), "07/03/2025 09:05:04");
}

#[test]
fn formatted_date_padding_and_years() {
    let t = Timestamp { year: 7, month: 1, day: 2, hour: 0, minute: 0, second: 9 };
    assert_eq!(get_formatted_date(&t), "02/01/0007 00:00:09");
    let t = Timestamp { year: 12345, month: 12, day: 31, hour: 23, minute: 59, second: 59 };
    assert_eq!(get_formatted_date(&t), "31/12/+12345 23:59:59");
    let t = Timestamp { year: -44, month: 3, day: 15, hour: 12, minute: 0, second: 0 };
    assert_eq!(get_formatted_date(&t), "15/03/-0044 12:00:00");
    assert_eq!(display_timestamp(&None, &now()), "07/03/2025 09:05:04");
}

#[test]
fn listing_becomes_json_array() {
    let out = "{\"Service\":\"web\",\"Name\":\"a\"}\n{\"Service\":\"db\",\"Name\":\"b\"}\n";
    assert_eq!(
        listing_to_json_array(out),
        "[{\"Service\":\"web\",\"Name\":\"a\"},{\"Service\":\"db\",\"Name\":\"b\"}]"
    );
    assert_eq!(listing_to_json_array(""), "[]");
}

#[test]
fn container_lookup_takes_last_entry() {
    let l = vec![
        ComposeContainer { service: "web".to_string(), name: "old".to_string() },
        ComposeContainer { service: "db".to_string(), name: "d".to_string() },
        ComposeContainer { service: "web".to_string(), name: "new".to_string() },
    ];
    assert_eq!(container_name_for_service(&l, "web"), Some("new".to_string()));
    assert_eq!(container_name_for_service(&l, "db"), Some("d".to_string()));
    assert_eq!(container_name_for_service(&l, "cache"), None);
}

fn one(service: &str, name: &str) -> Vec<ComposeContainer> {
    vec![ComposeContainer { service: service.to_string(), name: name.to_string() }]
}

#[test]
fn log_watcher_waits_for_container() {
    let mut w = LogWatcher::new(ServiceKey::new("shop", "web"));
    assert_eq!(w.event_name(), "shop-web-log-event");
    let e = w.step(LogInput::Listing(Ok(one("db", "x"))), &now()).expect("event");
    assert_eq!(e.text, "Container does not exist for this service...");
    assert!(e.clear);
    assert_eq!(e.kind, LogType::StdErr);
    assert_eq!(e.timestamp, "07/03/2025 09:05:04");
    assert!(matches!(w.next_action(), LogAction::Sleep(1000)));
    assert!(w.step(LogInput::Woke, &now()).is_none());
    let e = w.step(LogInput::Listing(Err("down".to_string())), &now()).expect("event");
    assert_eq!(e.text, "Error getting containers: down");
    assert!(e.clear);
    assert!(matches!(w.next_action(), LogAction::Sleep(_)));
}

#[test]
fn log_watcher_streams_lines() {
    let mut w = LogWatcher::new(ServiceKey::new("shop", "web"));
    assert!(w.step(LogInput::Listing(Ok(one("web", "shop-web-1"))), &now()).is_none());
    match w.next_action() {
        LogAction::ReadLine(n) => assert_eq!(n, "shop-web-1"),
        _ => panic!("expected read"),
    }
    let e = w
        .step(
            LogInput::Line(Ok(RawLogLine {
                stream: Some(LogType::StdOut),
                line: "2024-01-01T00:00:00Z hello world".to_string(),
            })),
            &now(),
        )
        .expect("event");
    assert_eq!(e.text, "hello world");
    assert_eq!(e.timestamp, "01/01/2024 00:00:00");
    assert_eq!(e.kind, LogType::StdOut);
    assert!(!e.clear);
    let e = w
        .step(
            LogInput::Line(Ok(RawLogLine { stream: Some(LogType::StdErr), line: "oops".to_string() })),
            &now(),
        )
        .expect("event");
    assert_eq!((e.text.as_str(), e.timestamp.as_str(), e.kind), ("oops", "", LogType::StdErr));
    let e = w.step(
        LogInput::Line(Ok(RawLogLine { stream: None, line: "console".to_string() })),
        &now(),
    );
    assert!(e.is_none());
    assert!(matches!(w.next_action(), LogAction::ReadLine(_)));
}

#[test]
fn log_watcher_stream_error_ends_it() {
    let mut w = LogWatcher::new(ServiceKey::new("shop", "web"));
    w.step(LogInput::Listing(Ok(one("web", "c"))), &now());
    let e = w.step(LogInput::Line(Err("reset".to_string())), &now()).expect("event");
    assert_eq!(e.text, "Logs stream interrupted: reset");
    assert!(e.clear);
    assert!(w.is_ended());
    assert!(matches!(w.next_action(), LogAction::Halt));
}

#[test]
fn log_watcher_stream_end_and_cancel() {
    let mut w = LogWatcher::new(ServiceKey::new("shop", "web"));
    w.step(LogInput::Listing(Ok(one("web", "c"))), &now());
    assert!(w.step(LogInput::StreamEnded, &now()).is_none());
    assert!(w.is_ended());

    let mut w = LogWatcher::new(ServiceKey::new("shop", "web"));
    w.step(LogInput::Listing(Ok(one("web", "c"))), &now());
    assert!(w.step(LogInput::Cancelled, &now()).is_none());
    assert!(matches!(w.next_action(), LogAction::Halt));
    let after = w.step(
        LogInput::Line(Ok(RawLogLine { stream: Some(LogType::StdOut), line: "late".to_string() })),
        &now(),
    );
    assert!(after.is_none());
}

#[test]
fn log_watcher_cancel_while_sleeping() {
    let mut w = LogWatcher::new(ServiceKey::new("shop", "web"));
    w.step(LogInput::Listing(Ok(vec![])), &now());
    assert!(matches!(w.next_action(), LogAction::Sleep(_)));
    assert!(w.step(LogInput::Cancelled, &now()).is_none());
    assert!(matches!(w.next_action(), LogAction::Halt));
    assert!(w.step(LogInput::Woke, &now()).is_none());
}
