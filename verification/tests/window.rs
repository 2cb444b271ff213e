use kqr::error::Error;
use kqr::time::{check_duration_range, Span, Timestamp};
use kqr::window::{OffsetStart, ReadBounds, TimeWindow, WindowParse, DEFAULT_LAST_SECS};

#[test]
fn last_default_when_no_flags() {
    let w = WindowParse::default().resolve().unwrap();
    match w {
        TimeWindow::Last(d) => assert_eq!(d, Span::from_secs(DEFAULT_LAST_SECS)),
        _ => panic!("expected Last(default)"),
    }
}

#[test]
fn last_parses_duration() {
    let w = WindowParse {
        last: Some("30m"),
        ..Default::default()
    }
    .resolve()
    .unwrap();
    match w {
        TimeWindow::Last(d) => assert_eq!(d, Span::from_secs(1800)),
        _ => panic!(),
    }
}

#[test]
fn since_duration_to_range() {
    let before = Timestamp::now();
    let w = WindowParse {
        since: Some("1m"),
        ..Default::default()
    }
    .resolve()
    .unwrap();
    match w {
        TimeWindow::Range { from, to } => {
            assert!(to.is_none());
            assert!(from <= before);
        }
        _ => panic!(),
    }
}

#[test]
fn from_to_absolute() {
    let w = WindowParse {
        from: Some("2026-01-02T00:00:00Z"),
        to: Some("2026-01-02T01:00:00Z"),
        ..Default::default()
    }
    .resolve()
    .unwrap();
    match w {
        TimeWindow::Range { from, to } => {
            assert_eq!(from.timestamp(), 1767312000);
            assert_eq!(to.unwrap().timestamp(), 1767315600);
        }
        _ => panic!(),
    }
}

#[test]
fn offset_with_limit() {
    let w = WindowParse {
        offset: Some(OffsetStart::Earliest),
        limit: Some(50),
        ..Default::default()
    }
    .resolve()
    .unwrap();
    match w {
        TimeWindow::Offset { start, limit } => {
            assert_eq!(start, OffsetStart::Earliest);
            assert_eq!(limit, 50);
        }
        _ => panic!(),
    }
}

#[test]
fn offset_without_limit_errors() {
    let err = WindowParse {
        offset: Some(OffsetStart::Latest),
        ..Default::default()
    }
    .resolve()
    .unwrap_err();
    assert!(matches!(err, Error::WindowOffsetWithoutLimit));
}

#[test]
fn conflicting_flags_error() {
    let err = WindowParse {
        last: Some("10m"),
        from: Some("2026-01-02T00:00:00Z"),
        ..Default::default()
    }
    .resolve()
    .unwrap_err();
    assert!(matches!(err, Error::WindowConflict));
}

#[test]
fn to_alone_errors() {
    let err = WindowParse {
        to: Some("2026-01-02T00:00:00Z"),
        ..Default::default()
    }
    .resolve()
    .unwrap_err();
    assert!(matches!(err, Error::WindowToWithoutFrom));
}

#[test]
fn to_before_from_errors() {
    let err = WindowParse {
        from: Some("2026-01-02T01:00:00Z"),
        to: Some("2026-01-02T00:00:00Z"),
        ..Default::default()
    }
    .resolve()
    .unwrap_err();
    assert!(matches!(err, Error::WindowToBeforeFrom));
}

#[test]
fn invalid_rfc3339_errors() {
    let err = WindowParse {
        from: Some("not a date"),
        ..Default::default()
    }
    .resolve()
    .unwrap_err();
    assert!(matches!(err, Error::WindowTimestamp(_, _)));
}

#[test]
fn invalid_duration_errors() {
    let err = WindowParse {
        last: Some("forever and ever"),
        ..Default::default()
    }
    .resolve()
    .unwrap_err();
    assert!(matches!(err, Error::WindowDuration(_, _)));
}

// Further cases.

fn now_at(secs: i64) -> Timestamp {
    Timestamp { secs, nanos: 0 }
}

#[test]
fn last_with_to_conflicts() {
    let err = WindowParse {
        last: Some("10m"),
        to: Some("2026-01-02T00:00:00Z"),
        ..Default::default()
    }
    .resolve()
    .unwrap_err();
    assert!(matches!(err, Error::WindowConflict));
}

#[test]
fn since_duration_counts_back_from_now() {
    let w = WindowParse {
        since: Some("1h"),
        to: Some("2026-01-02T01:00:00Z"),
        ..Default::default()
    }
    .resolve_at(now_at(1767315600 + 1800))
    .unwrap();
    assert_eq!(
        w,
        TimeWindow::Range {
            from: Timestamp { secs: 1767315600 - 1800, nanos: 0 },
            to: Some(Timestamp { secs: 1767315600, nanos: 0 }),
        }
    );
}

#[test]
fn since_absolute_is_like_from() {
    let w = WindowParse {
        since: Some("2026-01-02T00:00:00Z"),
        ..Default::default()
    }
    .resolve_at(now_at(0))
    .unwrap();
    assert_eq!(
        w,
        TimeWindow::Range { from: Timestamp { secs: 1767312000, nanos: 0 }, to: None }
    );
}

#[test]
fn since_garbage_is_timestamp_error() {
    let err = WindowParse {
        since: Some("yesterday-ish"),
        ..Default::default()
    }
    .resolve_at(now_at(100))
    .unwrap_err();
    match err {
        Error::WindowTimestamp(s, _) => assert_eq!(s, "yesterday-ish"),
        other => panic!("unexpected {:?}", other),
    }
}

#[test]
fn since_beyond_earliest_instant_is_out_of_range() {
    let err = WindowParse {
        since: Some("300000years"),
        ..Default::default()
    }
    .resolve_at(now_at(1767312000))
    .unwrap_err();
    assert!(matches!(err, Error::WindowSinceOutOfRange(_)));
}

#[test]
fn equal_bounds_are_rejected() {
    let err = WindowParse {
        from: Some("2026-01-02T00:00:00Z"),
        to: Some("2026-01-02T00:00:00Z"),
        ..Default::default()
    }
    .resolve()
    .unwrap_err();
    assert!(matches!(err, Error::WindowToBeforeFrom));
}

#[test]
fn read_bounds_of_each_window() {
    let now = now_at(1767315600);
    assert_eq!(
        TimeWindow::Last(Span::from_secs(600)).read_bounds(now),
        ReadBounds::Time { from_ms: 1767315000000, to_ms: None }
    );
    let r = TimeWindow::Range {
        from: Timestamp { secs: 1767312000, nanos: 5_000_000 },
        to: Some(now),
    };
    assert_eq!(
        r.read_bounds(now),
        ReadBounds::Time { from_ms: 1767312000005, to_ms: Some(1767315600000) }
    );
    assert_eq!(
        TimeWindow::Offset { start: OffsetStart::Latest, limit: 7 }.read_bounds(now),
        ReadBounds::Offsets { start: OffsetStart::Latest, limit: 7 }
    );
}

#[test]
fn duration_that_would_overflow_is_refused() {
    let w = WindowParse { last: Some("18446744073709551615s 1000ms"), ..Default::default() };
    let err = w.resolve().unwrap_err();
    assert!(matches!(err, Error::DurationTooLarge(ref s) if s == "18446744073709551615s 1000ms"));
}

#[test]
fn duration_range_check() {
    assert!(check_duration_range("10m"));
    assert!(check_duration_range("1h 30m 15s 500ms"));
    assert!(check_duration_range("2024-01-01T00:00:00Z"));
    assert!(check_duration_range("600000000000s"));
    assert!(check_duration_range("18446744073709551615s"));
    assert!(check_duration_range("600000000000s 5ms"));
    assert!(!check_duration_range("18446744073709551615s 1000ms"));
    assert!(!check_duration_range("1844674407370955161 5s 1ms"));
    assert!(!check_duration_range("1000000000000y 1.5s"));
}

#[test]
fn very_long_durations_still_parse() {
    let w = WindowParse { last: Some("600000000000s"), ..Default::default() }.resolve().unwrap();
    assert_eq!(w, TimeWindow::Last(Span { secs: 600_000_000_000, nanos: 0 }));
    let before = Timestamp::now();
    let r = WindowParse { since: Some("600000000000s"), ..Default::default() }.resolve().unwrap();
    match r {
        TimeWindow::Range { from, to: None } => assert!(from < before),
        other => panic!("expected a range, got {other:?}"),
    }
}
