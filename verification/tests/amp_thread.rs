use ishi::amp::thread::{
    chrono_parse_to_ms, days_from_epoch, format_relative_time, thread_summary_from, timestamp_fits,
    ThreadSummary,
    millis_as_u64, most_recent_first, now_ms, thread_summary_of,
};

#[test]
fn format_relative_time_seconds() {
    assert_eq!(format_relative_time(1000_000, 1000_000), "0s ago");
    assert_eq!(format_relative_time(1030_000, 1000_000), "30s ago");
}

#[test]
fn format_relative_time_minutes() {
    assert_eq!(format_relative_time(1000_000 + 120_000, 1000_000), "2m ago");
    assert_eq!(format_relative_time(1000_000 + 420_000, 1000_000), "7m ago");
}

#[test]
fn format_relative_time_hours() {
    let two_hours = 2 * 3600 * 1000;
    assert_eq!(
        format_relative_time(1000_000 + two_hours, 1000_000),
        "2h ago"
    );
}

#[test]
fn format_relative_time_days() {
    let three_days = 3 * 86400 * 1000;
    assert_eq!(
        format_relative_time(1000_000 + three_days, 1000_000),
        "3d ago"
    );
}

#[test]
fn chrono_parse_known_timestamp() {
    let ms = chrono_parse_to_ms("2025-12-28T21:21:59.052Z").unwrap();
    assert_eq!(ms, 1766956919052);
}

#[test]
fn chrono_parse_no_millis() {
    let ms = chrono_parse_to_ms("2025-01-01T00:00:00Z").unwrap();
    // 2025-01-01 = day 20089 from epoch
    assert_eq!(ms, 1735689600000);
}

#[test]
fn thread_summary_relative_time_is_nonempty() {
    let summary = ThreadSummary {
        id: "T-test".to_string(),
        title: "Test".to_string(),
        message_count: 1,
        last_activity_ms: 1700000000000,
    };
    let relative = summary.relative_time();
    assert!(!relative.is_empty());
    assert!(relative.ends_with(" ago"));
}

#[test]
fn relative_time_of_future_activity_is_zero_seconds() {
    assert_eq!(format_relative_time(1_000, 5_000), "0s ago");
    assert_eq!(format_relative_time(59_999, 0), "59s ago");
    assert_eq!(format_relative_time(60_000, 0), "1m ago");
}

#[test]
fn chrono_parse_rejects_malformed_timestamps() {
    assert_eq!(chrono_parse_to_ms("2025-12-28"), None);
    assert_eq!(chrono_parse_to_ms("2025-xx-28T00:00:00Z"), None);
    assert_eq!(chrono_parse_to_ms("2025-12-28T00:00"), None);
}

#[test]
fn chrono_parse_epoch_start() {
    assert_eq!(chrono_parse_to_ms("1970-01-01T00:00:00Z"), Some(0));
    assert_eq!(chrono_parse_to_ms("2000-03-01T00:00:01.5Z"), Some(951868801005));
}

#[test]
fn days_from_epoch_counts_leap_days() {
    assert_eq!(days_from_epoch(1970, 1, 1), Some(0));
    assert_eq!(days_from_epoch(2000, 3, 1), Some(11017));
    assert_eq!(days_from_epoch(2025, 1, 1), Some(20089));
}

#[test]
fn timestamp_fits_rejects_pre_epoch_dates() {
    assert!(timestamp_fits("2025-12-28T21:21:59.052Z"));
    assert!(!timestamp_fits("1969-12-31T23:59:59Z"));
}

#[test]
fn thread_summary_prefers_last_event_time() {
    let s = thread_summary_from(
        "T-1".to_string(),
        1700000000000,
        None,
        3,
        Some("2025-12-28T21:21:59.052Z"),
    );
    assert_eq!(s.id, "T-1");
    assert_eq!(s.title, "Untitled thread");
    assert_eq!(s.message_count, 3);
    assert_eq!(s.last_activity_ms, 1766956919052);

    let t = thread_summary_from("T-2".to_string(), 42, Some("Named".to_string()), 0, Some("bad"));
    assert_eq!(t.title, "Named");
    assert_eq!(t.last_activity_ms, 42);
}

fn summary(id: &str, at: u64) -> ThreadSummary {
    ThreadSummary {
        id: id.to_string(),
        title: format!("Thread {id}"),
        message_count: 0,
        last_activity_ms: at,
    }
}

#[test]
fn most_recent_first_orders_by_activity_and_keeps_ties() {
    let threads = vec![
        summary("T-old", 1_600_000_000_000),
        summary("T-new", 1_700_000_000_000),
        summary("T-mid", 1_650_000_000_000),
        summary("T-mid2", 1_650_000_000_000),
    ];
    let ids: Vec<String> = most_recent_first(&threads).into_iter().map(|t| t.id).collect();
    assert_eq!(ids, vec!["T-new", "T-mid", "T-mid2", "T-old"]);
    assert!(most_recent_first(&[]).is_empty());
}

#[test]
fn millis_as_u64_truncates_and_defaults_to_zero() {
    assert_eq!(millis_as_u64(Some(42)), 42);
    assert_eq!(millis_as_u64(Some((1u128 << 64) + 5)), 5);
    assert_eq!(millis_as_u64(None), 0);
    assert!(now_ms() > 1_600_000_000_000);
}

#[test]
fn thread_summary_of_passes_over_a_timestamp_that_does_not_fit() {
    let fits = thread_summary_of("T-1".into(), 5, None, 2, Some("2023-11-14T22:13:20.000Z"));
    assert_eq!(fits.last_activity_ms, 1_700_000_000_000);
    assert_eq!(fits.title, "Untitled thread");
    let huge = thread_summary_of("T-2".into(), 5, Some("t".into()), 0, Some("999999999999-01-01T00:00:00Z"));
    assert_eq!(huge.last_activity_ms, 5);
    assert_eq!(huge.title, "t");
}
