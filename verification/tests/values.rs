use mcpg_control_plane_client::externals::{CALENDAR_FIRST_SECOND, CALENDAR_LAST_SECOND};
use mcpg_control_plane_client::proto::Timestamp;
use mcpg_control_plane_client::ring::Ring;
use mcpg_control_plane_client::text::{split_text, strip_prefix, trim, trim_trailing};
use mcpg_control_plane_client::time::{Duration, UtcTime, MAX_NANOS};

#[test]
fn spans_convert_between_units() {
    let d = Duration::from_millis(1_500);
    assert_eq!(d.as_nanos(), 1_500_000_000);
    assert_eq!(d.as_millis(), 1_500);
    assert_eq!(d.as_secs(), 1);
    assert_eq!(Duration::from_secs(2).min(d), d);
    assert_eq!(Duration::from_secs(2).max(d), Duration::from_secs(2));
    assert_eq!(d.saturating_mul(4), Duration::from_secs(6));
    assert_eq!(
        Duration::from_secs(u64::MAX).saturating_mul(2),
        Duration::from_nanos(MAX_NANOS)
    );
}

#[test]
fn the_clock_has_moved_on_since_this_was_written() {
    let now = UtcTime::now();
    assert!(now.timestamp() > 1_700_000_000);
    assert!(now.timestamp_subsec_nanos() < 2_000_000_000);
    assert_eq!(Timestamp::whole(now).seconds, now.timestamp());
    assert_eq!(Timestamp::whole(now).nanos, 0);
    assert_eq!(Timestamp::exact(UtcTime::new(3, 4)), Timestamp { seconds: 3, nanos: 4 });
}

#[test]
fn the_present_instant_has_a_date() {
    assert_eq!(CALENDAR_FIRST_SECOND, chrono::DateTime::<chrono::Utc>::MIN_UTC.timestamp());
    assert_eq!(CALENDAR_LAST_SECOND, chrono::DateTime::<chrono::Utc>::MAX_UTC.timestamp());
    let now = UtcTime::now();
    assert!(now.timestamp_subsec_nanos() < 1_000_000_000);
    let date = chrono::DateTime::from_timestamp(now.timestamp(), now.timestamp_subsec_nanos());
    assert!(date.is_some());
}

#[test]
fn texts_are_taken_apart_as_the_standard_library_does() {
    for s in ["", "a", ".", "a.b", "..", "a..b.", "é.ü"] {
        let expected: Vec<String> = s.split('.').map(|p| p.to_owned()).collect();
        assert_eq!(split_text(s, '.'), expected);
    }
    for s in ["", " ", " a ", "\n\ta b\r\n", "\u{a0}x\u{3000}", "\u{85}y\u{2028}", "x\u{200b}"] {
        assert_eq!(trim(s), s.trim());
    }
    for s in ["", "=", "a==", "=a=", "é="] {
        assert_eq!(trim_trailing(s, '='), s.trim_end_matches('='));
    }
    assert_eq!(strip_prefix("token=x", "token="), Some("x".to_owned()));
    assert_eq!(strip_prefix("toke", "token="), None);
}

#[test]
fn a_ring_keeps_the_newest_in_order() {
    let mut ring: Ring<u32> = Ring::with_caps(3, 2);
    for n in 0..5 {
        ring.record(n);
    }
    assert_eq!(ring.len(), 3);
    assert_eq!(ring.drain(), (vec![2, 3], 2, 1));
    ring.record(5);
    ring.record(6);
    ring.requeue_front(vec![2, 3], 2);
    assert_eq!(ring.drain(), (vec![4, 5], 4, 2));
    assert_eq!(ring.drain(), (vec![6], 0, 3));
    assert_eq!(ring.drain(), (vec![], 0, 4));
}
