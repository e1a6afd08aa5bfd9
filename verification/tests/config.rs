use mcpg_control_plane_client::config::{
    default_backoff_initial, default_backoff_jitter, default_backoff_max, default_heartbeat,
    default_state_dir, interval_text, Backoff,
};
use mcpg_control_plane_client::time::Duration;

#[test]
fn defaults_are_as_documented() {
    assert_eq!(default_state_dir(), "/var/lib/mcpg/cp-client");
    assert_eq!(default_heartbeat(), Duration::from_secs(30));
    assert_eq!(default_backoff_initial(), Duration::from_secs(1));
    assert_eq!(default_backoff_max(), Duration::from_secs(60));
    assert!(default_backoff_jitter());
    let b = Backoff::default();
    assert_eq!(b.initial, Duration::from_secs(1));
    assert_eq!(b.max, Duration::from_secs(60));
    assert!(b.jitter);
}

#[test]
fn an_interval_is_written_in_whole_seconds() {
    assert_eq!(interval_text(&Duration::from_secs(30)), "30s");
    assert_eq!(interval_text(&Duration::from_millis(1_999)), "1s");
    assert_eq!(interval_text(&Duration::from_millis(0)), "0s");
    assert_eq!(interval_text(&Duration::from_secs(u64::MAX)), "18446744073709551615s");
}
