use mcpg_control_plane_client::logs::{
    batch_to_message, batch_to_message_at, flush_step, LogBuffer, LogLevel, LogLineSample,
    DEFAULT_LOG_BATCH_CAP, DEFAULT_LOG_BUFFER_CAP,
};
use mcpg_control_plane_client::proto::{AgentKind, LogLevel as ProtoLevel, Timestamp};
use mcpg_control_plane_client::time::UtcTime;

fn line(msg: &str, level: LogLevel) -> LogLineSample {
    LogLineSample {
        at: UtcTime::now(),
        level,
        target: "mcpg::test".to_owned(),
        message: msg.to_owned(),
        plugin_id: None,
    }
}

#[test]
fn logs_record_and_drain_round_trip() {
    let mut b = LogBuffer::new();
    for i in 0..3 {
        b.record(line(&format!("m{i}"), LogLevel::Info));
    }
    let (drained, dropped, seq) = b.drain();
    assert_eq!(drained.len(), 3);
    assert_eq!(dropped, 0);
    assert_eq!(seq, 1);
    assert_eq!(drained[0].message, "m0");
    assert_eq!(drained[2].message, "m2");
}

#[test]
fn overflow_drops_oldest_and_counts() {
    let mut b = LogBuffer::with_caps(3, 10);
    for i in 0..5 {
        b.record(line(&format!("m{i}"), LogLevel::Warn));
    }
    let (drained, dropped, _) = b.drain();
    assert_eq!(drained.len(), 3);
    assert_eq!(dropped, 2);
    assert_eq!(drained[0].message, "m2");
}

#[test]
fn batch_cap_respected() {
    let mut b = LogBuffer::with_caps(100, 5);
    for i in 0..20 {
        b.record(line(&format!("m{i}"), LogLevel::Debug));
    }
    let (drained, _, _) = b.drain();
    assert_eq!(drained.len(), 5);
    assert_eq!(drained[0].message, "m0");
}

#[test]
fn dropped_resets_on_drain() {
    let mut b = LogBuffer::with_caps(2, 10);
    for i in 0..5 {
        b.record(line(&format!("m{i}"), LogLevel::Error));
    }
    assert_eq!(b.drain().1, 3);
    assert_eq!(b.drain().1, 0);
}

#[test]
fn skips_empty_no_drops() {
    assert!(batch_to_message(vec![], 0, 1).is_none());
}

#[test]
fn emits_when_only_drops() {
    let msg = batch_to_message(vec![], 7, 1).unwrap();
    match msg.kind {
        Some(AgentKind::LogBatch(b)) => {
            assert!(b.lines.is_empty());
            assert_eq!(b.dropped_overflow, 7);
            assert_eq!(b.seq, 1);
        }
        _ => panic!("expected LogBatch"),
    }
}

#[test]
fn batch_carries_level_target_message() {
    let mut l = line("boom", LogLevel::Error);
    l.target = "mcpg::dispatch".to_owned();
    l.plugin_id = Some("github".to_owned());
    let msg = batch_to_message(vec![l], 0, 3).unwrap();
    match msg.kind {
        Some(AgentKind::LogBatch(b)) => {
            assert_eq!(b.lines.len(), 1);
            assert_eq!(b.lines[0].level, ProtoLevel::Error);
            assert_eq!(b.lines[0].target, "mcpg::dispatch");
            assert_eq!(b.lines[0].message, "boom");
            assert_eq!(b.lines[0].plugin_id, "github");
        }
        _ => panic!("expected LogBatch"),
    }
}

#[test]
fn lines_keep_their_nanoseconds_and_batches_their_second() {
    let mut l = line("m", LogLevel::Trace);
    l.at = UtcTime::new(7, 1_500_000_000);
    let msg = batch_to_message_at(vec![l], 0, 1, UtcTime::new(9, 5)).unwrap();
    match msg.kind {
        Some(AgentKind::LogBatch(b)) => {
            assert_eq!(b.at, Some(Timestamp { seconds: 9, nanos: 0 }));
            assert_eq!(b.lines[0].at, Some(Timestamp { seconds: 7, nanos: 1_500_000_000 }));
            assert_eq!(b.lines[0].plugin_id, "");
        }
        _ => panic!("expected LogBatch"),
    }
}

#[test]
fn every_level_has_its_own_wire_form() {
    assert_eq!(LogLevel::Trace.to_proto(), ProtoLevel::Trace);
    assert_eq!(LogLevel::Debug.to_proto(), ProtoLevel::Debug);
    assert_eq!(LogLevel::Info.to_proto(), ProtoLevel::Info);
    assert_eq!(LogLevel::Warn.to_proto(), ProtoLevel::Warn);
    assert_eq!(LogLevel::Error.to_proto(), ProtoLevel::Error);
}

#[test]
fn a_flush_empties_the_buffer_batch_by_batch() {
    let mut b = LogBuffer::with_caps(10, 2);
    for i in 0..3 {
        b.record(line(&format!("m{i}"), LogLevel::Info));
    }
    let now = UtcTime::new(1, 0);
    assert!(flush_step(&mut b, now).is_some());
    assert_eq!(b.len(), 1);
    assert!(flush_step(&mut b, now).is_some());
    assert!(flush_step(&mut b, now).is_none());
    assert_eq!(b.drain().2, 4);
}

#[test]
fn the_default_log_buffer_has_the_default_size() {
    let mut b = LogBuffer::default();
    for i in 0..DEFAULT_LOG_BUFFER_CAP + 1 {
        b.record(line(&format!("m{i}"), LogLevel::Info));
    }
    assert_eq!(b.len(), 5_000);
    let (drained, dropped, _) = b.drain();
    assert_eq!(drained.len(), DEFAULT_LOG_BATCH_CAP);
    assert_eq!(dropped, 1);
    assert_eq!(drained[0].message, "m1");
}
