use mcpg_control_plane_client::metrics::{
    batch_to_message, batch_to_message_at, begin_flush, end_flush, MetricsBuffer, SampleOutcome,
    SendOutcome, ToolCallSample,
};
use mcpg_control_plane_client::proto::{AgentKind, Timestamp, ToolOutcome};
use mcpg_control_plane_client::time::{Duration, UtcTime};

fn sample(plugin: &str, tool: &str, outcome: SampleOutcome, dur: Duration) -> ToolCallSample {
    ToolCallSample {
        plugin_id: plugin.to_owned(),
        tool_name: tool.to_owned(),
        binding_id: None,
        started_at: UtcTime::now(),
        duration: dur,
        outcome,
        error_code: None,
        error_hash: None,
        request_id: None,
        caller_subject: None,
        request_payload: None,
        response_payload: None,
        payload_encrypted: false,
        dek_version: 0,
    }
}

fn success(tool: &str) -> ToolCallSample {
    sample("github", tool, SampleOutcome::Success, Duration::from_millis(1))
}

#[test]
fn metrics_record_and_drain_round_trip() {
    let mut b = MetricsBuffer::new();
    for i in 0..3 {
        b.record(sample("p", "t", SampleOutcome::Success, Duration::from_millis(10 + i)));
    }
    let (drained, dropped, seq) = b.drain();
    assert_eq!(drained.len(), 3);
    assert_eq!(dropped, 0);
    assert_eq!(seq, 1);
    // FIFO order preserved.
    assert_eq!(drained[0].duration, Duration::from_millis(10));
    assert_eq!(drained[2].duration, Duration::from_millis(12));
}

#[test]
fn overflow_drops_oldest_and_increments_counter() {
    let mut b = MetricsBuffer::with_caps(3, 10);
    for i in 0..5 {
        b.record(sample("p", "t", SampleOutcome::Success, Duration::from_millis(10 + i)));
    }
    let (drained, dropped, _) = b.drain();
    // Oldest 2 dropped; 3 newest remain.
    assert_eq!(drained.len(), 3);
    assert_eq!(dropped, 2);
    assert_eq!(drained[0].duration, Duration::from_millis(12));
    assert_eq!(drained[2].duration, Duration::from_millis(14));
}

#[test]
fn batch_cap_respected_on_drain() {
    let mut b = MetricsBuffer::with_caps(100, 5);
    for i in 0..20 {
        b.record(sample("p", "t", SampleOutcome::Success, Duration::from_millis(i)));
    }
    let (drained, _, _) = b.drain();
    assert_eq!(drained.len(), 5);
    // Oldest 5; the rest stay buffered.
    assert_eq!(drained[0].duration, Duration::from_millis(0));
    assert_eq!(drained[4].duration, Duration::from_millis(4));
}

#[test]
fn dropped_counter_resets_on_drain() {
    let mut b = MetricsBuffer::with_caps(2, 10);
    for i in 0..5 {
        b.record(sample("p", "t", SampleOutcome::Success, Duration::from_millis(i)));
    }
    let (_, dropped1, _) = b.drain();
    assert_eq!(dropped1, 3);
    let (_, dropped2, _) = b.drain();
    assert_eq!(dropped2, 0);
}

#[test]
fn batch_to_message_skips_empty_no_drops() {
    let msg = batch_to_message(&[], 0, 1);
    assert!(msg.is_none());
}

#[test]
fn batch_to_message_emits_when_only_drops() {
    let msg = batch_to_message(&[], 5, 1).unwrap();
    match msg.kind {
        Some(AgentKind::MetricsReport(m)) => {
            assert!(m.invocations.is_empty());
            assert_eq!(m.dropped_overflow, 5);
        }
        _ => panic!("expected MetricsReport"),
    }
}

#[test]
fn hash_error_is_stable() {
    let h1 = MetricsBuffer::hash_error("connection refused");
    let h2 = MetricsBuffer::hash_error("connection refused");
    assert_eq!(h1, h2);
    assert!(h1.is_some());
    assert_eq!(MetricsBuffer::hash_error(""), None);
}

#[test]
fn hash_error_is_blake3_in_hex() {
    assert_eq!(
        MetricsBuffer::hash_error("abc").unwrap(),
        "6437b3ac38465133ffb63b75273a8db548c558465d79db03fd359c6cd5bd9d85"
    );
}

#[test]
fn an_aborted_flush_returns_its_batch_to_the_buffer() {
    let mut buffer = MetricsBuffer::new();
    for i in 0..5 {
        buffer.record(success(&format!("t{i}")));
    }
    let (msg, in_flight) = begin_flush(&mut buffer, UtcTime::now());
    assert!(msg.is_some());
    assert_eq!(buffer.len(), 0);
    assert!(!end_flush(in_flight, SendOutcome::Aborted, &mut buffer));

    let (recovered, _, _) = buffer.drain();
    assert_eq!(
        recovered.len(),
        5,
        "an aborted flush must hand its batch back, not take it to the grave"
    );
    // Order is preserved: the buffer is a FIFO the CP reads as a timeline.
    let names: Vec<&str> = recovered.iter().map(|s| s.tool_name.as_str()).collect();
    assert_eq!(names, ["t0", "t1", "t2", "t3", "t4"]);
}

#[test]
fn a_failed_send_returns_its_batch_to_the_buffer() {
    let mut buffer = MetricsBuffer::new();
    buffer.record(success("list_repos"));
    let (_, in_flight) = begin_flush(&mut buffer, UtcTime::now());
    assert!(!end_flush(in_flight, SendOutcome::Failed, &mut buffer));

    let (recovered, _, _) = buffer.drain();
    assert_eq!(recovered.len(), 1, "a failed send loses nothing");
}

#[test]
fn a_delivered_batch_does_not_come_back() {
    let mut buffer = MetricsBuffer::new();
    buffer.record(success("t"));
    let (msg, in_flight) = begin_flush(&mut buffer, UtcTime::now());
    assert!(msg.is_some());
    assert!(end_flush(in_flight, SendOutcome::Sent, &mut buffer));
    assert_eq!(buffer.len(), 0);
    let (msg, in_flight) = begin_flush(&mut buffer, UtcTime::now());
    assert!(msg.is_none());
    assert!(end_flush(in_flight, SendOutcome::NothingToSend, &mut buffer));
}

#[test]
fn a_disarmed_batch_owes_nothing() {
    let mut buffer = MetricsBuffer::new();
    buffer.record(success("t"));
    let (_, mut in_flight) = begin_flush(&mut buffer, UtcTime::now());
    in_flight.disarm();
    in_flight.give_back(&mut buffer);
    assert_eq!(buffer.len(), 0);
}

#[test]
fn a_batch_that_no_longer_fits_is_counted_as_dropped() {
    let mut buffer = MetricsBuffer::with_caps(3, 3);
    for i in 0..5 {
        buffer.record(success(&format!("t{i}")));
    }
    let (_, in_flight) = begin_flush(&mut buffer, UtcTime::now());
    buffer.record(success("t5"));
    buffer.record(success("t6"));
    assert!(!end_flush(in_flight, SendOutcome::Failed, &mut buffer));
    // Two dropped before the drain, and two of the batch that no longer fit.
    let (recovered, dropped, _) = buffer.drain();
    assert_eq!(dropped, 4);
    let names: Vec<&str> = recovered.iter().map(|s| s.tool_name.as_str()).collect();
    assert_eq!(names, ["t4", "t5", "t6"]);
}

#[test]
fn requeueing_right_after_a_drain_restores_the_buffer() {
    let mut buffer = MetricsBuffer::with_caps(4, 2);
    for i in 0..6 {
        buffer.record(success(&format!("t{i}")));
    }
    let (batch, dropped, seq) = buffer.drain();
    assert_eq!((batch.len(), dropped, seq), (2, 2, 1));
    buffer.requeue_front(batch, dropped);
    assert_eq!(buffer.len(), 4);
    let (again, dropped, seq) = buffer.drain();
    assert_eq!((again.len(), dropped, seq), (2, 2, 2));
    assert_eq!(again[0].tool_name, "t2");
}

#[test]
fn drains_are_numbered_in_order() {
    let mut buffer = MetricsBuffer::with_caps(4, 2);
    for n in 1..10 {
        buffer.record(success("t"));
        let (batch, dropped, seq) = buffer.drain();
        assert_eq!(seq, n);
        if n % 3 == 0 {
            buffer.requeue_front(batch, dropped);
        }
    }
}

#[test]
fn a_buffer_without_capacity_holds_the_newest_sample() {
    let mut buffer = MetricsBuffer::with_caps(0, 5);
    buffer.record(success("t0"));
    assert_eq!(buffer.len(), 1);
    buffer.record(success("t1"));
    let (batch, dropped, _) = buffer.drain();
    assert_eq!(batch.len(), 1);
    assert_eq!(batch[0].tool_name, "t1");
    assert_eq!(dropped, 2);
}

#[test]
fn batch_to_message_carries_payload_encrypted_flag_and_version() {
    let mut s = sample("github", "list_repos", SampleOutcome::Success, Duration::from_millis(5));
    s.request_payload = Some(b"ciphertext-blob".to_vec());
    s.payload_encrypted = true;
    s.dek_version = 7;
    let msg = batch_to_message(&[s], 0, 1).unwrap();
    match msg.kind {
        Some(AgentKind::MetricsReport(m)) => {
            assert_eq!(m.invocations.len(), 1);
            assert!(m.invocations[0].payload_encrypted);
            assert_eq!(m.invocations[0].dek_version, 7);
            assert_eq!(m.invocations[0].request_payload, b"ciphertext-blob");
        }
        _ => panic!("expected MetricsReport"),
    }
}

#[test]
fn batch_to_message_strips_dek_version_when_not_encrypted() {
    let mut s = sample("github", "list_repos", SampleOutcome::Success, Duration::from_millis(5));
    s.payload_encrypted = false;
    s.dek_version = 99;
    let msg = batch_to_message(&[s], 0, 1).unwrap();
    match msg.kind {
        Some(AgentKind::MetricsReport(m)) => {
            assert!(!m.invocations[0].payload_encrypted);
            assert_eq!(m.invocations[0].dek_version, 0);
        }
        _ => panic!("expected MetricsReport"),
    }
}

#[test]
fn batch_to_message_carries_outcome_correctly() {
    let s = sample("github", "list_repos", SampleOutcome::ServerError, Duration::from_millis(50));
    let msg = batch_to_message(&[s], 0, 1).unwrap();
    match msg.kind {
        Some(AgentKind::MetricsReport(m)) => {
            assert_eq!(m.invocations.len(), 1);
            assert_eq!(m.invocations[0].outcome, ToolOutcome::ServerError);
            assert_eq!(m.invocations[0].duration_ms, 50);
        }
        _ => panic!("expected MetricsReport"),
    }
}

#[test]
fn a_report_carries_every_field() {
    let mut s = success("t");
    s.binding_id = Some("b".to_owned());
    s.started_at = UtcTime::new(-3, 250);
    s.duration = Duration::from_secs(u64::MAX);
    s.error_code = Some("E1".to_owned());
    s.error_hash = MetricsBuffer::hash_error("x");
    s.request_id = Some("r".to_owned());
    s.caller_subject = Some("c".to_owned());
    s.response_payload = Some(vec![1, 2]);
    let hash = s.error_hash.clone().unwrap();
    let msg = batch_to_message_at(&[s], 4, 9, UtcTime::new(100, 7)).unwrap();
    match msg.kind {
        Some(AgentKind::MetricsReport(m)) => {
            assert_eq!(m.at, Some(Timestamp { seconds: 100, nanos: 0 }));
            assert_eq!((m.seq, m.dropped_overflow), (9, 4));
            let i = &m.invocations[0];
            assert_eq!(i.plugin_id, "github");
            assert_eq!(i.tool_name, "t");
            assert_eq!(i.binding_id, "b");
            assert_eq!(i.started_at, Some(Timestamp { seconds: -3, nanos: 250 }));
            assert_eq!(i.duration_ms, u32::MAX);
            assert_eq!(i.error_code, "E1");
            assert_eq!(i.error_hash, hash);
            assert_eq!(i.request_id, "r");
            assert_eq!(i.caller_subject, "c");
            assert!(i.request_payload.is_empty());
            assert_eq!(i.response_payload, vec![1, 2]);
        }
        _ => panic!("expected MetricsReport"),
    }
}

#[test]
fn every_outcome_has_its_own_wire_form() {
    assert_eq!(SampleOutcome::Success.to_proto(), ToolOutcome::Success);
    assert_eq!(SampleOutcome::ClientError.to_proto(), ToolOutcome::ClientError);
    assert_eq!(SampleOutcome::ServerError.to_proto(), ToolOutcome::ServerError);
    assert_eq!(SampleOutcome::PolicyDenied.to_proto(), ToolOutcome::PolicyDenied);
    assert_eq!(SampleOutcome::QuotaExceeded.to_proto(), ToolOutcome::QuotaExceeded);
    assert_eq!(SampleOutcome::IdempotentReplay.to_proto(), ToolOutcome::IdempotentReplay);
}
