use mcpg_control_plane_client::flush::{ShutdownFlush, MAX_SHUTDOWN_FLUSH_BATCHES};
use mcpg_control_plane_client::proto::{AgentKind, AgentMessage};
use mcpg_control_plane_client::time::{Duration, UtcTime};
use mcpg_control_plane_client::{
    LogBuffer, LogLevel, LogLineSample, MetricsBuffer, SampleOutcome, ToolCallSample,
};

fn sample(tool: &str) -> ToolCallSample {
    ToolCallSample {
        plugin_id: "github".to_owned(),
        tool_name: tool.to_owned(),
        binding_id: None,
        started_at: UtcTime::now(),
        duration: Duration::from_millis(1),
        outcome: SampleOutcome::Success,
        error_code: None,
        error_hash: None,
        request_id: None,
        caller_subject: None,
        request_payload: None,
        response_payload: None,
        payload_encrypted: false,
        dek_version: 0,
    }
}

fn line(msg: &str) -> LogLineSample {
    LogLineSample {
        at: UtcTime::now(),
        level: LogLevel::Info,
        target: "t".to_owned(),
        message: msg.to_owned(),
        plugin_id: None,
    }
}

fn run(metrics: &mut MetricsBuffer, logs: &mut LogBuffer) -> Vec<AgentMessage> {
    let mut flush = ShutdownFlush::begin(true);
    let mut sent = vec![];
    while let Some(msg) = flush.next(metrics, logs, UtcTime::new(1, 0)) {
        sent.push(msg);
    }
    assert!(flush.next(metrics, logs, UtcTime::new(1, 0)).is_none());
    sent
}

#[test]
fn a_shutdown_flush_ships_what_is_still_buffered() {
    let mut metrics = MetricsBuffer::new();
    let mut logs = LogBuffer::new();
    for i in 0..3 {
        metrics.record(sample(&format!("t{i}")));
    }

    let mut sent = run(&mut metrics, &mut logs);

    assert_eq!(sent.len(), 1, "the buffered batch must be shipped");
    let Some(AgentKind::MetricsReport(report)) = sent.remove(0).kind else {
        panic!("expected a MetricsReport");
    };
    assert_eq!(report.invocations.len(), 3);
    assert!(metrics.drain().0.is_empty(), "the buffer is emptied, not copied");
}

#[test]
fn full_default_buffers_are_shipped_whole() {
    let mut metrics = MetricsBuffer::new();
    let mut logs = LogBuffer::new();
    for i in 0..5_002 {
        metrics.record(sample(&format!("t{i}")));
        logs.record(line(&format!("m{i}")));
    }
    let sent = run(&mut metrics, &mut logs);
    assert_eq!(sent.len(), 20);
    let mut tools = vec![];
    let mut lines = vec![];
    let mut dropped = 0;
    for msg in sent {
        match msg.kind {
            Some(AgentKind::MetricsReport(r)) => {
                assert!(lines.is_empty(), "metrics go first");
                dropped += r.dropped_overflow;
                tools.extend(r.invocations.into_iter().map(|i| i.tool_name));
            }
            Some(AgentKind::LogBatch(b)) => {
                dropped += b.dropped_overflow;
                lines.extend(b.lines.into_iter().map(|l| l.message));
            }
            _ => panic!("unexpected message"),
        }
    }
    assert_eq!(dropped, 4);
    let wanted: Vec<String> = (2..5_002).map(|i| format!("t{i}")).collect();
    assert_eq!(tools, wanted);
    let wanted: Vec<String> = (2..5_002).map(|i| format!("m{i}")).collect();
    assert_eq!(lines, wanted);
    assert_eq!((metrics.len(), logs.len()), (0, 0));
}

#[test]
fn a_busy_producer_cannot_hold_the_shutdown_open() {
    let mut metrics = MetricsBuffer::new();
    let mut logs = LogBuffer::new();
    let mut flush = ShutdownFlush::begin(true);
    let mut sent = 0;
    loop {
        metrics.record(sample("t"));
        logs.record(line("m"));
        if flush.next(&mut metrics, &mut logs, UtcTime::new(1, 0)).is_none() {
            break;
        }
        sent += 1;
    }
    assert_eq!(sent, 2 * MAX_SHUTDOWN_FLUSH_BATCHES);
}

#[test]
fn only_a_requested_stop_is_flushed() {
    let mut metrics = MetricsBuffer::new();
    let mut logs = LogBuffer::new();
    metrics.record(sample("t"));
    let mut flush = ShutdownFlush::begin(false);
    assert!(flush.next(&mut metrics, &mut logs, UtcTime::new(1, 0)).is_none());
    assert_eq!(metrics.len(), 1);
}

#[test]
fn a_closed_channel_ends_the_flush() {
    let mut metrics = MetricsBuffer::with_caps(10, 1);
    let mut logs = LogBuffer::new();
    metrics.record(sample("t0"));
    metrics.record(sample("t1"));
    let mut flush = ShutdownFlush::begin(true);
    assert!(flush.next(&mut metrics, &mut logs, UtcTime::new(1, 0)).is_some());
    flush.send_failed();
    assert!(flush.next(&mut metrics, &mut logs, UtcTime::new(1, 0)).is_none());
    assert_eq!(metrics.len(), 1);
}
