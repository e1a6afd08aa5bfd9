//! The messages that agent and Control Plane exchange, as plain values.

use vstd::prelude::*;

use crate::time::UtcTime;

verus! {

/// An instant on the wire.
#[derive(Clone, Copy, Debug, PartialEq, Eq, Structural)]
pub struct Timestamp {
    pub seconds: i64,
    pub nanos: i32,
}

/// How a tool call ended.
#[derive(Clone, Copy, Debug, PartialEq, Eq, Structural)]
pub enum ToolOutcome {
    Success,
    ClientError,
    ServerError,
    PolicyDenied,
    QuotaExceeded,
    IdempotentReplay,
}

/// How severe a log line is.
#[derive(Clone, Copy, Debug, PartialEq, Eq, Structural)]
pub enum LogLevel {
    Trace,
    Debug,
    Info,
    Warn,
    Error,
}

/// One tool call in a metrics report. Optional texts and payloads are empty
/// where they are missing.
#[derive(Clone, Debug)]
pub struct ToolInvocationSample {
    pub plugin_id: String,
    pub tool_name: String,
    pub binding_id: String,
    pub started_at: Option<Timestamp>,
    pub duration_ms: u32,
    pub outcome: ToolOutcome,
    pub error_code: String,
    pub error_hash: String,
    pub request_id: String,
    pub caller_subject: String,
    pub request_payload: Vec<u8>,
    pub response_payload: Vec<u8>,
    pub payload_encrypted: bool,
    pub dek_version: u32,
}

/// A batch of tool calls.
#[derive(Clone, Debug)]
pub struct MetricsReport {
    pub at: Option<Timestamp>,
    pub seq: u64,
    pub invocations: Vec<ToolInvocationSample>,
    pub dropped_overflow: u64,
}

/// One log line.
#[derive(Clone, Debug)]
pub struct LogLine {
    pub at: Option<Timestamp>,
    pub level: LogLevel,
    pub target: String,
    pub message: String,
    pub plugin_id: String,
}

/// A batch of log lines.
#[derive(Clone, Debug)]
pub struct LogBatch {
    pub at: Option<Timestamp>,
    pub seq: u64,
    pub lines: Vec<LogLine>,
    pub dropped_overflow: u64,
}

/// One plugin in a status report.
#[derive(Clone, Debug)]
pub struct PluginStatus {
    pub id: String,
    pub version: String,
    pub state: String,
    pub error: String,
    pub invocations: u64,
}

/// The clustering section of a status report.
#[derive(Clone, Debug)]
pub struct ClusterStatus {
    pub kind: String,
    pub backend_up: Option<bool>,
    pub peers: Option<u32>,
}

/// A snapshot of the host process.
#[derive(Clone, Debug)]
pub struct StatusReport {
    pub at: Option<Timestamp>,
    pub config_hash: String,
    pub plugins: Vec<PluginStatus>,
    pub warnings: Vec<String>,
    pub cluster: Option<ClusterStatus>,
    pub secrets_digest: String,
}

/// A sign of life.
#[derive(Clone, Debug)]
pub struct Heartbeat {
    pub at: Option<Timestamp>,
    pub seq: u64,
    pub health: String,
    pub active_connections: u32,
    pub memory_rss_bytes: u64,
}

/// What became of a pushed config bundle.
#[derive(Clone, Debug)]
pub struct ConfigAck {
    pub config_hash: String,
    pub applied_at: Option<Timestamp>,
    pub applied_state: String,
    pub error: String,
}

/// What an agent says.
#[derive(Clone, Debug)]
pub enum AgentKind {
    Heartbeat(Heartbeat),
    MetricsReport(MetricsReport),
    LogBatch(LogBatch),
    StatusReport(StatusReport),
    ConfigAck(ConfigAck),
}

/// A message from the agent.
#[derive(Clone, Debug)]
pub struct AgentMessage {
    pub kind: Option<AgentKind>,
}

/// The machine that an agent runs on.
#[derive(Clone, Debug)]
pub struct HostInfo {
    pub os: String,
    pub arch: String,
    pub hostname: String,
    pub kernel_version: String,
}

/// A request to be enrolled.
#[derive(Clone, Debug)]
pub struct RegisterRequest {
    pub bootstrap_token: String,
    pub instance_uid: String,
    pub version: String,
    pub labels: Vec<(String, String)>,
    pub capabilities: Vec<String>,
    pub addressable_endpoints: Vec<String>,
    pub host: Option<HostInfo>,
}

/// The credentials that an enrolled agent is issued.
#[derive(Clone, Debug)]
pub struct RegisterResponse {
    pub instance_id: String,
    pub instance_jwt: String,
    pub cp_endpoint: String,
    pub client_cert_pem: String,
    pub client_key_pem: String,
    pub ca_chain_pem: String,
    pub payload_dek: Vec<u8>,
    pub payload_dek_version: u32,
}

/// A pushed config. The bundle itself passes through the agent unread.
#[derive(Clone, Debug)]
pub struct ConfigUpdate<B> {
    pub config_hash: String,
    pub bundle: Option<B>,
}

/// Replacement credentials. Empty fields replace nothing.
#[derive(Clone, Debug)]
pub struct CredentialRotation {
    pub instance_jwt: String,
    pub client_cert_pem: String,
    pub client_key_pem: String,
    pub payload_dek: Vec<u8>,
    pub payload_dek_version: u32,
}

/// What a Control Plane says. `B` is a config bundle and `Q` a quota status,
/// which the agent hands on unread.
#[derive(Clone, Debug)]
pub enum ServerKind<B, Q> {
    ConfigUpdate(ConfigUpdate<B>),
    Command { command_id: String },
    CredentialRotation(CredentialRotation),
    Quarantine { reason: String },
    DiagnosticRequest,
    LogRequest,
    QuotaStatus(Q),
}

/// A message from the Control Plane.
#[derive(Clone, Debug)]
pub struct ServerMessage<B, Q> {
    pub kind: Option<ServerKind<B, Q>>,
}

/// The wire form of an instant, to the nanosecond.
pub open spec fn exact_timestamp(t: UtcTime) -> Timestamp {
    Timestamp { seconds: t.seconds(), nanos: t.subsec_nanos() as i32 }
}

/// The wire form of an instant, to the second.
pub open spec fn whole_timestamp(t: UtcTime) -> Timestamp {
    Timestamp { seconds: t.seconds(), nanos: 0 }
}

impl Timestamp {
    /// The wire form of `t`, to the nanosecond.
    pub fn exact(t: UtcTime) -> (r: Timestamp)
        ensures
            r == exact_timestamp(t),
            r.nanos == t.subsec_nanos(),
    {
        let nanos: u32 = t.timestamp_subsec_nanos();
        Timestamp { seconds: t.timestamp(), nanos: nanos as i32 }
    }

    /// The wire form of `t`, to the second.
    pub fn whole(t: UtcTime) -> (r: Timestamp)
        ensures
            r == whole_timestamp(t),
    {
        Timestamp { seconds: t.timestamp(), nanos: 0 }
    }
}

/// A timestamp names the second of its instant; the exact one also the
/// nanoseconds past it, and the whole one none.
pub proof fn law_timestamps_name_their_instant(t: UtcTime)
    requires
        t.subsec_nanos() < 2_000_000_000,
    ensures
        exact_timestamp(t).seconds == t.seconds(),
        exact_timestamp(t).nanos == t.subsec_nanos(),
        whole_timestamp(t).seconds == t.seconds(),
        whole_timestamp(t).nanos == 0,
{
}

} // verus!
