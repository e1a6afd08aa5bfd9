//! Gateway-side client of a Control Plane.
//!
//! An agent reads its enrollment URL, registers, keeps the credentials that it
//! is issued, opens a long-lived channel, sends heartbeats, metrics, logs and
//! status over it, and saves and applies the configs that are pushed. This
//! library takes the decisions; the host performs them and reports back.

pub mod agent;
pub mod backoff;
pub mod bytes;
pub mod client;
pub mod config;
pub mod creds;
pub mod externals;
pub mod flush;
pub mod ledger;
pub mod lkg;
pub mod logs;
pub mod metrics;
pub mod paths;
pub mod payload_dek;
pub mod proto;
pub mod rejection;
pub mod ring;
pub mod session;
pub mod status;
pub mod text;
pub mod time;
pub mod token;

pub use agent::{AgentEvent, AgentRunnerConfig};
pub use config::ControlPlaneClientConfig;
pub use lkg::{LkgCache, LkgEntry};
pub use logs::{LogBuffer, LogLevel, LogLineSample};
pub use metrics::{MetricsBuffer, SampleOutcome, ToolCallSample};
pub use payload_dek::{DekError, DekHandle};
