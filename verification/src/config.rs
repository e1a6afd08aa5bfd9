//! The client's configuration.

use vstd::prelude::*;
use vstd::string::StringExecFns;

use crate::text::{decimal, decimal_text};
use crate::time::{Duration, NANOS_PER_SEC};
use crate::token::whole_seconds;

verus! {

broadcast use vstd::string::group_string_axioms;

/// Where the Control Plane is and how to reach it.
#[derive(Clone, Debug)]
pub struct ControlPlaneClientConfig {
    /// Where to dial the Control Plane.
    pub endpoint: String,
    /// How to obtain the enrollment URL on first boot.
    pub enrollment: EnrollmentSource,
    /// Where the instance keeps its state.
    pub state_dir: String,
    /// The time between heartbeats.
    pub heartbeat: Duration,
    /// The delays between reconnects.
    pub backoff: Backoff,
}

/// Where the enrollment URL is found.
#[derive(Clone, Debug)]
pub enum EnrollmentSource {
    /// In an environment variable.
    Env { name: String },
    /// In a file.
    File { path: String },
    /// Here.
    Inline { url: String },
}

/// The delays between reconnects.
#[derive(Clone, Debug)]
pub struct Backoff {
    pub initial: Duration,
    pub max: Duration,
    pub jitter: bool,
}

impl Default for Backoff {
    fn default() -> (r: Backoff)
        ensures
            r.initial.nanos() == 1 * NANOS_PER_SEC,
            r.max.nanos() == 60 * NANOS_PER_SEC,
            r.jitter,
    {
        Backoff {
            initial: default_backoff_initial(),
            max: default_backoff_max(),
            jitter: default_backoff_jitter(),
        }
    }
}

/// Where the instance keeps its state by default.
pub fn default_state_dir() -> (r: String)
    ensures
        r@ == "/var/lib/mcpg/cp-client"@,
{
    "/var/lib/mcpg/cp-client".to_owned()
}

/// The time between heartbeats by default.
pub fn default_heartbeat() -> (r: Duration)
    ensures
        r.nanos() == 30 * NANOS_PER_SEC,
{
    Duration::from_secs(30)
}

/// The first reconnect delay by default.
pub fn default_backoff_initial() -> (r: Duration)
    ensures
        r.nanos() == 1 * NANOS_PER_SEC,
{
    Duration::from_secs(1)
}

/// The longest reconnect delay by default.
pub fn default_backoff_max() -> (r: Duration)
    ensures
        r.nanos() == 60 * NANOS_PER_SEC,
{
    Duration::from_secs(60)
}

/// Whether reconnect delays are spread by default.
pub fn default_backoff_jitter() -> (r: bool)
    ensures
        r,
{
    true
}

/// A span as the configuration writes it: its whole seconds, and the unit.
pub fn interval_text(d: &Duration) -> (r: String)
    ensures
        r@ == decimal(whole_seconds(*d)) + "s"@,
{
    decimal_text(d.as_secs()).concat("s")
}

} // verus!
