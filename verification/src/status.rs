//! Periodic status reports: a snapshot of the host process, shipped as it is.
//! There is no buffer; a missed report is superseded by the next one.

use vstd::prelude::*;

use crate::proto::{
    whole_timestamp, AgentKind, AgentMessage, ClusterStatus, PluginStatus, StatusReport, Timestamp,
};
use crate::text::{text_of, text_or_empty, texts};
use crate::time::UtcTime;

verus! {

/// Seconds between two status reports by default.
pub const DEFAULT_STATUS_INTERVAL_SECS: u64 = 60;

/// One plugin's state as the host reports it.
#[derive(Clone, Debug)]
pub struct PluginStatusSample {
    pub id: String,
    pub version: String,
    /// The host's own word for the state, such as "loaded" or "failed".
    pub state: String,
    pub error: String,
    pub invocations: u64,
}

/// The health of the cluster coordinator as this replica sees it.
#[derive(Clone, Debug)]
pub struct ClusterStatusSample {
    pub kind: String,
    /// Unknown until the backend has been probed.
    pub backend_up: Option<bool>,
    /// Visible members, this one included, where they can be enumerated.
    pub peers: Option<u32>,
}

/// What the host says of itself for one report.
#[derive(Clone, Debug)]
pub struct StatusSnapshot {
    pub plugins: Vec<PluginStatusSample>,
    pub warnings: Vec<String>,
    pub cluster: Option<ClusterStatusSample>,
    /// Digest of the secret values that the running config was resolved with.
    pub secrets_digest: String,
}

impl Default for StatusSnapshot {
    fn default() -> (r: StatusSnapshot)
        ensures
            r.plugins@.len() == 0,
            r.warnings@.len() == 0,
            r.cluster is None,
            r.secrets_digest@.len() == 0,
    {
        StatusSnapshot {
            plugins: Vec::new(),
            warnings: Vec::new(),
            cluster: None,
            secrets_digest: String::new(),
        }
    }
}

/// `w` is the wire form of the plugin state `p`.
pub open spec fn plugin_on_wire(p: PluginStatusSample, w: PluginStatus) -> bool {
    &&& w.id@ == p.id@
    &&& w.version@ == p.version@
    &&& w.state@ == p.state@
    &&& w.error@ == p.error@
    &&& w.invocations == p.invocations
}

/// `w` is the wire form of the cluster section `c`. What is unknown stays unset.
pub open spec fn cluster_on_wire(c: Option<ClusterStatusSample>, w: Option<ClusterStatus>) -> bool {
    match (c, w) {
        (Some(c), Some(w)) => w.kind@ == c.kind@ && w.backend_up == c.backend_up && w.peers
            == c.peers,
        (None, None) => true,
        _ => false,
    }
}

/// `m` reports the snapshot of a process that runs the config `config_hash`.
pub open spec fn reports_status(
    m: AgentMessage,
    snap: StatusSnapshot,
    config_hash: Seq<char>,
    now: UtcTime,
) -> bool {
    &&& m.kind matches Some(AgentKind::StatusReport(r))
    &&& r.at == Some(whole_timestamp(now))
    &&& r.config_hash@ == config_hash
    &&& r.plugins@.len() == snap.plugins@.len()
    &&& forall|i: int|
        0 <= i < snap.plugins@.len() ==> plugin_on_wire(snap.plugins@[i], #[trigger] r.plugins@[i])
    &&& texts(r.warnings@) == texts(snap.warnings@)
    &&& cluster_on_wire(snap.cluster, r.cluster)
    &&& r.secrets_digest@ == snap.secrets_digest@
}

/// The wire form of one plugin's state.
fn to_wire(p: &PluginStatusSample) -> (r: PluginStatus)
    ensures
        plugin_on_wire(*p, r),
{
    PluginStatus {
        id: p.id.clone(),
        version: p.version.clone(),
        state: p.state.clone(),
        error: p.error.clone(),
        invocations: p.invocations,
    }
}

/// The status report of a snapshot, stamped with the instant `now`.
pub fn snapshot_to_message_at(snap: StatusSnapshot, config_hash: String, now: UtcTime) -> (r:
    AgentMessage)
    ensures
        reports_status(r, snap, config_hash@, now),
{
    let mut plugins: Vec<PluginStatus> = Vec::new();
    let mut i: usize = 0;
    while i < snap.plugins.len()
        invariant
            i <= snap.plugins@.len(),
            plugins@.len() == i,
            forall|k: int| 0 <= k < i ==> plugin_on_wire(snap.plugins@[k], #[trigger] plugins@[k]),
        decreases snap.plugins@.len() - i,
    {
        plugins.push(to_wire(&snap.plugins[i]));
        i = i + 1;
    }
    let cluster: Option<ClusterStatus> = match snap.cluster {
        Some(c) => Some(
            ClusterStatus { kind: c.kind, backend_up: c.backend_up, peers: c.peers },
        ),
        None => None,
    };
    AgentMessage {
        kind: Some(
            AgentKind::StatusReport(
                StatusReport {
                    at: Some(Timestamp::whole(now)),
                    config_hash,
                    plugins,
                    warnings: snap.warnings,
                    cluster,
                    secrets_digest: snap.secrets_digest,
                },
            ),
        ),
    }
}

/// The status report of a snapshot, stamped with the present instant.
pub fn snapshot_to_message(snap: StatusSnapshot, config_hash: String) -> (r: AgentMessage)
    ensures
        exists|now: UtcTime|
            now.has_date() && #[trigger] reports_status(r, snap, config_hash@, now),
{
    let now: UtcTime = UtcTime::now();
    snapshot_to_message_at(snap, config_hash, now)
}

/// The report of one tick: the snapshot that the host gave, stamped with the
/// hash of the config in effect, which is empty where none is known.
pub fn status_step(snap: StatusSnapshot, applied: &Option<String>, now: UtcTime) -> (r: AgentMessage)
    ensures
        reports_status(r, snap, text_or_empty(*applied), now),
{
    snapshot_to_message_at(snap, text_of(applied), now)
}

/// A plugin's state arrives whole.
pub proof fn law_plugin_state_arrives_whole(p: PluginStatusSample, w: PluginStatus)
    requires
        plugin_on_wire(p, w),
    ensures
        w.id@ == p.id@,
        w.version@ == p.version@,
        w.state@ == p.state@,
        w.error@ == p.error@,
        w.invocations == p.invocations,
{
}

/// The health of the cluster is reported exactly where the host told it, and
/// what the host does not know stays unset: it is neither up nor down, and has
/// no number of peers.
pub proof fn law_unknown_health_stays_unset(
    c: Option<ClusterStatusSample>,
    w: Option<ClusterStatus>,
)
    requires
        cluster_on_wire(c, w),
    ensures
        w is Some <==> c is Some,
        (c matches Some(told) && w matches Some(sent) && {
            &&& sent.kind@ == told.kind@
            &&& sent.backend_up == told.backend_up
            &&& sent.peers == told.peers
        }) || c is None,
{
}

/// A status report holds the whole snapshot, each plugin and each warning in its
/// place, under the hash of the config in effect.
pub proof fn law_report_holds_the_snapshot(
    m: AgentMessage,
    snap: StatusSnapshot,
    config_hash: Seq<char>,
    now: UtcTime,
)
    requires
        reports_status(m, snap, config_hash, now),
    ensures
        m.kind matches Some(AgentKind::StatusReport(r)) && {
            &&& r.config_hash@ == config_hash
            &&& r.secrets_digest@ == snap.secrets_digest@
            &&& r.at matches Some(at) && at.seconds == now.seconds() && at.nanos == 0
            &&& r.plugins@.len() == snap.plugins@.len()
            &&& forall|i: int|
                0 <= i < snap.plugins@.len() ==> {
                    &&& plugin_on_wire(snap.plugins@[i], #[trigger] r.plugins@[i])
                    &&& r.plugins@[i].id@ == snap.plugins@[i].id@
                }
            &&& r.warnings@.len() == snap.warnings@.len()
            &&& forall|i: int|
                0 <= i < snap.warnings@.len() ==> (#[trigger] r.warnings@[i])@
                    == snap.warnings@[i]@
            &&& cluster_on_wire(snap.cluster, r.cluster)
            &&& r.cluster is Some <==> snap.cluster is Some
        },
{
    if let Some(AgentKind::StatusReport(r)) = m.kind {
        assert(texts(r.warnings@).len() == r.warnings@.len());
        assert(texts(snap.warnings@).len() == snap.warnings@.len());
        assert forall|i: int| 0 <= i < snap.warnings@.len() implies (#[trigger] r.warnings@[i])@
            == snap.warnings@[i]@ by {
            assert(texts(r.warnings@)[i] == r.warnings@[i]@);
            assert(texts(snap.warnings@)[i] == snap.warnings@[i]@);
        }
    }
}

} // verus!
