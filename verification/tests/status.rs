use mcpg_control_plane_client::proto::{AgentKind, Timestamp};
use mcpg_control_plane_client::status::{
    snapshot_to_message, status_step, ClusterStatusSample, PluginStatusSample, StatusSnapshot,
};
use mcpg_control_plane_client::time::UtcTime;

#[test]
fn snapshot_maps_cluster_section_onto_the_wire() {
    let snap = StatusSnapshot {
        plugins: vec![PluginStatusSample {
            id: "dev.mcpg.cluster.nats".to_owned(),
            version: "1.0.0".to_owned(),
            state: "loaded".to_owned(),
            error: String::new(),
            invocations: 0,
        }],
        warnings: vec![],
        cluster: Some(ClusterStatusSample {
            kind: "nats".to_owned(),
            backend_up: Some(true),
            peers: Some(3),
        }),
        secrets_digest: String::new(),
    };
    let msg = snapshot_to_message(snap, "hash-1".to_owned());
    let Some(AgentKind::StatusReport(r)) = msg.kind else {
        panic!("expected StatusReport");
    };
    assert_eq!(r.config_hash, "hash-1");
    assert_eq!(r.plugins.len(), 1);
    let c = r.cluster.expect("cluster section on the wire");
    assert_eq!(c.kind, "nats");
    assert_eq!(c.backend_up, Some(true));
    assert_eq!(c.peers, Some(3));
}

#[test]
fn single_node_snapshot_keeps_options_unset() {
    let snap = StatusSnapshot {
        plugins: vec![],
        warnings: vec![],
        cluster: Some(ClusterStatusSample {
            kind: "single_node".to_owned(),
            backend_up: None,
            peers: None,
        }),
        secrets_digest: String::new(),
    };
    let msg = snapshot_to_message(snap, String::new());
    let Some(AgentKind::StatusReport(r)) = msg.kind else {
        panic!("expected StatusReport");
    };
    let c = r.cluster.expect("cluster section on the wire");
    assert_eq!(c.kind, "single_node");
    assert_eq!(c.backend_up, None);
    assert_eq!(c.peers, None);
}

#[test]
fn a_tick_stamps_the_config_in_effect() {
    let snap = StatusSnapshot {
        plugins: vec![PluginStatusSample {
            id: "p".to_owned(),
            version: "2".to_owned(),
            state: "failed".to_owned(),
            error: "boom".to_owned(),
            invocations: 12,
        }],
        warnings: vec!["w1".to_owned(), "w2".to_owned()],
        cluster: None,
        secrets_digest: "d".to_owned(),
    };
    let msg = status_step(snap.clone(), &Some("h".to_owned()), UtcTime::new(5, 6));
    let Some(AgentKind::StatusReport(r)) = msg.kind else {
        panic!("expected StatusReport");
    };
    assert_eq!(r.at, Some(Timestamp { seconds: 5, nanos: 0 }));
    assert_eq!(r.config_hash, "h");
    assert_eq!(r.plugins[0].id, "p");
    assert_eq!(r.plugins[0].version, "2");
    assert_eq!(r.plugins[0].state, "failed");
    assert_eq!(r.plugins[0].error, "boom");
    assert_eq!(r.plugins[0].invocations, 12);
    assert_eq!(r.warnings, vec!["w1", "w2"]);
    assert!(r.cluster.is_none());
    assert_eq!(r.secrets_digest, "d");

    let msg = status_step(StatusSnapshot::default(), &None, UtcTime::new(5, 6));
    let Some(AgentKind::StatusReport(r)) = msg.kind else {
        panic!("expected StatusReport");
    };
    assert_eq!(r.config_hash, "");
    assert!(r.plugins.is_empty());
}
