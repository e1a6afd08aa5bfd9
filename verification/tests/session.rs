use mcpg_control_plane_client::proto::{
    AgentKind, AgentMessage, ConfigAck, ConfigUpdate, CredentialRotation, ServerKind,
    ServerMessage, Timestamp,
};
use mcpg_control_plane_client::rejection::is_credential_rejection;
use mcpg_control_plane_client::session::{
    on_message, preload, ConfigPush, HeartbeatTicker, Inbound, PushStep,
};
use mcpg_control_plane_client::time::UtcTime;
use mcpg_control_plane_client::AgentEvent;

type Message = ServerMessage<u8, bool>;

fn message(kind: ServerKind<u8, bool>) -> Message {
    ServerMessage { kind: Some(kind) }
}

fn update(hash: &str, bundle: Option<u8>) -> ConfigUpdate<u8> {
    ConfigUpdate { config_hash: hash.to_owned(), bundle }
}

fn ack(m: AgentMessage) -> ConfigAck {
    match m.kind {
        Some(AgentKind::ConfigAck(ack)) => ack,
        _ => panic!("expected ConfigAck"),
    }
}

#[test]
fn a_config_is_saved_then_applied_then_acknowledged() {
    let pushed = message(ServerKind::ConfigUpdate(update("h1", Some(9))));
    let Inbound::Config(mut push) = on_message(pushed, true) else {
        panic!("expected a config");
    };
    assert_eq!(push.hash(), "h1");
    assert_eq!(push.bundle(), Some(&9));
    assert_eq!(push.step(), PushStep::Save);
    // An answer before the save was tried is not heard.
    push.applied(Err("too early".to_owned()));
    assert_eq!(push.step(), PushStep::Save);
    push.saved();
    assert_eq!(push.step(), PushStep::Apply);
    push.applied(Ok(()));
    assert_eq!(push.step(), PushStep::Finish);
    let done = push.finish(UtcTime::new(77, 5));
    assert_eq!(done.applied_hash, Some("h1".to_owned()));
    assert!(matches!(done.event, AgentEvent::ConfigReceived { hash } if hash == "h1"));
    let ack = ack(done.ack);
    assert_eq!(ack.config_hash, "h1");
    assert_eq!(ack.applied_at, Some(Timestamp { seconds: 77, nanos: 0 }));
    assert_eq!(ack.applied_state, "active");
    assert_eq!(ack.error, "");
}

#[test]
fn a_refused_config_is_acknowledged_with_the_reason() {
    let mut push = ConfigPush::begin(update("h2", Some(9)), true);
    push.saved();
    push.applied(Err("apply rejected".to_owned()));
    let done = push.finish(UtcTime::new(77, 5));
    assert_eq!(done.applied_hash, None);
    assert!(matches!(done.event, AgentEvent::ConfigReceived { hash } if hash == "h2"));
    let ack = ack(done.ack);
    assert_eq!(ack.applied_state, "error");
    assert_eq!(ack.error, "apply rejected");
}

#[test]
fn without_an_applier_a_config_is_saved_and_acknowledged() {
    let mut push = ConfigPush::begin(update("h3", Some(9)), false);
    assert_eq!(push.step(), PushStep::Save);
    push.saved();
    assert_eq!(push.step(), PushStep::Finish);
    let done = push.finish(UtcTime::new(77, 5));
    assert_eq!(done.applied_hash, Some("h3".to_owned()));
    assert_eq!(ack(done.ack).applied_state, "active");
}

#[test]
fn without_a_bundle_a_config_is_only_acknowledged() {
    let push = ConfigPush::begin(update("", None), true);
    assert_eq!(push.bundle(), None);
    assert_eq!(push.step(), PushStep::Finish);
    let done = push.finish(UtcTime::new(77, 5));
    assert_eq!(done.applied_hash, None, "an empty hash names no config");
    assert_eq!(ack(done.ack).applied_state, "active");
}

#[test]
fn a_rotation_counts_only_with_a_token() {
    let rotation = |jwt: &str| CredentialRotation {
        instance_jwt: jwt.to_owned(),
        client_cert_pem: "cert".to_owned(),
        client_key_pem: String::new(),
        payload_dek: vec![],
        payload_dek_version: 0,
    };
    let msg = message(ServerKind::CredentialRotation(rotation("jwt-2")));
    match on_message(msg, true) {
        Inbound::Rotate(r) => {
            assert_eq!(r.instance_jwt, "jwt-2");
            assert_eq!(r.client_cert_pem, "cert");
        }
        _ => panic!("expected a rotation"),
    }
    let msg = message(ServerKind::CredentialRotation(rotation("")));
    assert!(matches!(on_message(msg, true), Inbound::Ignore));
}

#[test]
fn a_quarantine_ends_the_session_but_not_the_credentials() {
    let msg = message(ServerKind::Quarantine { reason: "instance-token".to_owned() });
    match on_message(msg, true) {
        Inbound::Quarantined(e) => {
            assert_eq!(e.text, "quarantined: instance-token");
            assert!(!is_credential_rejection(&e));
        }
        _ => panic!("expected an error"),
    }
}

#[test]
fn a_quota_status_is_handed_on() {
    let msg = message(ServerKind::QuotaStatus(true));
    assert!(matches!(on_message(msg, false), Inbound::Quota(true)));
}

#[test]
fn other_messages_ask_for_nothing() {
    let command = message(ServerKind::Command { command_id: "c".to_owned() });
    assert!(matches!(on_message(command, true), Inbound::Ignore));
    assert!(matches!(on_message(message(ServerKind::DiagnosticRequest), true), Inbound::Ignore));
    assert!(matches!(on_message(message(ServerKind::LogRequest), true), Inbound::Ignore));
    assert!(matches!(on_message(Message { kind: None }, true), Inbound::Ignore));
}

#[test]
fn heartbeats_are_numbered_from_one() {
    let mut ticker = HeartbeatTicker::new();
    for n in 1..4 {
        let msg = ticker.beat(UtcTime::new(40, 9));
        match msg.kind {
            Some(AgentKind::Heartbeat(beat)) => {
                assert_eq!(beat.seq, n);
                assert_eq!(beat.at, Some(Timestamp { seconds: 40, nanos: 0 }));
                assert_eq!(beat.health, "ok");
                assert_eq!((beat.active_connections, beat.memory_rss_bytes), (0, 0));
            }
            _ => panic!("expected Heartbeat"),
        }
        assert!(matches!(ticker.sent(), AgentEvent::HeartbeatSent { seq } if seq == n));
    }
}

#[test]
fn a_preloaded_config_is_announced() {
    let (applied, event) = preload("h".to_owned());
    assert_eq!(applied, "h");
    assert!(matches!(event, AgentEvent::ConfigReceived { hash } if hash == "h"));
}
