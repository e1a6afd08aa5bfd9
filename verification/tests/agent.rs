use base64::Engine;
use mcpg_control_plane_client::agent::{
    first_step, host_info, hostname, register_request, retry_step, ConnectStep, FirstStep,
    RetryStep, RunLoop, SessionStep, CLIENT_VERSION,
};
use mcpg_control_plane_client::backoff::Backoff;
use mcpg_control_plane_client::creds::StoredCreds;
use mcpg_control_plane_client::rejection::{Cause, RpcCode, RpcStatus, SessionError};
use mcpg_control_plane_client::time::{Duration, UtcTime, MAX_NANOS};
use mcpg_control_plane_client::token::EnrollError;
use mcpg_control_plane_client::{AgentEvent, AgentRunnerConfig};

const NOW: i64 = 1_700_000_000;

fn jwt_with_exp(exp: i64) -> String {
    let b64 = |s: &str| base64::engine::general_purpose::URL_SAFE_NO_PAD.encode(s.as_bytes());
    format!("{}.{}.sig", b64("{}"), b64(&format!("{{\"exp\":{exp}}}")))
}

fn config(enrollment_url: &str) -> AgentRunnerConfig {
    let mut cfg = AgentRunnerConfig::default_for("uid");
    cfg.enrollment_url = enrollment_url.to_owned();
    cfg.backoff_initial = Duration::from_millis(4);
    cfg.backoff_max = Duration::from_millis(20);
    cfg
}

fn enrolling() -> RunLoop {
    RunLoop::new(&config("http://fake/enroll/v1#token=ENROL-abc"))
}

fn stranded() -> RunLoop {
    RunLoop::new(&config(""))
}

fn failure(code: RpcCode) -> SessionError {
    SessionError {
        text: "instance-token: ExpiredSignature".to_owned(),
        causes: vec![Cause::Status(RpcStatus {
            code,
            message: "instance-token: ExpiredSignature".to_owned(),
        })],
    }
}

#[test]
fn retry_with_backoff_recovers_after_transient_failures() {
    let mut backoff = Backoff::new(Duration::from_millis(1), Duration::from_millis(2), true);
    let mut calls = 0;
    let out = loop {
        // Fail the first two attempts, succeed on the third.
        let n = calls;
        calls += 1;
        let result = if n < 2 {
            Err(format!("transient outage {n}"))
        } else {
            Ok(format!("registered-{n}"))
        };
        assert!(backoff.can_delay());
        match retry_step(&mut backoff, result) {
            RetryStep::Done(v) => break v,
            RetryStep::Wait(delay) => {
                assert!(delay.as_nanos() >= 750_000 && delay.as_nanos() <= 2_500_000);
            }
        }
    };
    assert_eq!(out, "registered-2");
    assert_eq!(calls, 3, "failed twice then succeeded on the third attempt");
}

#[test]
fn the_default_setup_is_named_after_a_fresh_uuid() {
    let a = AgentRunnerConfig::default();
    let b = AgentRunnerConfig::default();
    assert_ne!(a.instance_uid, b.instance_uid);
    assert!(a.instance_uid.starts_with("mcpg-"));
    assert_eq!(a.instance_uid.len(), 41);
    let uuid: Vec<char> = a.instance_uid[5..].chars().collect();
    for (i, c) in uuid.iter().enumerate() {
        match i {
            8 | 13 | 18 | 23 => assert_eq!(*c, '-'),
            14 => assert_eq!(*c, '7'),
            19 => assert!(matches!(*c, '8' | '9' | 'a' | 'b')),
            _ => assert!(matches!(*c, '0'..='9' | 'a'..='f')),
        }
    }
    assert_eq!(a.cp_endpoint, "http://127.0.0.1:7844");
    assert_eq!(a.enrollment_url, "");
    assert_eq!(a.version, CLIENT_VERSION);
    assert_eq!(a.state_dir, "./agent-state");
    assert_eq!(a.heartbeat_interval, Duration::from_secs(30));
    assert_eq!(a.backoff_initial, Duration::from_secs(1));
    assert_eq!(a.backoff_max, Duration::from_secs(60));
    assert_eq!(a.bootstrap_ca_pem, None);
}

#[test]
fn a_bootstrap_ca_is_trusted_before_the_first_registration() {
    let mut cfg = config("");
    assert!(cfg.bootstrap_tls().is_none());
    cfg.bootstrap_ca_pem = Some("ca".to_owned());
    let tls = cfg.bootstrap_tls().unwrap();
    assert_eq!(tls.ca_pem, "ca");
    assert_eq!(tls.client_cert_pem, "");
    assert_eq!(tls.client_key_pem, "");
    assert_eq!(tls.server_name, None);
}

#[test]
fn an_agent_starts_with_the_credentials_it_finds() {
    assert!(matches!(first_step(None), FirstStep::Register));
    let creds = StoredCreds {
        instance_id: "cached-instance".to_owned(),
        instance_jwt: "jwt".to_owned(),
        cp_endpoint: String::new(),
        issued_at: UtcTime::new(1, 0),
        client_cert_pem: String::new(),
        client_key_pem: String::new(),
        ca_chain_pem: String::new(),
        payload_dek_b64: String::new(),
        payload_dek_version: 0,
    };
    match first_step(Some(creds)) {
        FirstStep::Resume(c) => assert_eq!(c.instance_id, "cached-instance"),
        FirstStep::Register => panic!("credentials were at hand"),
    }
}

#[test]
fn the_first_known_host_name_counts() {
    let some = |s: &str| Some(s.to_owned());
    assert_eq!(hostname(some("a"), some("b")), some("a"));
    assert_eq!(hostname(None, some("b")), some("b"));
    assert_eq!(hostname(None, None), None);
    assert_eq!(hostname(some(""), some("b")), some(""));
}

#[test]
fn a_registration_presents_the_enrollment_token() {
    let cfg = config("http://fake/enroll/v1#token=ENROL-abc");
    let req = register_request(&cfg, host_info("linux", "x86_64", None)).unwrap();
    assert_eq!(req.bootstrap_token, "ENROL-abc");
    assert_eq!(req.instance_uid, "mcpg-uid");
    assert_eq!(req.version, CLIENT_VERSION);
    assert!(req.labels.is_empty());
    assert_eq!(req.capabilities, vec!["control_plane_client"]);
    assert!(req.addressable_endpoints.is_empty());
    let host = req.host.unwrap();
    assert_eq!((host.os.as_str(), host.arch.as_str()), ("linux", "x86_64"));
    assert_eq!((host.hostname.as_str(), host.kernel_version.as_str()), ("", ""));
}

#[test]
fn a_registration_without_a_token_is_refused() {
    let host = host_info("linux", "x86_64", Some("h".to_owned()));
    assert_eq!(host.hostname, "h");
    let refused = register_request(&config(""), host.clone());
    assert!(matches!(refused, Err(EnrollError::MissingFragment)));
    let refused = register_request(&config("http://cp#nothing"), host);
    assert!(matches!(refused, Err(EnrollError::MissingToken)));
}

#[test]
fn a_token_past_its_expiry_is_replaced_before_the_connect() {
    let past = jwt_with_exp(NOW - 60);
    assert_eq!(
        enrolling().before_connect(false, Some(&past), NOW),
        ConnectStep::ReenrollAndConnect
    );
    let edge = jwt_with_exp(NOW + 300);
    assert_eq!(
        enrolling().before_connect(false, Some(&edge), NOW),
        ConnectStep::ReenrollAndConnect
    );
    let fresh = jwt_with_exp(NOW + 301);
    assert_eq!(enrolling().before_connect(false, Some(&fresh), NOW), ConnectStep::Connect);
}

#[test]
fn a_token_that_cannot_be_read_is_replaced_too() {
    assert_eq!(
        enrolling().before_connect(false, Some("garbage"), NOW),
        ConnectStep::ReenrollAndConnect
    );
    assert_eq!(enrolling().before_connect(false, None, NOW), ConnectStep::ReenrollAndConnect);
    assert_eq!(
        enrolling().before_connect_with(false, None, NOW),
        ConnectStep::ReenrollAndConnect
    );
}

#[test]
fn a_stale_token_is_presented_where_nothing_can_replace_it() {
    let past = jwt_with_exp(NOW - 60);
    assert_eq!(stranded().before_connect(false, Some(&past), NOW), ConnectStep::Connect);
}

#[test]
fn a_requested_stop_comes_before_everything() {
    assert_eq!(enrolling().before_connect(true, None, NOW), ConnectStep::Stop);
    let fresh = jwt_with_exp(NOW + 3600);
    assert_eq!(stranded().before_connect(true, Some(&fresh), NOW), ConnectStep::Stop);
}

#[test]
fn refused_credentials_are_replaced_where_they_can_be() {
    match enrolling().after_session(Err(failure(RpcCode::Unauthenticated))) {
        SessionStep::Reenroll { event: AgentEvent::ChannelDisconnected { reason }, delay } => {
            assert_eq!(reason, "instance-token: ExpiredSignature");
            assert!(delay.as_nanos() >= 3_000_000 && delay.as_nanos() <= 5_000_000);
        }
        other => panic!("{other:?}"),
    }
    match stranded().after_session(Err(failure(RpcCode::PermissionDenied))) {
        SessionStep::RetryRefused { event: AgentEvent::ChannelDisconnected { .. }, .. } => {}
        other => panic!("{other:?}"),
    }
}

#[test]
fn a_refusal_behind_another_status_is_acted_on() {
    let mut e = failure(RpcCode::Unavailable);
    e.causes.push(failure(RpcCode::Unauthenticated).causes.remove(0));
    assert!(matches!(enrolling().after_session(Err(e)), SessionStep::Reenroll { .. }));
}

#[test]
fn other_failures_are_retried_with_growing_delays() {
    let mut run = enrolling();
    let mut floor = 3_000_000u128;
    for _ in 0..3 {
        match run.after_session(Err(failure(RpcCode::Unavailable))) {
            SessionStep::Retry { event: AgentEvent::ChannelDisconnected { .. }, delay } => {
                assert!(delay.as_nanos() >= floor && delay.as_nanos() * 3 <= floor * 5);
            }
            other => panic!("{other:?}"),
        }
        floor *= 2;
    }
    assert!(matches!(run.after_session(Ok(())), SessionStep::Again));
    match run.after_session(Err(failure(RpcCode::Unavailable))) {
        SessionStep::Retry { delay, .. } => assert!(delay.as_nanos() <= 5_000_000),
        other => panic!("{other:?}"),
    }
}

#[test]
fn an_overlong_backoff_cannot_delay() {
    let mut cfg = config("");
    assert!(RunLoop::new(&cfg).can_delay());
    cfg.backoff_initial = Duration::from_nanos(MAX_NANOS);
    cfg.backoff_max = Duration::from_nanos(MAX_NANOS);
    assert!(!RunLoop::new(&cfg).can_delay());
}
