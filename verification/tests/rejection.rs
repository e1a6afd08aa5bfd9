use mcpg_control_plane_client::rejection::{
    is_credential_rejection, Cause, RpcCode, RpcStatus, SessionError,
};

fn status(code: RpcCode, message: &str) -> Cause {
    Cause::Status(RpcStatus { code, message: message.to_owned() })
}

fn rejected(code: RpcCode, message: &str) -> bool {
    is_credential_rejection(&SessionError {
        text: message.to_owned(),
        causes: vec![status(code, message)],
    })
}

#[test]
fn credential_rejection_is_unauthenticated_or_a_named_permission_denied() {
    // The verdict on a stale token.
    assert!(rejected(RpcCode::Unauthenticated, "instance-token: ExpiredSignature"));
    assert!(rejected(RpcCode::Unauthenticated, "missing instance-token"));
    // PermissionDenied counts only when it names the instance token.
    assert!(rejected(
        RpcCode::PermissionDenied,
        "Instance-Token revoked for this instance"
    ));
    assert!(rejected(RpcCode::PermissionDenied, "instance token no longer accepted"));
    assert!(!rejected(
        RpcCode::PermissionDenied,
        "peer cert SPIFFE URI spiffe://a does not match JWT identity spiffe://b"
    ));
    // Transport and server trouble is retried with the same credentials.
    assert!(!rejected(RpcCode::Unavailable, "connection reset"));
    assert!(!rejected(RpcCode::Internal, "db down"));
    assert!(!rejected(RpcCode::Cancelled, "stream closed"));

    // A status wrapped in context is still found; a plain error is not.
    let wrapped = SessionError {
        text: "opening Channel".to_owned(),
        causes: vec![Cause::Other, status(RpcCode::Unauthenticated, "instance-token: x")],
    };
    assert!(is_credential_rejection(&wrapped));
    let plain = SessionError {
        text: "no instance JWT cached; call register() first".to_owned(),
        causes: vec![Cause::Other],
    };
    assert!(!is_credential_rejection(&plain));
}

#[test]
fn a_refusal_anywhere_in_the_chain_counts() {
    let deep = SessionError {
        text: String::new(),
        causes: vec![
            status(RpcCode::Unavailable, "instance-token"),
            status(RpcCode::Unauthenticated, "instance-token"),
        ],
    };
    assert!(is_credential_rejection(&deep));
    let harmless = SessionError {
        text: String::new(),
        causes: vec![
            status(RpcCode::Unavailable, "instance-token"),
            Cause::Other,
            status(RpcCode::PermissionDenied, "quota"),
        ],
    };
    assert!(!is_credential_rejection(&harmless));
    assert!(!is_credential_rejection(&SessionError { text: String::new(), causes: vec![] }));
}

#[test]
fn a_named_token_is_found_in_any_capitals() {
    assert!(rejected(RpcCode::PermissionDenied, "the INSTANCE TOKEN is void"));
    assert!(!rejected(RpcCode::PermissionDenied, "instance_token"));
    assert!(!rejected(RpcCode::PermissionDenied, ""));
}
