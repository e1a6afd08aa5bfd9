use mcpg_control_plane_client::agent::registered;
use mcpg_control_plane_client::creds::{
    creds_path, install_plan, installed_dek, rotated_dek, rotated_tls, StoredCreds,
};
use mcpg_control_plane_client::proto::{CredentialRotation, RegisterResponse};
use mcpg_control_plane_client::time::UtcTime;
use mcpg_control_plane_client::{AgentEvent, DekHandle};

fn key() -> Vec<u8> {
    (0u8..32).collect()
}

fn response() -> RegisterResponse {
    RegisterResponse {
        instance_id: "i-1".to_owned(),
        instance_jwt: "jwt-1".to_owned(),
        cp_endpoint: "http://cp".to_owned(),
        client_cert_pem: "cert".to_owned(),
        client_key_pem: "key".to_owned(),
        ca_chain_pem: "ca".to_owned(),
        payload_dek: key(),
        payload_dek_version: 3,
    }
}

fn rotation() -> CredentialRotation {
    CredentialRotation {
        instance_jwt: "jwt-2".to_owned(),
        client_cert_pem: String::new(),
        client_key_pem: String::new(),
        payload_dek: vec![],
        payload_dek_version: 0,
    }
}

fn creds() -> StoredCreds {
    StoredCreds::from_response(response(), UtcTime::new(10, 0))
}

#[test]
fn a_registration_is_stored_with_its_key_in_base64() {
    let c = creds();
    assert_eq!(c.instance_id, "i-1");
    assert_eq!(c.instance_jwt, "jwt-1");
    assert_eq!(c.cp_endpoint, "http://cp");
    assert_eq!(c.issued_at, UtcTime::new(10, 0));
    assert_eq!(c.client_cert_pem, "cert");
    assert_eq!(c.client_key_pem, "key");
    assert_eq!(c.ca_chain_pem, "ca");
    assert_eq!(c.payload_dek_b64, "AAECAwQFBgcICQoLDA0ODxAREhMUFRYXGBkaGxwdHh8=");
    assert_eq!(c.payload_dek_version, 3);
}

#[test]
fn a_registration_is_announced() {
    let (event, c) = registered(response(), UtcTime::new(10, 0));
    assert!(matches!(event, AgentEvent::Registered { instance_id } if instance_id == "i-1"));
    assert_eq!(c.instance_jwt, "jwt-1");
    assert_eq!(creds_path("/state"), "/state/agent-creds.json");
}

#[test]
fn a_stored_key_seals_as_the_issued_one() {
    let stored = creds().payload_dek().unwrap();
    let issued = DekHandle::from_proto(&key(), 3).unwrap().unwrap();
    assert_eq!(stored.version(), 3);
    let blob = stored.encrypt(b"payload").unwrap();
    assert_eq!(issued.decrypt_for_test(&blob).unwrap(), b"payload");
}

#[test]
fn credentials_without_a_usable_key_have_none() {
    let mut c = creds();
    c.payload_dek_b64 = String::new();
    assert!(c.payload_dek().is_none());
    c.payload_dek_b64 = "not base64!".to_owned();
    assert!(c.payload_dek().is_none());
    c.payload_dek_b64 = "AAEC".to_owned();
    assert!(c.payload_dek().is_none());
    let mut c = creds();
    c.payload_dek_version = 0;
    assert!(c.payload_dek().is_none());

    let mut resp = response();
    resp.payload_dek = vec![];
    let c = StoredCreds::from_response(resp, UtcTime::new(10, 0));
    assert_eq!(c.payload_dek_b64, "");
    assert!(c.payload_dek().is_none());
}

#[test]
fn credentials_are_installed_as_stored() {
    let plan = install_plan(&creds());
    assert_eq!(plan.jwt, "jwt-1");
    assert_eq!(plan.payload_dek.unwrap().version(), 3);
    let tls = plan.tls.unwrap();
    assert_eq!(tls.ca_pem, "ca");
    assert_eq!(tls.client_cert_pem, "cert");
    assert_eq!(tls.client_key_pem, "key");
    assert_eq!(tls.server_name, None);
}

#[test]
fn credentials_without_a_usable_key_clear_the_handle() {
    assert_eq!(installed_dek(&creds()).unwrap().version(), 3);
    for text in ["", "not base64!", "AAEC"] {
        let mut c = creds();
        c.payload_dek_b64 = text.to_owned();
        assert!(installed_dek(&c).is_none());
        assert!(install_plan(&c).payload_dek.is_none());
    }
    let mut c = creds();
    c.payload_dek_version = 0;
    assert!(installed_dek(&c).is_none());
}

#[test]
fn certificates_are_installed_only_with_a_ca() {
    let mut c = creds();
    c.ca_chain_pem = String::new();
    assert!(install_plan(&c).tls.is_none());
    let mut c = creds();
    c.client_cert_pem = String::new();
    assert!(install_plan(&c).tls.is_none());
}

#[test]
fn an_empty_rotation_replaces_only_the_token() {
    let c = creds().rotated(&rotation(), UtcTime::new(20, 0));
    assert_eq!(c.instance_jwt, "jwt-2");
    assert_eq!(c.issued_at, UtcTime::new(20, 0));
    assert_eq!(c.instance_id, "i-1");
    assert_eq!(c.cp_endpoint, "http://cp");
    assert_eq!(c.client_cert_pem, "cert");
    assert_eq!(c.client_key_pem, "key");
    assert_eq!(c.ca_chain_pem, "ca");
    assert_eq!(c.payload_dek().unwrap().version(), 3);
}

#[test]
fn a_full_rotation_replaces_certificates_and_key() {
    let mut r = rotation();
    r.client_cert_pem = "cert-2".to_owned();
    r.client_key_pem = "key-2".to_owned();
    r.payload_dek = vec![7; 32];
    r.payload_dek_version = 4;
    let c = creds().rotated(&r, UtcTime::new(20, 0));
    assert_eq!(c.client_cert_pem, "cert-2");
    assert_eq!(c.client_key_pem, "key-2");
    assert_eq!(c.ca_chain_pem, "ca");
    assert_eq!(c.payload_dek().unwrap().version(), 4);

    let in_use = rotated_dek(creds().payload_dek(), &r).unwrap();
    let blob = in_use.encrypt(b"p").unwrap();
    assert_eq!(c.payload_dek().unwrap().decrypt_for_test(&blob).unwrap(), b"p");
}

#[test]
fn a_rotation_without_a_usable_key_keeps_the_key_in_use() {
    assert_eq!(rotated_dek(creds().payload_dek(), &rotation()).unwrap().version(), 3);
    let mut r = rotation();
    r.payload_dek = vec![7; 31];
    r.payload_dek_version = 4;
    assert_eq!(rotated_dek(creds().payload_dek(), &r).unwrap().version(), 3);
    r.payload_dek = vec![7; 32];
    r.payload_dek_version = 0;
    assert_eq!(rotated_dek(creds().payload_dek(), &r).unwrap().version(), 3);
    assert!(rotated_dek(None, &r).is_none());
}

#[test]
fn a_key_of_the_wrong_length_is_stored_and_then_not_usable() {
    let mut r = rotation();
    r.payload_dek = vec![7; 31];
    r.payload_dek_version = 4;
    let c = creds().rotated(&r, UtcTime::new(20, 0));
    assert_eq!(c.payload_dek_version, 4);
    assert!(c.payload_dek().is_none());
}

#[test]
fn rotated_certificates_keep_the_stored_ca() {
    let mut r = rotation();
    assert!(rotated_tls(&r, Some(&creds())).is_none());
    r.client_cert_pem = "cert-2".to_owned();
    assert!(rotated_tls(&r, None).is_none());
    let tls = rotated_tls(&r, Some(&creds())).unwrap();
    assert_eq!(tls.ca_pem, "ca");
    assert_eq!(tls.client_cert_pem, "cert-2");
    assert_eq!(tls.client_key_pem, "");
    assert_eq!(tls.server_name, None);
}
