use mcpg_control_plane_client::client::{
    tls_plan, ClientState, ClientTlsMaterial, TlsPlan, TOKEN_METADATA_KEY,
};

fn material(cert: &str, key: &str, name: Option<&str>) -> Option<ClientTlsMaterial> {
    Some(ClientTlsMaterial {
        ca_pem: "ca".to_owned(),
        client_cert_pem: cert.to_owned(),
        client_key_pem: key.to_owned(),
        server_name: name.map(|n| n.to_owned()),
    })
}

#[test]
fn a_plain_endpoint_is_not_secured() {
    assert!(matches!(tls_plan("http://cp", &material("c", "k", None)), TlsPlan::Plain));
    assert!(matches!(tls_plan("HTTPS://cp", &None), TlsPlan::Plain));
    assert!(matches!(tls_plan("https:/cp", &None), TlsPlan::Plain));
}

#[test]
fn an_https_endpoint_is_secured_with_what_there_is() {
    assert!(matches!(tls_plan("https://cp", &None), TlsPlan::Unpinned));
    match tls_plan("https://cp", &material("c", "k", Some("cp.local"))) {
        TlsPlan::Pinned { ca_pem, identity, domain } => {
            assert_eq!(ca_pem, "ca");
            assert_eq!(identity, Some(("c".to_owned(), "k".to_owned())));
            assert_eq!(domain, Some("cp.local".to_owned()));
        }
        other => panic!("{other:?}"),
    }
}

#[test]
fn half_an_identity_is_none() {
    for m in [material("c", "", None), material("", "k", None), material("", "", None)] {
        match tls_plan("https://cp", &m) {
            TlsPlan::Pinned { identity, domain, .. } => {
                assert_eq!(identity, None);
                assert_eq!(domain, None);
            }
            other => panic!("{other:?}"),
        }
    }
}

#[test]
fn a_connection_is_made_once_until_it_is_given_up() {
    let mut client = ClientState::new("https://cp".to_owned());
    assert_eq!(client.endpoint(), "https://cp");
    assert!(matches!(client.connect_plan(), Some(TlsPlan::Unpinned)));
    client.mark_connected();
    assert!(client.connect_plan().is_none());
    client.set_tls(material("c", "k", None));
    assert!(client.connect_plan().is_none(), "takes effect on the next connect");
    client.reset();
    assert!(matches!(client.connect_plan(), Some(TlsPlan::Pinned { .. })));
}

#[test]
fn a_call_presents_the_current_token() {
    let mut client = ClientState::new("http://cp".to_owned());
    assert_eq!(client.current_jwt(), None);
    assert_eq!(
        client.authorization(),
        Err("no instance JWT cached; call register() first".to_owned())
    );
    client.set_jwt("a".to_owned());
    client.set_jwt("b".to_owned());
    assert_eq!(client.authorization(), Ok("b".to_owned()));
    assert_eq!(client.current_jwt(), Some("b".to_owned()));
    client.reset();
    assert_eq!(client.authorization(), Ok("b".to_owned()));
    assert_eq!(TOKEN_METADATA_KEY, "mcpg-instance-token");
}

#[test]
fn certificates_are_empty_by_default() {
    let m = ClientTlsMaterial::default();
    assert_eq!((m.ca_pem, m.client_cert_pem, m.client_key_pem), Default::default());
    assert_eq!(m.server_name, None);
}
