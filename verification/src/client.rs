//! What the agent's connection to the Control Plane is made with.

use vstd::prelude::*;

use crate::text::{begins_with, has_prefix, law_found_text_is_there};

verus! {

broadcast use vstd::string::group_string_axioms;

/// Seconds until a call is given up.
pub const CALL_TIMEOUT_SECS: u64 = 10;

/// Seconds between two keep-alive probes, and until one is given up.
pub const KEEP_ALIVE_SECS: u64 = 20;

/// The metadata key under which every call presents the instance token.
pub const TOKEN_METADATA_KEY: &'static str = "mcpg-instance-token";

/// Certificates for a mutually authenticated connection.
#[derive(Clone, Debug)]
pub struct ClientTlsMaterial {
    pub ca_pem: String,
    pub client_cert_pem: String,
    pub client_key_pem: String,
    /// The name that the server certificate must bear, if it is not the host
    /// of the endpoint.
    pub server_name: Option<String>,
}

impl Default for ClientTlsMaterial {
    fn default() -> (r: ClientTlsMaterial)
        ensures
            r.ca_pem@.len() == 0,
            r.client_cert_pem@.len() == 0,
            r.client_key_pem@.len() == 0,
            r.server_name is None,
    {
        ClientTlsMaterial {
            ca_pem: String::new(),
            client_cert_pem: String::new(),
            client_key_pem: String::new(),
            server_name: None,
        }
    }
}

/// How to secure a connection.
#[derive(Clone, Debug)]
pub enum TlsPlan {
    /// Not at all.
    Plain,
    /// With TLS, no client certificate and no trusted root of its own.
    Unpinned,
    /// With TLS that trusts one CA, and presents a client certificate and
    /// expects a server name where they are given.
    Pinned { ca_pem: String, identity: Option<(String, String)>, domain: Option<String> },
}

/// An endpoint that is reached over TLS.
pub open spec fn is_https(endpoint: Seq<char>) -> bool {
    begins_with(endpoint, "https://"@)
}

/// `plan` is how a connection to `endpoint` is secured with `tls`. The client
/// certificate is presented only where both it and its key are known.
pub open spec fn secures(
    plan: TlsPlan,
    endpoint: Seq<char>,
    tls: Option<ClientTlsMaterial>,
) -> bool {
    if !is_https(endpoint) {
        plan is Plain
    } else {
        match tls {
            None => plan is Unpinned,
            Some(m) => {
                &&& plan matches TlsPlan::Pinned { ca_pem, identity, domain }
                &&& ca_pem@ == m.ca_pem@
                &&& match identity {
                    Some(pair) => m.client_cert_pem@.len() > 0 && m.client_key_pem@.len() > 0
                        && pair.0@ == m.client_cert_pem@ && pair.1@ == m.client_key_pem@,
                    None => m.client_cert_pem@.len() == 0 || m.client_key_pem@.len() == 0,
                }
                &&& match (domain, m.server_name) {
                    (Some(d), Some(name)) => d@ == name@,
                    (None, None) => true,
                    _ => false,
                }
            },
        }
    }
}

/// How to secure a connection to `endpoint`.
pub fn tls_plan(endpoint: &str, tls: &Option<ClientTlsMaterial>) -> (r: TlsPlan)
    ensures
        secures(r, endpoint@, *tls),
{
    if !has_prefix(endpoint, "https://") {
        return TlsPlan::Plain;
    }
    match tls {
        None => TlsPlan::Unpinned,
        Some(m) => {
            let identity: Option<(String, String)> = if !m.client_cert_pem.as_str().is_empty()
                && !m.client_key_pem.as_str().is_empty() {
                Some((m.client_cert_pem.clone(), m.client_key_pem.clone()))
            } else {
                None
            };
            let domain: Option<String> = match &m.server_name {
                Some(name) => Some(name.clone()),
                None => None,
            };
            TlsPlan::Pinned { ca_pem: m.ca_pem.clone(), identity, domain }
        },
    }
}

/// What the client knows besides the connection itself.
pub struct ClientState {
    endpoint: String,
    jwt: Option<String>,
    tls: Option<ClientTlsMaterial>,
    connected: bool,
}

impl ClientState {
    /// Where the Control Plane is.
    pub closed spec fn spec_endpoint(self) -> Seq<char> {
        self.endpoint@
    }

    /// The token that calls present.
    pub closed spec fn jwt(self) -> Option<String> {
        self.jwt
    }

    /// The certificates for the next connection.
    pub closed spec fn tls(self) -> Option<ClientTlsMaterial> {
        self.tls
    }

    /// Whether there is a connection.
    pub closed spec fn connected(self) -> bool {
        self.connected
    }

    /// A client that is not connected and has nothing to present.
    pub fn new(endpoint: String) -> (r: ClientState)
        ensures
            r.spec_endpoint() == endpoint@,
            r.jwt() is None,
            r.tls() is None,
            !r.connected(),
    {
        ClientState { endpoint, jwt: None, tls: None, connected: false }
    }

    /// Where the Control Plane is.
    pub fn endpoint(&self) -> (r: &str)
        ensures
            r@ == self.spec_endpoint(),
    {
        self.endpoint.as_str()
    }

    /// Sets the certificates for the next connection. A connection that exists
    /// is not touched.
    pub fn set_tls(&mut self, material: Option<ClientTlsMaterial>)
        ensures
            final(self).tls() == material,
            final(self).spec_endpoint() == old(self).spec_endpoint(),
            final(self).jwt() == old(self).jwt(),
            final(self).connected() == old(self).connected(),
    {
        self.tls = material;
    }

    /// Replaces the token that calls present.
    pub fn set_jwt(&mut self, token: String)
        ensures
            final(self).jwt() == Some(token),
            final(self).spec_endpoint() == old(self).spec_endpoint(),
            final(self).tls() == old(self).tls(),
            final(self).connected() == old(self).connected(),
    {
        self.jwt = Some(token);
    }

    /// The token that calls present.
    pub fn current_jwt(&self) -> (r: Option<String>)
        ensures
            r == self.jwt(),
    {
        match &self.jwt {
            Some(token) => Some(token.clone()),
            None => None,
        }
    }

    /// How to secure the connection that has to be made, if one has to.
    pub fn connect_plan(&self) -> (r: Option<TlsPlan>)
        ensures
            r is None <==> self.connected(),
            r matches Some(plan) ==> secures(plan, self.spec_endpoint(), self.tls()),
    {
        if self.connected {
            None
        } else {
            Some(tls_plan(self.endpoint.as_str(), &self.tls))
        }
    }

    /// Notes that the connection was made.
    pub fn mark_connected(&mut self)
        ensures
            final(self).connected(),
            final(self).spec_endpoint() == old(self).spec_endpoint(),
            final(self).jwt() == old(self).jwt(),
            final(self).tls() == old(self).tls(),
    {
        self.connected = true;
    }

    /// Gives the connection up, so that the next call makes a new one.
    pub fn reset(&mut self)
        ensures
            !final(self).connected(),
            final(self).spec_endpoint() == old(self).spec_endpoint(),
            final(self).jwt() == old(self).jwt(),
            final(self).tls() == old(self).tls(),
    {
        self.connected = false;
    }

    /// The token for an authenticated call, or the reason why there is none.
    pub fn authorization(&self) -> (r: Result<String, String>)
        ensures
            match r {
                Ok(token) => self.jwt() == Some(token),
                Err(e) => self.jwt() is None && e@
                    == "no instance JWT cached; call register() first"@,
            },
    {
        match &self.jwt {
            Some(token) => Ok(token.clone()),
            None => Err("no instance JWT cached; call register() first".to_owned()),
        }
    }
}

/// A client key is never used on a connection that is not TLS.
pub proof fn law_no_identity_without_tls(
    plan: TlsPlan,
    endpoint: Seq<char>,
    tls: Option<ClientTlsMaterial>,
)
    requires
        secures(plan, endpoint, tls),
        plan is Pinned,
    ensures
        is_https(endpoint),
        tls is Some,
{
}

/// An endpoint is reached over TLS exactly if it begins with the scheme
/// `https://`, in lower case.
pub proof fn law_scheme_decides_on_tls(endpoint: Seq<char>, host: Seq<char>)
    ensures
        is_https("https://"@ + host),
        is_https(endpoint) <==> endpoint.len() >= 8 && endpoint.take(8) == "https://"@,
{
    reveal_strlit("https://");
    law_found_text_is_there(endpoint, Seq::empty(), "https://"@, host);
    if endpoint.len() >= 8 && endpoint.take(8) == "https://"@ {
        assert("https://"@ + endpoint.skip(8) =~= endpoint);
    }
    if is_https(endpoint) {
        assert(endpoint.subrange(0, 8) =~= endpoint.take(8));
    }
}

/// Over `https`, with both a certificate and its key at hand, the plan presents
/// exactly that pair and trusts exactly the CA at hand, whatever the server name.
pub proof fn law_identity_at_hand_is_presented(plan: TlsPlan, host: Seq<char>, m: ClientTlsMaterial)
    requires
        secures(plan, "https://"@ + host, Some(m)),
        m.client_cert_pem@.len() > 0,
        m.client_key_pem@.len() > 0,
    ensures
        plan matches TlsPlan::Pinned { ca_pem, identity, domain } && {
            &&& ca_pem@ == m.ca_pem@
            &&& identity matches Some(pair) && pair.0@ == m.client_cert_pem@ && pair.1@
                == m.client_key_pem@
        },
{
    law_scheme_decides_on_tls("https://"@ + host, host);
}

/// Over `https`, half an identity is not presented, but the CA at hand is still
/// the one to trust.
pub proof fn law_half_an_identity_is_not_presented(
    plan: TlsPlan,
    host: Seq<char>,
    m: ClientTlsMaterial,
)
    requires
        secures(plan, "https://"@ + host, Some(m)),
        m.client_cert_pem@.len() == 0 || m.client_key_pem@.len() == 0,
    ensures
        plan matches TlsPlan::Pinned { ca_pem, identity, domain } && ca_pem@ == m.ca_pem@
            && identity is None,
{
    law_scheme_decides_on_tls("https://"@ + host, host);
}

/// Over `https` the server must bear the name at hand, if there is one, and
/// otherwise that of the host; whatever else is at hand.
pub proof fn law_server_name_is_expected(plan: TlsPlan, host: Seq<char>, m: ClientTlsMaterial)
    requires
        secures(plan, "https://"@ + host, Some(m)),
    ensures
        plan matches TlsPlan::Pinned { ca_pem, identity, domain } && {
            &&& domain is Some <==> m.server_name is Some
            &&& domain matches Some(d) ==> d@ == m.server_name->0@
        },
{
    law_scheme_decides_on_tls("https://"@ + host, host);
}

/// Every `https` endpoint is secured, with or without certificates at hand, and
/// no other endpoint is.
pub proof fn law_https_alone_is_secured(
    plan: TlsPlan,
    endpoint: Seq<char>,
    tls: Option<ClientTlsMaterial>,
)
    requires
        secures(plan, endpoint, tls),
    ensures
        plan is Plain <==> !(endpoint.len() >= 8 && endpoint.take(8) == "https://"@),
        plan !is Plain ==> (plan is Unpinned <==> tls is None),
{
    law_scheme_decides_on_tls(endpoint, Seq::empty());
}

} // verus!
