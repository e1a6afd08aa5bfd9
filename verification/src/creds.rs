//! The credentials that an agent keeps: how they are issued, rotated, stored
//! and put to use.

use vstd::prelude::*;

use crate::client::ClientTlsMaterial;
use crate::externals::{base64_decode, base64_decoded, base64_encode, base64_encoded, AEAD_KEY_LEN};
use crate::paths::{file_in, join};
use crate::payload_dek::DekHandle;
use crate::proto::{CredentialRotation, RegisterResponse};
use crate::time::UtcTime;

verus! {

broadcast use vstd::string::group_string_axioms;

/// The credentials as they lie on disk.
#[derive(Clone, Debug)]
pub struct StoredCreds {
    pub instance_id: String,
    pub instance_jwt: String,
    pub cp_endpoint: String,
    /// When the token was issued.
    pub issued_at: UtcTime,
    /// Client certificate and key; empty where none was issued.
    pub client_cert_pem: String,
    pub client_key_pem: String,
    /// The CA that the server certificate is checked against; empty without TLS.
    pub ca_chain_pem: String,
    /// The payload key in base64; empty where none was issued.
    pub payload_dek_b64: String,
    /// The version of the payload key; zero where none was issued.
    pub payload_dek_version: u32,
}

/// The path of the credentials file in a state directory.
pub fn creds_path(state_dir: &str) -> (r: String)
    ensures
        r@ == file_in(state_dir@, "agent-creds.json"@),
{
    join(state_dir, "agent-creds.json")
}

/// The payload key and version that some issued bytes make, if they make one.
pub open spec fn issued_dek(raw: Seq<u8>, version: u32) -> Option<(Seq<u8>, u32)> {
    if raw.len() == AEAD_KEY_LEN && version != 0 {
        Some((raw, version))
    } else {
        None
    }
}

/// The key that seals payloads after a rotation, where `before` did so until
/// then: a usable key replaces it, and anything else leaves it in place.
pub open spec fn dek_in_use(
    before: Option<(Seq<u8>, u32)>,
    raw: Seq<u8>,
    version: u32,
) -> Option<(Seq<u8>, u32)> {
    if issued_dek(raw, version) is Some {
        issued_dek(raw, version)
    } else {
        before
    }
}

/// The key that the credentials on disk hold after a rotation, where they held
/// `before` until then.
pub open spec fn dek_on_disk(
    before: Option<(Seq<u8>, u32)>,
    raw: Seq<u8>,
    version: u32,
) -> Option<(Seq<u8>, u32)> {
    if raw.len() > 0 && version != 0 {
        issued_dek(raw, version)
    } else {
        before
    }
}

/// The key and version of a handle.
pub open spec fn dek_of(h: Option<DekHandle>) -> Option<(Seq<u8>, u32)> {
    match h {
        Some(h) => Some((h.key(), h.key_version())),
        None => None,
    }
}

impl StoredCreds {
    /// The payload key that the credentials hold, if they hold a usable one.
    pub open spec fn stored_dek(self) -> Option<(Seq<u8>, u32)> {
        if self.payload_dek_b64@.len() == 0 {
            None
        } else {
            match base64_decoded(self.payload_dek_b64@) {
                Some(raw) => issued_dek(raw, self.payload_dek_version),
                None => None,
            }
        }
    }

    /// The credentials are those of a registration, issued at the instant `now`.
    pub open spec fn issued_by(self, resp: RegisterResponse, now: UtcTime) -> bool {
        &&& self.instance_id@ == resp.instance_id@
        &&& self.instance_jwt@ == resp.instance_jwt@
        &&& self.cp_endpoint@ == resp.cp_endpoint@
        &&& self.issued_at == now
        &&& self.client_cert_pem@ == resp.client_cert_pem@
        &&& self.client_key_pem@ == resp.client_key_pem@
        &&& self.ca_chain_pem@ == resp.ca_chain_pem@
        &&& self.payload_dek_b64@ == if resp.payload_dek@.len() == 0 {
            Seq::empty()
        } else {
            base64_encoded(resp.payload_dek@)
        }
        &&& self.payload_dek_version == resp.payload_dek_version
    }

    /// The credentials that a registration issues, at the instant `now`. The
    /// payload key can be read back from them.
    pub fn from_response(resp: RegisterResponse, now: UtcTime) -> (r: StoredCreds)
        ensures
            r.issued_by(resp, now),
            r.stored_dek() == issued_dek(resp.payload_dek@, resp.payload_dek_version),
    {
        let payload_dek_b64: String = if resp.payload_dek.len() == 0 {
            String::new()
        } else {
            base64_encode(resp.payload_dek.as_slice())
        };
        StoredCreds {
            instance_id: resp.instance_id,
            instance_jwt: resp.instance_jwt,
            cp_endpoint: resp.cp_endpoint,
            issued_at: now,
            client_cert_pem: resp.client_cert_pem,
            client_key_pem: resp.client_key_pem,
            ca_chain_pem: resp.ca_chain_pem,
            payload_dek_b64,
            payload_dek_version: resp.payload_dek_version,
        }
    }

    /// The payload key that the credentials hold. Where there is none, or none
    /// that can be used, payloads stay in plaintext.
    pub fn payload_dek(&self) -> (r: Option<DekHandle>)
        ensures
            dek_of(r) == self.stored_dek(),
    {
        if self.payload_dek_b64.as_str().is_empty() {
            return None;
        }
        match base64_decode(self.payload_dek_b64.as_str()) {
            Some(raw) => match DekHandle::from_proto(raw.as_slice(), self.payload_dek_version) {
                Ok(handle) => handle,
                Err(_) => None,
            },
            None => None,
        }
    }

    /// The certificates that the credentials hold, if they hold both the
    /// client's and the CA's.
    pub fn tls(&self) -> (r: Option<ClientTlsMaterial>)
        ensures
            r is Some <==> self.client_cert_pem@.len() > 0 && self.ca_chain_pem@.len() > 0,
            r matches Some(m) ==> {
                &&& m.ca_pem@ == self.ca_chain_pem@
                &&& m.client_cert_pem@ == self.client_cert_pem@
                &&& m.client_key_pem@ == self.client_key_pem@
                &&& m.server_name is None
            },
    {
        if !self.client_cert_pem.as_str().is_empty() && !self.ca_chain_pem.as_str().is_empty() {
            Some(
                ClientTlsMaterial {
                    ca_pem: self.ca_chain_pem.clone(),
                    client_cert_pem: self.client_cert_pem.clone(),
                    client_key_pem: self.client_key_pem.clone(),
                    server_name: None,
                },
            )
        } else {
            None
        }
    }

    /// The credentials once a rotation has been stored in them, at the instant
    /// `now`. What the rotation leaves empty stays as it is; so do identity,
    /// endpoint and CA.
    pub fn rotated(self, rotation: &CredentialRotation, now: UtcTime) -> (r: StoredCreds)
        ensures
            r.instance_id@ == self.instance_id@,
            r.instance_jwt@ == rotation.instance_jwt@,
            r.cp_endpoint@ == self.cp_endpoint@,
            r.issued_at == now,
            r.client_cert_pem@ == if rotation.client_cert_pem@.len() > 0 {
                rotation.client_cert_pem@
            } else {
                self.client_cert_pem@
            },
            r.client_key_pem@ == if rotation.client_key_pem@.len() > 0 {
                rotation.client_key_pem@
            } else {
                self.client_key_pem@
            },
            r.ca_chain_pem@ == self.ca_chain_pem@,
            rotation.payload_dek@.len() > 0 && rotation.payload_dek_version != 0 ==> {
                &&& r.payload_dek_b64@ == base64_encoded(rotation.payload_dek@)
                &&& r.payload_dek_version == rotation.payload_dek_version
            },
            !(rotation.payload_dek@.len() > 0 && rotation.payload_dek_version != 0) ==> {
                &&& r.payload_dek_b64@ == self.payload_dek_b64@
                &&& r.payload_dek_version == self.payload_dek_version
            },
            r.stored_dek() == dek_on_disk(
                self.stored_dek(),
                rotation.payload_dek@,
                rotation.payload_dek_version,
            ),
    {
        let mut creds: StoredCreds = self;
        creds.instance_jwt = rotation.instance_jwt.clone();
        creds.issued_at = now;
        if !rotation.client_cert_pem.as_str().is_empty() {
            creds.client_cert_pem = rotation.client_cert_pem.clone();
        }
        if !rotation.client_key_pem.as_str().is_empty() {
            creds.client_key_pem = rotation.client_key_pem.clone();
        }
        if rotation.payload_dek.len() > 0 && rotation.payload_dek_version != 0 {
            creds.payload_dek_b64 = base64_encode(rotation.payload_dek.as_slice());
            creds.payload_dek_version = rotation.payload_dek_version;
        }
        creds
    }
}

/// How credentials are put to use.
pub struct InstallPlan {
    /// The token to present from now on.
    pub jwt: String,
    /// The payload key to seal with from now on. Without one, payloads stay in
    /// plaintext, whatever key was in use before.
    pub payload_dek: Option<DekHandle>,
    /// The certificates for the next connection, which then has to be made
    /// anew. Without them the connection stays.
    pub tls: Option<ClientTlsMaterial>,
}

/// What the payload key handle holds once `creds` are installed: the key that
/// they store. Credentials whose key is empty or cannot be used leave the handle
/// at `None`, so that payloads are captured in plaintext.
pub fn installed_dek(creds: &StoredCreds) -> (r: Option<DekHandle>)
    ensures
        dek_of(r) == creds.stored_dek(),
{
    creds.payload_dek()
}

/// How to put `creds` to use.
pub fn install_plan(creds: &StoredCreds) -> (r: InstallPlan)
    ensures
        r.jwt@ == creds.instance_jwt@,
        dek_of(r.payload_dek) == creds.stored_dek(),
        r.tls is Some <==> creds.client_cert_pem@.len() > 0 && creds.ca_chain_pem@.len() > 0,
        r.tls matches Some(m) ==> {
            &&& m.ca_pem@ == creds.ca_chain_pem@
            &&& m.client_cert_pem@ == creds.client_cert_pem@
            &&& m.client_key_pem@ == creds.client_key_pem@
            &&& m.server_name is None
        },
{
    InstallPlan {
        jwt: creds.instance_jwt.clone(),
        payload_dek: installed_dek(creds),
        tls: creds.tls(),
    }
}

/// The payload key to use after a rotation, where `current` was used until then.
pub fn rotated_dek(current: Option<DekHandle>, rotation: &CredentialRotation) -> (r: Option<
    DekHandle,
>)
    ensures
        dek_of(r) == dek_in_use(
            dek_of(current),
            rotation.payload_dek@,
            rotation.payload_dek_version,
        ),
{
    match DekHandle::from_proto(rotation.payload_dek.as_slice(), rotation.payload_dek_version) {
        Ok(Some(handle)) => Some(handle),
        _ => current,
    }
}

/// The certificates to use after a rotation, if it brings a client
/// certificate. The CA does not change; it is read back from `stored`, the
/// credentials on disk, and without them the certificates in use stay.
pub fn rotated_tls(rotation: &CredentialRotation, stored: Option<&StoredCreds>) -> (r: Option<
    ClientTlsMaterial,
>)
    ensures
        r is Some <==> rotation.client_cert_pem@.len() > 0 && stored is Some,
        r matches Some(m) ==> {
            &&& m.ca_pem@ == stored->0.ca_chain_pem@
            &&& m.client_cert_pem@ == rotation.client_cert_pem@
            &&& m.client_key_pem@ == rotation.client_key_pem@
            &&& m.server_name is None
        },
{
    if rotation.client_cert_pem.as_str().is_empty() {
        return None;
    }
    match stored {
        Some(creds) => Some(
            ClientTlsMaterial {
                ca_pem: creds.ca_chain_pem.clone(),
                client_cert_pem: rotation.client_cert_pem.clone(),
                client_key_pem: rotation.client_key_pem.clone(),
                server_name: None,
            },
        ),
        None => None,
    }
}

/// A restart after a rotation takes up the payload key that was in use before
/// it, unless the rotation brought a key of a wrong length.
pub proof fn law_rotated_key_survives_restart(
    before: Option<(Seq<u8>, u32)>,
    raw: Seq<u8>,
    version: u32,
)
    requires
        raw.len() == 0 || raw.len() == AEAD_KEY_LEN || version == 0,
    ensures
        dek_on_disk(before, raw, version) == dek_in_use(before, raw, version),
{
}

/// A rotation without a usable payload key does not take away the key in use.
pub proof fn law_rotation_keeps_key_in_use(
    before: Option<(Seq<u8>, u32)>,
    raw: Seq<u8>,
    version: u32,
)
    ensures
        before is Some ==> dek_in_use(before, raw, version) is Some,
        raw.len() == 0 ==> dek_in_use(before, raw, version) == before,
{
}

/// Issued bytes make a key exactly if there are 32 of them and the version is
/// not zero, and then they make it as they are.
pub proof fn law_key_has_its_length_and_version(raw: Seq<u8>, version: u32)
    ensures
        issued_dek(raw, version) is Some <==> raw.len() == 32 && version != 0,
        issued_dek(raw, version) matches Some(dek) ==> dek.0 == raw && dek.1 == version,
{
}

/// A rotation that brings a usable key puts that key into use, at once and after
/// a restart, whatever was in use before; two rotations leave the later key.
pub proof fn law_rotated_key_is_used(
    before: Option<(Seq<u8>, u32)>,
    raw: Seq<u8>,
    version: u32,
    later: Seq<u8>,
    later_version: u32,
)
    requires
        raw.len() == 32,
        version != 0,
        later.len() == 32,
        later_version != 0,
    ensures
        dek_in_use(before, raw, version) == Some((raw, version)),
        dek_on_disk(before, raw, version) == Some((raw, version)),
        dek_in_use(dek_in_use(before, raw, version), later, later_version) == Some(
            (later, later_version),
        ),
{
}

/// A rotation that brings no usable key leaves the key in use as it is, and one
/// that brings no bytes or no version leaves the stored one as it is.
pub proof fn law_unusable_key_replaces_nothing(
    before: Option<(Seq<u8>, u32)>,
    raw: Seq<u8>,
    version: u32,
)
    ensures
        raw.len() != 32 || version == 0 ==> dek_in_use(before, raw, version) == before,
        raw.len() == 0 || version == 0 ==> dek_on_disk(before, raw, version) == before,
{
}

/// A handle stands for its own key and version, and no handle for none.
pub proof fn law_handle_stands_for_its_key(h: DekHandle)
    ensures
        dek_of(Some(h)) == Some((h.key(), h.key_version())),
        dek_of(None) is None,
{
}

/// Stored credentials hold the key that their base64 text encodes, under their
/// version, if it is a usable one; and none where the text is empty or no base64.
pub proof fn law_stored_key_is_what_was_encoded(creds: StoredCreds, raw: Seq<u8>)
    ensures
        creds.payload_dek_b64@.len() == 0 ==> creds.stored_dek() is None,
        base64_decoded(creds.payload_dek_b64@) is None ==> creds.stored_dek() is None,
        creds.payload_dek_b64@.len() > 0 && base64_decoded(creds.payload_dek_b64@) == Some(raw)
            ==> {
            &&& raw.len() == 32 && creds.payload_dek_version != 0 ==> creds.stored_dek() == Some(
                (raw, creds.payload_dek_version),
            )
            &&& raw.len() != 32 || creds.payload_dek_version == 0 ==> creds.stored_dek() is None
        },
{
}

/// Issued credentials are stored as they were issued: identity, token, endpoint,
/// certificates and key version, and the key in base64.
pub proof fn law_issued_credentials_are_stored_whole(
    creds: StoredCreds,
    resp: RegisterResponse,
    now: UtcTime,
)
    requires
        creds.issued_by(resp, now),
    ensures
        creds.instance_id@ == resp.instance_id@,
        creds.instance_jwt@ == resp.instance_jwt@,
        creds.cp_endpoint@ == resp.cp_endpoint@,
        creds.client_cert_pem@ == resp.client_cert_pem@,
        creds.client_key_pem@ == resp.client_key_pem@,
        creds.ca_chain_pem@ == resp.ca_chain_pem@,
        creds.issued_at == now,
        creds.payload_dek_version == resp.payload_dek_version,
        resp.payload_dek@.len() > 0 ==> creds.payload_dek_b64@ == base64_encoded(
            resp.payload_dek@,
        ),
        resp.payload_dek@.len() == 0 ==> creds.payload_dek_b64@.len() == 0,
{
}

} // verus!
