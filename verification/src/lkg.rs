//! The last-known-good config cache. A pushed bundle is written to disk before
//! it is applied and preloaded at boot, so that the gateway can serve through
//! an outage of the Control Plane.
//!
//! On disk the bundle is sealed with AES-256-GCM under a key that HKDF-SHA256
//! derives from a secret of the node. The file is a version byte, a nonce of
//! 12 bytes, and the ciphertext with its tag.

use vstd::prelude::*;
use vstd::string::{StrSliceExecFns, StringExecFns};
use vstd::utf8::encode_utf8;

use crate::bytes::{differs_around_ciphertext, joined, lemma_differs_around_ciphertext};
use crate::externals::{
    aead_open, aead_seal, aes256gcm_opened, aes256gcm_sealed, base64_decode, base64_decoded,
    base64_encode, base64_encoded, hkdf_sha256, hkdf_sha256_output, random_bytes, AEAD_KEY_LEN,
    AEAD_MAX_LEN, AEAD_NONCE_LEN, AEAD_TAG_LEN,
};
use crate::paths::{
    anchor, file_in, is_tidy, join, law_parent_of_file_is_its_directory, parent, parent_of, tidied,
};
use crate::text::{
    decimal, decimal_text, is_core, law_trimming_takes_white_space_alone, trim, trimmed, white_space,
};
use crate::time::UtcTime;

verus! {

broadcast use vstd::string::group_string_axioms;

/// The first byte of every cache file.
pub const FILE_VERSION: u8 = 1;

/// Bytes before the ciphertext: the version and the nonce.
pub const HEADER_LEN: usize = 13;

/// Where a node keeps its machine id.
pub const MACHINE_ID_PATH: &'static str = "/etc/machine-id";

/// Bytes in a node secret that the agent makes for itself.
pub const NODE_SECRET_LEN: usize = 32;

/// What the cache holds.
#[derive(Clone, Debug)]
pub struct LkgEntry {
    pub config_hash: String,
    /// The encoded config bundle.
    pub bundle_proto: Vec<u8>,
    pub written_at: UtcTime,
}

/// Where the cache is.
pub struct LkgCache {
    path: String,
    state_dir: String,
}

/// Why a cache file could not be sealed or opened.
#[derive(Debug)]
pub enum LkgError {
    Empty,
    UnsupportedVersion(u8),
    Truncated,
    Encrypt(String),
    Decrypt(String),
}

impl LkgError {
    /// The error in words.
    pub open spec fn words(self) -> Seq<char> {
        match self {
            LkgError::Empty => "LKG file is empty"@,
            LkgError::UnsupportedVersion(v) => "unsupported LKG file version: "@ + decimal(v as nat),
            LkgError::Truncated => "LKG file truncated"@,
            LkgError::Encrypt(e) => "aes-gcm encrypt: "@ + e@,
            LkgError::Decrypt(e) => "aes-gcm decrypt (corrupt or wrong key): "@ + e@,
        }
    }

    /// The error in words.
    pub fn message(&self) -> (r: String)
        ensures
            r@ == self.words(),
    {
        match self {
            LkgError::Empty => "LKG file is empty".to_owned(),
            LkgError::UnsupportedVersion(v) => {
                let text: String = "unsupported LKG file version: ".to_owned();
                text.concat(decimal_text(*v as u64).as_str())
            },
            LkgError::Truncated => "LKG file truncated".to_owned(),
            LkgError::Encrypt(e) => {
                let text: String = "aes-gcm encrypt: ".to_owned();
                text.concat(e.as_str())
            },
            LkgError::Decrypt(e) => {
                let text: String = "aes-gcm decrypt (corrupt or wrong key): ".to_owned();
                text.concat(e.as_str())
            },
        }
    }
}

/// The directory of a cache file: that of the path, or the current one where the
/// path has none.
pub open spec fn state_dir_of(path: Seq<char>) -> Seq<char> {
    match parent_of(path) {
        Some(dir) => dir,
        None => "."@,
    }
}

impl LkgCache {
    /// The path of the cache file.
    pub closed spec fn spec_path(self) -> Seq<char> {
        self.path@
    }

    /// The directory of the cache file, where the node secret lies too.
    pub closed spec fn spec_state_dir(self) -> Seq<char> {
        self.state_dir@
    }

    /// A cache at the given path. Its directory is that of the file, or the
    /// current one where the path has none.
    pub fn new(path: String) -> (r: LkgCache)
        ensures
            r.spec_path() == path@,
            r.spec_state_dir() == state_dir_of(path@),
    {
        let state_dir: String = match parent(path.as_str()) {
            Some(dir) => dir,
            None => ".".to_owned(),
        };
        LkgCache { path, state_dir }
    }

    /// The cache in its usual place under a state directory.
    pub fn in_state_dir(state_dir: &str) -> (r: LkgCache)
        ensures
            r.spec_path() == file_in(state_dir@, "lkg-config.bin"@),
            r.spec_state_dir() == state_dir@,
    {
        LkgCache { path: join(state_dir, "lkg-config.bin"), state_dir: state_dir.to_owned() }
    }

    /// The path of the cache file.
    pub fn path(&self) -> (r: &str)
        ensures
            r@ == self.spec_path(),
    {
        self.path.as_str()
    }

    /// The path of the node secret that the agent makes for itself.
    pub fn secret_path(&self) -> (r: String)
        ensures
            r@ == file_in(self.spec_state_dir(), ".node-secret"@),
    {
        join(self.state_dir.as_str(), ".node-secret")
    }

    /// The directory of the cache file.
    pub fn state_dir(&self) -> (r: &str)
        ensures
            r@ == self.spec_state_dir(),
    {
        self.state_dir.as_str()
    }
}

impl LkgEntry {
    /// An entry for a bundle, written at the instant `now`.
    pub fn new(hash: &str, bundle_proto: Vec<u8>, now: UtcTime) -> (r: LkgEntry)
        ensures
            r.config_hash@ == hash@,
            r.bundle_proto@ == bundle_proto@,
            r.written_at == now,
    {
        LkgEntry { config_hash: hash.to_owned(), bundle_proto, written_at: now }
    }

    /// The bundle as text, for a JSON document.
    pub fn bundle_text(&self) -> (r: String)
        ensures
            r@ == base64_encoded(self.bundle_proto@),
            base64_decoded(r@) == Some(self.bundle_proto@),
    {
        base64_encode(self.bundle_proto.as_slice())
    }

    /// The bundle that such a text stands for.
    pub fn bundle_from_text(text: &str) -> (r: Option<Vec<u8>>)
        ensures
            match r {
                Some(bytes) => base64_decoded(text@) == Some(bytes@),
                None => base64_decoded(text@) is None,
            },
    {
        base64_decode(text)
    }
}

/// The key that seals the cache on a node with the given secret. Salt and info
/// pin the derivation to this use of the secret.
pub open spec fn lkg_key(secret: Seq<u8>) -> Seq<u8> {
    hkdf_sha256_output(
        encode_utf8("mcpg-lkg-cache-v1"@),
        secret,
        encode_utf8("aes-256-gcm:lkg-bundle"@),
        AEAD_KEY_LEN as nat,
    )
}

/// The cache file for some contents.
pub open spec fn sealed_file(secret: Seq<u8>, nonce: Seq<u8>, plaintext: Seq<u8>) -> Seq<u8> {
    seq![FILE_VERSION] + nonce + aes256gcm_sealed(lkg_key(secret), nonce, Seq::empty(), plaintext)
}

/// A file that has a header this library understands.
pub open spec fn has_header(file: Seq<u8>) -> bool {
    file.len() >= HEADER_LEN && file[0] == FILE_VERSION
}

/// The contents of a cache file, if it was sealed on a node with this secret.
pub open spec fn opened_file(secret: Seq<u8>, file: Seq<u8>) -> Option<Seq<u8>> {
    if has_header(file) {
        aes256gcm_opened(
            lkg_key(secret),
            file.subrange(1, HEADER_LEN as int),
            Seq::empty(),
            file.skip(HEADER_LEN as int),
        )
    } else {
        None
    }
}

/// `other` is `file` with another version, or with another nonce alone or another
/// tag alone around the same ciphertext.
pub open spec fn has_changed_frame(file: Seq<u8>, other: Seq<u8>) -> bool {
    &&& file.len() == other.len() > 0
    &&& {
        ||| other[0] != file[0]
        ||| differs_around_ciphertext(file.skip(1), other.skip(1))
    }
}

/// Derives the key that seals the cache.
pub fn derive_key(secret: &[u8]) -> (r: Vec<u8>)
    ensures
        r@ == lkg_key(secret@),
        r@.len() == AEAD_KEY_LEN,
{
    match hkdf_sha256(
        "mcpg-lkg-cache-v1".as_bytes(),
        secret,
        "aes-256-gcm:lkg-bundle".as_bytes(),
        AEAD_KEY_LEN,
    ) {
        Some(key) => key,
        None => {
            assert(false);
            Vec::new()
        },
    }
}

/// Seals the contents of a cache file with a given nonce. What was sealed opens
/// again with the same secret, and no longer once its version, its nonce or its
/// tag is changed.
pub fn encrypt_with_nonce(plaintext: &[u8], secret: &[u8], nonce: &[u8]) -> (r: Result<
    Vec<u8>,
    LkgError,
>)
    requires
        nonce@.len() == AEAD_NONCE_LEN,
    ensures
        r is Ok <==> plaintext@.len() <= AEAD_MAX_LEN,
        r matches Ok(file) ==> {
            &&& file@ == sealed_file(secret@, nonce@, plaintext@)
            &&& file@.len() == HEADER_LEN + AEAD_TAG_LEN + plaintext@.len()
            &&& opened_file(secret@, file@) == Some(plaintext@)
            &&& forall|other: Seq<u8>|
                has_changed_frame(file@, other) ==> #[trigger] opened_file(secret@, other) is None
        },
        r matches Err(e) ==> e matches LkgError::Encrypt(m) && m@ == "aead::Error"@,
{
    let key: Vec<u8> = derive_key(secret);
    let no_aad: Vec<u8> = Vec::new();
    assert(no_aad@ =~= Seq::<u8>::empty());
    match aead_seal(key.as_slice(), nonce, no_aad.as_slice(), plaintext) {
        Ok(ct) => {
            let mut version: Vec<u8> = Vec::new();
            version.push(FILE_VERSION);
            assert(version@ =~= seq![FILE_VERSION]);
            let header: Vec<u8> = joined(version.as_slice(), nonce);
            let file: Vec<u8> = joined(header.as_slice(), ct.as_slice());
            assert(file@.subrange(1, HEADER_LEN as int) =~= nonce@);
            assert(file@.skip(HEADER_LEN as int) =~= ct@);
            assert forall|other: Seq<u8>| has_changed_frame(file@, other) implies #[trigger]
                opened_file(secret@, other) is None by {
                if has_header(other) {
                    let (a, b) = (file@.skip(1), other.skip(1));
                    lemma_differs_around_ciphertext(a, b);
                    assert(a.take(AEAD_NONCE_LEN as int) =~= nonce@);
                    assert(a.skip(AEAD_NONCE_LEN as int) =~= ct@);
                    assert(b.take(AEAD_NONCE_LEN as int) =~= other.subrange(1, HEADER_LEN as int));
                    assert(b.skip(AEAD_NONCE_LEN as int) =~= other.skip(HEADER_LEN as int));
                }
            }
            Ok(file)
        },
        Err(e) => Err(LkgError::Encrypt(e)),
    }
}

/// Seals the contents of a cache file with a fresh random nonce. What was
/// sealed opens again with the same secret, and no longer once its version, its
/// nonce or its tag is changed.
pub fn encrypt(plaintext: &[u8], secret: &[u8]) -> (r: Result<Vec<u8>, LkgError>)
    ensures
        r is Ok <==> plaintext@.len() <= AEAD_MAX_LEN,
        r matches Ok(file) ==> {
            &&& exists|nonce: Seq<u8>|
                nonce.len() == AEAD_NONCE_LEN && file@ == #[trigger] sealed_file(
                    secret@,
                    nonce,
                    plaintext@,
                )
            &&& file@.len() == HEADER_LEN + AEAD_TAG_LEN + plaintext@.len()
            &&& opened_file(secret@, file@) == Some(plaintext@)
            &&& forall|other: Seq<u8>|
                has_changed_frame(file@, other) ==> #[trigger] opened_file(secret@, other) is None
        },
        r matches Err(e) ==> e matches LkgError::Encrypt(m) && m@ == "aead::Error"@,
{
    let nonce: Vec<u8> = random_bytes(AEAD_NONCE_LEN);
    encrypt_with_nonce(plaintext, secret, nonce.as_slice())
}

/// Checks the header of a cache file.
pub fn check_header(sealed: &[u8]) -> (r: Result<(), LkgError>)
    ensures
        match r {
            Ok(()) => has_header(sealed@),
            Err(LkgError::Empty) => sealed@.len() == 0,
            Err(LkgError::UnsupportedVersion(v)) => sealed@.len() > 0 && sealed@[0] == v && v
                != FILE_VERSION,
            Err(LkgError::Truncated) => 0 < sealed@.len() < HEADER_LEN && sealed@[0]
                == FILE_VERSION,
            Err(_) => false,
        },
{
    if sealed.len() == 0 {
        return Err(LkgError::Empty);
    }
    let version: u8 = sealed[0];
    if version != FILE_VERSION {
        return Err(LkgError::UnsupportedVersion(version));
    }
    if sealed.len() < HEADER_LEN {
        return Err(LkgError::Truncated);
    }
    Ok(())
}

/// Opens a cache file.
pub fn decrypt(sealed: &[u8], secret: &[u8]) -> (r: Result<Vec<u8>, LkgError>)
    ensures
        match r {
            Ok(p) => opened_file(secret@, sealed@) == Some(p@) && sealed@.len() == HEADER_LEN
                + p@.len() + AEAD_TAG_LEN,
            Err(LkgError::Empty) => sealed@.len() == 0,
            Err(LkgError::UnsupportedVersion(v)) => sealed@.len() > 0 && sealed@[0] == v && v
                != FILE_VERSION,
            Err(LkgError::Truncated) => 0 < sealed@.len() < HEADER_LEN && sealed@[0]
                == FILE_VERSION,
            Err(LkgError::Decrypt(m)) => has_header(sealed@) && opened_file(secret@, sealed@)
                is None && m@ == "aead::Error"@,
            Err(LkgError::Encrypt(_)) => false,
        },
{
    match check_header(sealed) {
        Ok(()) => {},
        Err(e) => {
            return Err(e);
        },
    }
    let nonce: &[u8] = vstd::slice::slice_subrange(sealed, 1, HEADER_LEN);
    let ct: &[u8] = vstd::slice::slice_subrange(sealed, HEADER_LEN, sealed.len());
    assert(ct@ =~= sealed@.skip(HEADER_LEN as int));
    let key: Vec<u8> = derive_key(secret);
    let no_aad: Vec<u8> = Vec::new();
    assert(no_aad@ =~= Seq::<u8>::empty());
    match aead_open(key.as_slice(), nonce, no_aad.as_slice(), ct) {
        Ok(p) => Ok(p),
        Err(e) => Err(LkgError::Decrypt(e)),
    }
}

/// Where the node secret comes from.
pub enum NodeSecret {
    /// This is the secret.
    Known(Vec<u8>),
    /// There is none yet; one has to be made and kept.
    Missing,
}

/// The secret of a node: its machine id, trimmed, if there is one; or else the
/// secret kept beside the cache, if it has the right length.
pub open spec fn node_secret_of(machine_id: Option<Seq<char>>, kept: Option<Seq<u8>>) -> Option<
    Seq<u8>,
> {
    if machine_id matches Some(id) && trimmed(id).len() > 0 {
        Some(encode_utf8(trimmed(machine_id->0)))
    } else if kept matches Some(bytes) && bytes.len() == NODE_SECRET_LEN {
        kept
    } else {
        None
    }
}

/// Chooses the node secret from the text of the machine id file and the bytes
/// kept beside the cache, each where it could be read.
pub fn node_secret(machine_id: Option<&str>, kept: Option<Vec<u8>>) -> (r: NodeSecret)
    ensures
        match r {
            NodeSecret::Known(secret) => node_secret_of(
                match machine_id {
                    Some(id) => Some(id@),
                    None => None,
                },
                match kept {
                    Some(bytes) => Some(bytes@),
                    None => None,
                },
            ) == Some(secret@),
            NodeSecret::Missing => node_secret_of(
                match machine_id {
                    Some(id) => Some(id@),
                    None => None,
                },
                match kept {
                    Some(bytes) => Some(bytes@),
                    None => None,
                },
            ) is None,
        },
{
    if let Some(id) = machine_id {
        let id: String = trim(id);
        if !id.as_str().is_empty() {
            return NodeSecret::Known(id.as_str().as_bytes_vec());
        }
    }
    if let Some(bytes) = kept {
        if bytes.len() == NODE_SECRET_LEN {
            return NodeSecret::Known(bytes);
        }
    }
    NodeSecret::Missing
}

/// Makes a new node secret. It is random; nothing but its length can be said.
pub fn fresh_node_secret() -> (r: Vec<u8>)
    ensures
        r@.len() == NODE_SECRET_LEN,
{
    random_bytes(NODE_SECRET_LEN)
}

/// A secret that was made for a node without a machine id, and kept, is the
/// node's secret from then on.
pub proof fn law_kept_secret_is_stable(machine_id: Option<Seq<char>>, made: Seq<u8>)
    requires
        made.len() == NODE_SECRET_LEN,
        node_secret_of(machine_id, None) is None,
    ensures
        node_secret_of(machine_id, Some(made)) == Some(made),
{
}

/// A cache made with the path of the usual file in a directory is the one in its
/// usual place there: it has the same file, and the same directory for the node
/// secret. Of a directory path that is not tidy, what names nothing at its end
/// is left out.
pub proof fn law_usual_file_lies_in_its_state_dir(dir: Seq<char>)
    ensures
        is_tidy(dir) ==> state_dir_of(file_in(dir, "lkg-config.bin"@)) == dir,
        state_dir_of(file_in(dir, "lkg-config.bin"@)) == tidied(dir, anchor(dir)),
{
    reveal_strlit("lkg-config.bin");
    law_parent_of_file_is_its_directory(dir, "lkg-config.bin"@);
}

/// What is sealed on a node, whatever the nonce, carries the version that this
/// library opens.
pub proof fn law_sealed_file_has_header(secret: Seq<u8>, nonce: Seq<u8>, plaintext: Seq<u8>)
    requires
        nonce.len() == AEAD_NONCE_LEN,
    ensures
        has_header(sealed_file(secret, nonce, plaintext)),
{
}

/// The key of the cache comes from the secret by HKDF, under the salt and the
/// info text of this use, and is as long as AES-256 takes.
pub proof fn law_key_is_derived_for_this_use(secret: Seq<u8>)
    ensures
        lkg_key(secret) == hkdf_sha256_output(
            encode_utf8("mcpg-lkg-cache-v1"@),
            secret,
            encode_utf8("aes-256-gcm:lkg-bundle"@),
            32,
        ),
{
}

/// A sealed file is the version byte one, the nonce, and the contents sealed under
/// the key of the node with that nonce and no associated data.
pub proof fn law_sealed_file_is_laid_out(secret: Seq<u8>, nonce: Seq<u8>, plaintext: Seq<u8>)
    requires
        nonce.len() == 12,
    ensures
        sealed_file(secret, nonce, plaintext)[0] == 1,
        sealed_file(secret, nonce, plaintext).subrange(1, 13) == nonce,
        sealed_file(secret, nonce, plaintext).skip(13) == aes256gcm_sealed(
            lkg_key(secret),
            nonce,
            Seq::empty(),
            plaintext,
        ),
{
    let ct = aes256gcm_sealed(lkg_key(secret), nonce, Seq::empty(), plaintext);
    let file = sealed_file(secret, nonce, plaintext);
    assert(file.subrange(1, 13) =~= nonce);
    assert(file.skip(13) =~= ct);
}

/// A file of that layout is opened under the key of the node, with its own nonce;
/// one of another version, or too short for a header, is not opened at all.
pub proof fn law_file_opens_by_its_layout(
    secret: Seq<u8>,
    nonce: Seq<u8>,
    ct: Seq<u8>,
    file: Seq<u8>,
)
    requires
        nonce.len() == 12,
    ensures
        opened_file(secret, seq![1u8] + nonce + ct) == aes256gcm_opened(
            lkg_key(secret),
            nonce,
            Seq::empty(),
            ct,
        ),
        file.len() < 13 ==> opened_file(secret, file) is None && !has_header(file),
        file.len() > 0 && file[0] != 1 ==> opened_file(secret, file) is None && !has_header(file),
        file.len() >= 13 && file[0] == 1 ==> has_header(file),
{
    let whole = seq![1u8] + nonce + ct;
    assert(whole.subrange(1, 13) =~= nonce);
    assert(whole.skip(13) =~= ct);
}

/// A machine id that is not blank is the secret of the node, whatever is kept
/// beside the cache, and white space around it does not matter.
pub proof fn law_machine_id_is_the_secret(id: Seq<char>, kept: Option<Seq<u8>>)
    ensures
        trimmed(id).len() > 0 ==> node_secret_of(Some(id), kept) == Some(encode_utf8(trimmed(id))),
        (exists|i: int| 0 <= i < id.len() && !white_space(#[trigger] id[i])) ==> trimmed(id).len()
            > 0,
{
    law_trimming_takes_white_space_alone(id);
    let (from, to) = choose|from: int, to: int| #[trigger] is_core(id, trimmed(id), from, to);
}

/// Without a machine id, or with a blank one, the secret is the one kept, if it
/// has 32 bytes; otherwise there is none yet.
pub proof fn law_kept_secret_has_its_length(id: Option<Seq<char>>, kept: Option<Seq<u8>>)
    requires
        id matches Some(text) ==> forall|i: int|
            0 <= i < text.len() ==> white_space(#[trigger] text[i]),
    ensures
        node_secret_of(id, kept) is Some <==> kept is Some && kept->0.len() == 32,
        node_secret_of(id, kept) matches Some(secret) ==> kept == Some(secret),
{
    if let Some(text) = id {
        law_trimming_takes_white_space_alone(text);
        let (from, to) = choose|from: int, to: int| #[trigger] is_core(text, trimmed(text), from, to);
        assert(from < to ==> white_space(text[from]));
    }
}

/// A cache file has the parent of its path for a directory, and the current
/// directory where the path has no parent.
pub proof fn law_cache_lies_beside_its_secret(path: Seq<char>)
    ensures
        parent_of(path) matches Some(dir) ==> state_dir_of(path) == dir,
        parent_of(path) is None ==> state_dir_of(path) == "."@,
{
}

/// Every error says what it is about: the version that was found, in decimal, or
/// the words of the cipher.
pub proof fn law_errors_say_what_was_found(version: u8, text: String)
    ensures
        LkgError::UnsupportedVersion(version).words() == "unsupported LKG file version: "@
            + decimal(version as nat),
        LkgError::Encrypt(text).words() == "aes-gcm encrypt: "@ + text@,
        LkgError::Decrypt(text).words() == "aes-gcm decrypt (corrupt or wrong key): "@ + text@,
        LkgError::Empty.words() == "LKG file is empty"@,
        LkgError::Truncated.words() == "LKG file truncated"@,
{
}

} // verus!
