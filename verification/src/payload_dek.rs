//! Payload encryption at the source. A tenant's data encryption key seals
//! captured payloads before they enter the metrics buffer, so that the Control
//! Plane host never sees them.
//!
//! A blob is a nonce of 12 bytes followed by the AES-256-GCM ciphertext and
//! tag, under a fixed associated text that keeps this use of the key apart
//! from any other.

use vstd::prelude::*;
use vstd::string::StringExecFns;
use vstd::utf8::encode_utf8;

use crate::bytes::{differs_around_ciphertext, joined, lemma_differs_around_ciphertext};
use crate::externals::{
    aead_open, aead_seal, aes256gcm_opened, aes256gcm_sealed, random_bytes, AEAD_KEY_LEN,
    AEAD_MAX_LEN, AEAD_NONCE_LEN, AEAD_TAG_LEN,
};
use crate::text::{decimal, decimal_text};

verus! {

broadcast use vstd::string::group_string_axioms;

/// The associated data of every payload blob.
pub open spec fn payload_aad() -> Seq<u8> {
    encode_utf8("mcpg-payload-source-v1"@)
}

/// A payload key and the version stamped on every blob that it seals.
#[derive(Debug)]
pub struct DekHandle {
    raw: Vec<u8>,
    version: u32,
}

impl Clone for DekHandle {
    fn clone(&self) -> (r: DekHandle)
        ensures
            r.key() == self.key(),
            r.key_version() == self.key_version(),
    {
        proof {
            use_type_invariant(self);
        }
        let raw: Vec<u8> = self.raw.clone();
        assert(raw@ =~= self.raw@);
        DekHandle { raw, version: self.version }
    }
}

/// Why a key was refused or a payload not sealed.
#[derive(Debug)]
pub enum DekError {
    BadKeyLen(usize),
    ZeroVersion,
    Encrypt(String),
}

impl DekError {
    /// The error in words.
    pub open spec fn words(self) -> Seq<char> {
        match self {
            DekError::BadKeyLen(n) => "payload_dek must be 32 bytes, got "@ + decimal(n as nat),
            DekError::ZeroVersion => "payload_dek_version must be non-zero"@,
            DekError::Encrypt(e) => "aes-gcm encrypt: "@ + e@,
        }
    }

    /// The error in words.
    pub fn message(&self) -> (r: String)
        ensures
            r@ == self.words(),
    {
        match self {
            DekError::BadKeyLen(n) => {
                let text: String = "payload_dek must be 32 bytes, got ".to_owned();
                text.concat(decimal_text(*n as u64).as_str())
            },
            DekError::ZeroVersion => "payload_dek_version must be non-zero".to_owned(),
            DekError::Encrypt(e) => {
                let text: String = "aes-gcm encrypt: ".to_owned();
                text.concat(e.as_str())
            },
        }
    }
}

impl DekHandle {
    /// The key bytes.
    pub closed spec fn key(self) -> Seq<u8> {
        self.raw@
    }

    /// The version of the key.
    pub closed spec fn key_version(self) -> u32 {
        self.version
    }

    #[verifier::type_invariant]
    spec fn sound(self) -> bool {
        self.raw@.len() == AEAD_KEY_LEN && self.version != 0
    }

    /// The blob that the key makes of a payload with a given nonce.
    pub open spec fn sealed(self, nonce: Seq<u8>, plaintext: Seq<u8>) -> Seq<u8> {
        nonce + aes256gcm_sealed(self.key(), nonce, payload_aad(), plaintext)
    }

    /// The payload that the key finds in a blob, if it sealed the blob.
    pub open spec fn opened(self, blob: Seq<u8>) -> Option<Seq<u8>> {
        if blob.len() < AEAD_NONCE_LEN {
            None
        } else {
            aes256gcm_opened(
                self.key(),
                blob.take(AEAD_NONCE_LEN as int),
                payload_aad(),
                blob.skip(AEAD_NONCE_LEN as int),
            )
        }
    }

    /// The handle for a key and version as the Control Plane issues them. An
    /// empty key means that there is none, and payloads stay in plaintext.
    pub fn from_proto(raw: &[u8], version: u32) -> (r: Result<Option<DekHandle>, DekError>)
        ensures
            match r {
                Ok(None) => raw@.len() == 0,
                Ok(Some(h)) => raw@.len() == AEAD_KEY_LEN && version != 0 && h.key() == raw@
                    && h.key_version() == version,
                Err(DekError::BadKeyLen(n)) => raw@.len() != 0 && raw@.len() != AEAD_KEY_LEN && n
                    == raw@.len(),
                Err(DekError::ZeroVersion) => raw@.len() == AEAD_KEY_LEN && version == 0,
                Err(DekError::Encrypt(_)) => false,
            },
    {
        if raw.len() == 0 {
            return Ok(None);
        }
        if raw.len() != AEAD_KEY_LEN {
            return Err(DekError::BadKeyLen(raw.len()));
        }
        if version == 0 {
            return Err(DekError::ZeroVersion);
        }
        let bytes: Vec<u8> = vstd::slice::slice_to_vec(raw);
        Ok(Some(DekHandle { raw: bytes, version }))
    }

    /// The version of the key; never zero.
    pub fn version(&self) -> (r: u32)
        ensures
            r == self.key_version(),
            r != 0,
    {
        proof {
            use_type_invariant(self);
        }
        self.version
    }

    /// Seals a payload with a given nonce. What was sealed opens again with the
    /// same key, and no longer once its nonce or its tag is changed.
    pub fn encrypt_with_nonce(&self, nonce: &[u8], plaintext: &[u8]) -> (r: Result<
        Vec<u8>,
        DekError,
    >)
        requires
            nonce@.len() == AEAD_NONCE_LEN,
        ensures
            r is Ok <==> plaintext@.len() <= AEAD_MAX_LEN,
            r matches Ok(blob) ==> {
                &&& blob@ == self.sealed(nonce@, plaintext@)
                &&& blob@.len() == AEAD_NONCE_LEN + AEAD_TAG_LEN + plaintext@.len()
                &&& self.opened(blob@) == Some(plaintext@)
                &&& forall|other: Seq<u8>|
                    differs_around_ciphertext(blob@, other) ==> #[trigger] self.opened(other) is None
            },
            r matches Err(e) ==> e matches DekError::Encrypt(m) && m@ == "aead::Error"@,
    {
        proof {
            use_type_invariant(self);
            reveal_strlit("mcpg-payload-source-v1");
            assert(vstd::utf8::is_ascii_chars("mcpg-payload-source-v1"@));
            vstd::utf8::is_ascii_chars_encode_utf8("mcpg-payload-source-v1"@);
        }
        let aad: &[u8] = "mcpg-payload-source-v1".as_bytes();
        match aead_seal(self.raw.as_slice(), nonce, aad, plaintext) {
            Ok(ct) => {
                let blob: Vec<u8> = joined(nonce, ct.as_slice());
                assert(blob@.take(AEAD_NONCE_LEN as int) =~= nonce@);
                assert(blob@.skip(AEAD_NONCE_LEN as int) =~= ct@);
                assert forall|other: Seq<u8>| differs_around_ciphertext(blob@, other) implies #[trigger]
                    self.opened(other) is None by {
                    lemma_differs_around_ciphertext(blob@, other);
                }
                Ok(blob)
            },
            Err(e) => Err(DekError::Encrypt(e)),
        }
    }

    /// Seals a payload with a fresh random nonce. What was sealed opens again
    /// with the same key, and no longer once its nonce or its tag is changed.
    pub fn encrypt(&self, plaintext: &[u8]) -> (r: Result<Vec<u8>, DekError>)
        ensures
            r is Ok <==> plaintext@.len() <= AEAD_MAX_LEN,
            r matches Ok(blob) ==> {
                &&& exists|nonce: Seq<u8>|
                    nonce.len() == AEAD_NONCE_LEN && blob@ == #[trigger] self.sealed(
                        nonce,
                        plaintext@,
                    )
                &&& blob@.len() == AEAD_NONCE_LEN + AEAD_TAG_LEN + plaintext@.len()
                &&& self.opened(blob@) == Some(plaintext@)
                &&& forall|other: Seq<u8>|
                    differs_around_ciphertext(blob@, other) ==> #[trigger] self.opened(other) is None
            },
            r matches Err(e) ==> e matches DekError::Encrypt(m) && m@ == "aead::Error"@,
    {
        let nonce: Vec<u8> = random_bytes(AEAD_NONCE_LEN);
        self.encrypt_with_nonce(nonce.as_slice(), plaintext)
    }

    /// Opens a blob, as the holder of the same key does on the other side.
    pub fn decrypt_for_test(&self, blob: &[u8]) -> (r: Result<Vec<u8>, DekError>)
        ensures
            match r {
                Ok(p) => self.opened(blob@) == Some(p@) && blob@.len() == AEAD_NONCE_LEN
                    + p@.len() + AEAD_TAG_LEN,
                Err(DekError::Encrypt(m)) => self.opened(blob@) is None && m@ == if blob@.len()
                    < AEAD_NONCE_LEN {
                    "blob shorter than nonce"@
                } else {
                    "aead::Error"@
                },
                Err(_) => false,
            },
    {
        if blob.len() < AEAD_NONCE_LEN {
            return Err(DekError::Encrypt("blob shorter than nonce".to_owned()));
        }
        proof {
            use_type_invariant(self);
        }
        let aad: &[u8] = "mcpg-payload-source-v1".as_bytes();
        let nonce: &[u8] = vstd::slice::slice_subrange(blob, 0, AEAD_NONCE_LEN);
        let ct: &[u8] = vstd::slice::slice_subrange(blob, AEAD_NONCE_LEN, blob.len());
        assert(nonce@ =~= blob@.take(AEAD_NONCE_LEN as int));
        assert(ct@ =~= blob@.skip(AEAD_NONCE_LEN as int));
        match aead_open(self.raw.as_slice(), nonce, aad, ct) {
            Ok(p) => Ok(p),
            Err(e) => Err(DekError::Encrypt(e)),
        }
    }
}

/// A blob is the nonce and the payload sealed under the key with that nonce and
/// the associated text of this use.
pub proof fn law_blob_is_laid_out(h: DekHandle, nonce: Seq<u8>, plaintext: Seq<u8>)
    requires
        nonce.len() == 12,
    ensures
        h.sealed(nonce, plaintext).take(12) == nonce,
        h.sealed(nonce, plaintext).skip(12) == aes256gcm_sealed(
            h.key(),
            nonce,
            encode_utf8("mcpg-payload-source-v1"@),
            plaintext,
        ),
{
    assert(h.sealed(nonce, plaintext).take(12) =~= nonce);
    assert(h.sealed(nonce, plaintext).skip(12) =~= aes256gcm_sealed(
        h.key(),
        nonce,
        payload_aad(),
        plaintext,
    ));
}

/// A blob is opened under the key with its own nonce and the associated text of
/// this use; one too short for a nonce is not opened at all.
pub proof fn law_blob_opens_by_its_layout(h: DekHandle, nonce: Seq<u8>, ct: Seq<u8>, blob: Seq<u8>)
    requires
        nonce.len() == 12,
    ensures
        h.opened(nonce + ct) == aes256gcm_opened(
            h.key(),
            nonce,
            encode_utf8("mcpg-payload-source-v1"@),
            ct,
        ),
        blob.len() < 12 ==> h.opened(blob) is None,
{
    assert((nonce + ct).take(12) =~= nonce);
    assert((nonce + ct).skip(12) =~= ct);
}

/// Every error says what it is about: the length that was found, in decimal, or
/// the words of the cipher.
pub proof fn law_errors_say_what_was_found(n: usize, text: String)
    ensures
        DekError::BadKeyLen(n).words() == "payload_dek must be 32 bytes, got "@ + decimal(n as nat),
        DekError::ZeroVersion.words() == "payload_dek_version must be non-zero"@,
        DekError::Encrypt(text).words() == "aes-gcm encrypt: "@ + text@,
{
}

} // verus!
