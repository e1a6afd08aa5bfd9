//! The calls into other crates. What each contract here says of the outside
//! function is believed, not proved; everything else in the library rests on
//! these statements alone.

use aes_gcm::aead::{Aead, Payload};
use aes_gcm::{Aes256Gcm, Key, KeyInit, Nonce};
use base64::engine::general_purpose::{STANDARD, URL_SAFE_NO_PAD};
use base64::Engine;
use hkdf::Hkdf;
use rand::rngs::OsRng;
use rand::{Rng, RngCore};
use sha2::Sha256;
use vstd::prelude::*;

verus! {

/// The longest message, and the longest associated data, that AES-GCM takes.
pub const AEAD_MAX_LEN: u64 = 68_719_476_736;

/// Bytes in an AES-256 key.
pub const AEAD_KEY_LEN: usize = 32;

/// Bytes in an AES-GCM nonce.
pub const AEAD_NONCE_LEN: usize = 12;

/// Bytes that AES-GCM appends to a message as its tag.
pub const AEAD_TAG_LEN: usize = 16;

/// The longest output of HKDF with SHA-256: 255 blocks of 32 bytes.
pub const HKDF_MAX_LEN: usize = 8160;

/// What a JSON document holds under a key of its top-level object.
pub enum JsonMember {
    /// The document is not JSON.
    NotJson,
    /// The document is no object, or has no such key.
    Absent,
    /// The member, read as a number: as an integer of 64 signed bits, if it is
    /// one, and as a floating-point number, if it is any number at all, cut to
    /// an integer and saturating at the ends of the type.
    Present { integer: Option<i64>, truncated: Option<i64> },
}

/// The ciphertext and tag that AES-256-GCM gives for a message.
pub uninterp spec fn aes256gcm_sealed(
    key: Seq<u8>,
    nonce: Seq<u8>,
    aad: Seq<u8>,
    msg: Seq<u8>,
) -> Seq<u8>;

/// The message that AES-256-GCM finds in a ciphertext and tag, if the tag is right.
pub uninterp spec fn aes256gcm_opened(
    key: Seq<u8>,
    nonce: Seq<u8>,
    aad: Seq<u8>,
    sealed: Seq<u8>,
) -> Option<Seq<u8>>;

/// The output of HKDF-SHA256, extract then expand.
pub uninterp spec fn hkdf_sha256_output(
    salt: Seq<u8>,
    ikm: Seq<u8>,
    info: Seq<u8>,
    len: nat,
) -> Seq<u8>;

/// The padded base64 text of some bytes, in the standard alphabet.
pub uninterp spec fn base64_encoded(bytes: Seq<u8>) -> Seq<char>;

/// The bytes that a padded base64 text in the standard alphabet stands for.
pub uninterp spec fn base64_decoded(text: Seq<char>) -> Option<Seq<u8>>;

/// The bytes that an unpadded base64 text in the URL-safe alphabet stands for.
pub uninterp spec fn base64url_decoded(text: Seq<char>) -> Option<Seq<u8>>;

/// The BLAKE3 hash of some bytes in lower-case hexadecimal.
pub uninterp spec fn blake3_hex_of(bytes: Seq<u8>) -> Seq<char>;

/// What a JSON document holds under a key.
pub uninterp spec fn json_member_of(doc: Seq<u8>, key: Seq<char>) -> JsonMember;

/// Two runs of ciphertext and tag that differ in the tag alone.
pub open spec fn differs_in_tag(a: Seq<u8>, b: Seq<u8>) -> bool {
    &&& a != b
    &&& a.len() == b.len() >= AEAD_TAG_LEN
    &&& a.take(a.len() - AEAD_TAG_LEN) == b.take(b.len() - AEAD_TAG_LEN)
}

/// Calls `Aes256Gcm::encrypt` of the crate `aes_gcm`. Claims that it succeeds
/// exactly when neither the message nor the associated data is longer than
/// 2^36 bytes; that the ciphertext and tag are a function of the arguments,
/// 16 bytes longer than the message; that `Aes256Gcm::decrypt` under the same
/// key, nonce and associated data gives the message back; that it refuses the
/// same ciphertext under any other tag, since it computes the one right tag and
/// compares; that it refuses ciphertext and tag under any other nonce, since the
/// nonce enters the tag through the block cipher, which is a permutation; and
/// that the error, printed, is `aead::Error`. Of a changed ciphertext or changed
/// associated data nothing is claimed: that those are refused is overwhelmingly
/// likely, but not so for every key.
#[verifier::external_body]
pub(crate) fn aead_seal(key: &[u8], nonce: &[u8], aad: &[u8], msg: &[u8]) -> (r: Result<
    Vec<u8>,
    String,
>)
    requires
        key@.len() == AEAD_KEY_LEN,
        nonce@.len() == AEAD_NONCE_LEN,
    ensures
        (r is Ok) == (msg@.len() <= AEAD_MAX_LEN && aad@.len() <= AEAD_MAX_LEN),
        match r {
            Ok(c) => {
                &&& c@ == aes256gcm_sealed(key@, nonce@, aad@, msg@)
                &&& c@.len() == msg@.len() + AEAD_TAG_LEN
                &&& aes256gcm_opened(key@, nonce@, aad@, c@) == Some(msg@)
                &&& forall|s: Seq<u8>|
                    differs_in_tag(c@, s) ==> #[trigger] aes256gcm_opened(key@, nonce@, aad@, s)
                        is None
                &&& forall|n: Seq<u8>|
                    n.len() == AEAD_NONCE_LEN && n != nonce@ ==> #[trigger] aes256gcm_opened(
                        key@,
                        n,
                        aad@,
                        c@,
                    ) is None
            },
            Err(e) => e@ == "aead::Error"@,
        },
{
    Aes256Gcm::new(Key::<Aes256Gcm>::from_slice(key))
        .encrypt(Nonce::from_slice(nonce), Payload { msg, aad })
        .map_err(|e| e.to_string())
}

/// Calls `Aes256Gcm::decrypt` of the crate `aes_gcm`. Claims that whether it
/// succeeds, and with which message, is a function of the arguments; that the
/// message is 16 bytes shorter than its ciphertext and tag; and that the
/// error, printed, is `aead::Error`.
#[verifier::external_body]
pub(crate) fn aead_open(key: &[u8], nonce: &[u8], aad: &[u8], sealed: &[u8]) -> (r: Result<
    Vec<u8>,
    String,
>)
    requires
        key@.len() == AEAD_KEY_LEN,
        nonce@.len() == AEAD_NONCE_LEN,
    ensures
        match r {
            Ok(p) => {
                &&& aes256gcm_opened(key@, nonce@, aad@, sealed@) == Some(p@)
                &&& p@.len() + AEAD_TAG_LEN == sealed@.len()
            },
            Err(e) => {
                &&& aes256gcm_opened(key@, nonce@, aad@, sealed@) is None
                &&& e@ == "aead::Error"@
            },
        },
{
    Aes256Gcm::new(Key::<Aes256Gcm>::from_slice(key))
        .decrypt(Nonce::from_slice(nonce), Payload { msg: sealed, aad })
        .map_err(|e| e.to_string())
}

/// Calls `Hkdf::<Sha256>::new` and `expand` of the crate `hkdf`. Claims that
/// they succeed where no more than 8160 bytes are asked for, and that the
/// output has the length asked for and is a function of the arguments.
#[verifier::external_body]
pub(crate) fn hkdf_sha256(salt: &[u8], ikm: &[u8], info: &[u8], len: usize) -> (r: Option<Vec<u8>>)
    requires
        len <= HKDF_MAX_LEN,
    ensures
        match r {
            Some(okm) => {
                &&& okm@ == hkdf_sha256_output(salt@, ikm@, info@, len as nat)
                &&& okm@.len() == len
            },
            None => false,
        },
{
    let mut okm = vec![0u8; len];
    Hkdf::<Sha256>::new(Some(salt), ikm).expand(info, &mut okm).ok().map(|_| okm)
}

/// Calls `STANDARD.encode` of the crate `base64`. Claims that the text is a
/// function of the bytes, and that `STANDARD.decode` reads the bytes back from
/// it. Only an empty input gives an empty text.
#[verifier::external_body]
pub(crate) fn base64_encode(bytes: &[u8]) -> (r: String)
    ensures
        r@ == base64_encoded(bytes@),
        base64_decoded(r@) == Some(bytes@),
        r@.len() == 0 <==> bytes@.len() == 0,
{
    STANDARD.encode(bytes)
}

/// Calls `STANDARD.decode` of the crate `base64`. Claims that whether the text
/// is base64, and of which bytes, is a function of the text.
#[verifier::external_body]
pub(crate) fn base64_decode(text: &str) -> (r: Option<Vec<u8>>)
    ensures
        match r {
            Some(bytes) => base64_decoded(text@) == Some(bytes@),
            None => base64_decoded(text@) is None,
        },
{
    STANDARD.decode(text.as_bytes()).ok()
}

/// Calls `URL_SAFE_NO_PAD.decode` of the crate `base64`. Claims that whether
/// the text is base64url, and of which bytes, is a function of the text.
#[verifier::external_body]
pub(crate) fn base64url_decode(text: &str) -> (r: Option<Vec<u8>>)
    ensures
        match r {
            Some(bytes) => base64url_decoded(text@) == Some(bytes@),
            None => base64url_decoded(text@) is None,
        },
{
    URL_SAFE_NO_PAD.decode(text).ok()
}

/// Calls `blake3::hash` and `Hash::to_hex` of the crate `blake3`. Claims that
/// the text is a function of the bytes and 64 characters long.
#[verifier::external_body]
pub(crate) fn blake3_hex(bytes: &[u8]) -> (r: String)
    ensures
        r@ == blake3_hex_of(bytes@),
        r@.len() == 64,
{
    blake3::hash(bytes).to_hex().to_string()
}

/// Calls `serde_json::from_slice` and reads one member with `Value::get`,
/// `as_i64` and `as_f64`. Claims that what it finds is a function of the
/// document and the key.
#[verifier::external_body]
pub(crate) fn json_member(doc: &[u8], key: &str) -> (r: JsonMember)
    ensures
        r == json_member_of(doc@, key@),
{
    match serde_json::from_slice::<serde_json::Value>(doc) {
        Err(_) => JsonMember::NotJson,
        Ok(value) => match value.get(key) {
            None => JsonMember::Absent,
            Some(member) => JsonMember::Present {
                integer: member.as_i64(),
                truncated: member.as_f64().map(|n| n as i64),
            },
        },
    }
}

/// The most random bytes that are asked for at once.
pub const RANDOM_MAX_LEN: usize = 4096;

/// Calls `OsRng::fill_bytes` of the crate `rand`. Claims only how many bytes
/// come back: they are random. It panics where the system's own source of
/// random numbers fails.
#[verifier::external_body]
pub(crate) fn random_bytes(len: usize) -> (r: Vec<u8>)
    requires
        len <= RANDOM_MAX_LEN,
    ensures
        r@.len() == len,
{
    let mut bytes = vec![0u8; len];
    OsRng.fill_bytes(&mut bytes);
    bytes
}

/// Calls `thread_rng` and `gen_range` of the crate `rand`. Claims only that
/// the number drawn lies between the bounds, both included. It panics where
/// the generator cannot be seeded.
#[verifier::external_body]
pub(crate) fn random_between(low: u64, high: u64) -> (r: u64)
    requires
        low <= high,
    ensures
        low <= r <= high,
{
    rand::thread_rng().gen_range(low..=high)
}

/// A hexadecimal digit, in lower case.
pub open spec fn is_lower_hex(c: char) -> bool {
    ('0' <= c && c <= '9') || ('a' <= c && c <= 'f')
}

/// The text of a version 7 UUID: five groups of lower-case hexadecimal digits
/// between hyphens, the version at the head of the third group and the variant
/// at the head of the fourth.
pub open spec fn is_uuid_v7(s: Seq<char>) -> bool {
    &&& s.len() == 36
    &&& s[8] == '-' && s[13] == '-' && s[18] == '-' && s[23] == '-'
    &&& forall|i: int|
        0 <= i < 36 && i != 8 && i != 13 && i != 18 && i != 23 ==> is_lower_hex(#[trigger] s[i])
    &&& s[14] == '7'
    &&& s[19] == '8' || s[19] == '9' || s[19] == 'a' || s[19] == 'b'
}

/// Calls `Uuid::now_v7` of the crate `uuid` and prints it. Claims only the form
/// of the text: the value depends on the time and on chance. It panics where
/// the system clock stands before 1970 or no random bits can be had.
#[verifier::external_body]
pub(crate) fn fresh_uuid() -> (r: String)
    ensures
        is_uuid_v7(r@),
{
    uuid::Uuid::now_v7().to_string()
}

/// The first second of the calendar of the crate `chrono`, since the Unix epoch:
/// that of `DateTime::<Utc>::MIN_UTC`.
pub const CALENDAR_FIRST_SECOND: i64 = -8_334_601_228_800;

/// The last second of that calendar: that of `DateTime::<Utc>::MAX_UTC`.
pub const CALENDAR_LAST_SECOND: i64 = 8_210_266_876_799;

/// Calls `Utc::now` of the crate `chrono` and reads its timestamp. Claims that
/// the second is one of the crate's calendar, and that the nanoseconds past it
/// stay below one second's worth, since the system clock tells of no leap
/// second. Which instant it is depends on the clock, and nothing is claimed of
/// that. It panics where the clock stands before 1970.
#[verifier::external_body]
pub(crate) fn utc_now() -> (r: (i64, u32))
    ensures
        CALENDAR_FIRST_SECOND <= r.0 <= CALENDAR_LAST_SECOND,
        r.1 < 1_000_000_000,
{
    let now = chrono::Utc::now();
    (now.timestamp(), now.timestamp_subsec_nanos())
}

} // verus!
