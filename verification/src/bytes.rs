//! Runs of bytes.

use vstd::prelude::*;

use crate::externals::{differs_in_tag, AEAD_NONCE_LEN, AEAD_TAG_LEN};

verus! {

/// What an optional payload stands for: nothing is the empty payload.
pub open spec fn bytes_or_empty(b: Option<Vec<u8>>) -> Seq<u8> {
    match b {
        Some(v) => v@,
        None => Seq::empty(),
    }
}

/// An optional payload, where nothing is the empty payload.
pub fn bytes_of(b: &Option<Vec<u8>>) -> (r: Vec<u8>)
    ensures
        r@ == bytes_or_empty(*b),
{
    match b {
        Some(v) => {
            let copy: Vec<u8> = v.clone();
            assert(copy@ =~= v@);
            copy
        },
        None => Vec::new(),
    }
}

/// Joins two runs of bytes.
pub fn joined(first: &[u8], second: &[u8]) -> (r: Vec<u8>)
    ensures
        r@ == first@ + second@,
{
    let mut out: Vec<u8> = Vec::new();
    out.extend_from_slice(first);
    out.extend_from_slice(second);
    assert(out@ =~= first@ + second@);
    out
}

/// Two runs of nonce, ciphertext and tag that differ in the nonce alone or in
/// the tag alone.
pub open spec fn differs_around_ciphertext(a: Seq<u8>, b: Seq<u8>) -> bool {
    &&& a != b
    &&& a.len() == b.len() >= AEAD_NONCE_LEN + AEAD_TAG_LEN
    &&& a.subrange(AEAD_NONCE_LEN as int, a.len() - AEAD_TAG_LEN) == b.subrange(
        AEAD_NONCE_LEN as int,
        b.len() - AEAD_TAG_LEN,
    )
    &&& {
        ||| a.take(AEAD_NONCE_LEN as int) == b.take(AEAD_NONCE_LEN as int)
        ||| a.skip(a.len() - AEAD_TAG_LEN) == b.skip(b.len() - AEAD_TAG_LEN)
    }
}

/// What such a difference is once the nonce is taken off.
pub proof fn lemma_differs_around_ciphertext(a: Seq<u8>, b: Seq<u8>)
    requires
        differs_around_ciphertext(a, b),
    ensures
        ({
            let (m, n) = (a.take(AEAD_NONCE_LEN as int), b.take(AEAD_NONCE_LEN as int));
            let (s, t) = (a.skip(AEAD_NONCE_LEN as int), b.skip(AEAD_NONCE_LEN as int));
            (m == n && differs_in_tag(s, t)) || (m != n && s == t)
        }),
{
    let (m, n) = (a.take(AEAD_NONCE_LEN as int), b.take(AEAD_NONCE_LEN as int));
    let (s, t) = (a.skip(AEAD_NONCE_LEN as int), b.skip(AEAD_NONCE_LEN as int));
    let end = a.len() - AEAD_TAG_LEN;
    assert(s.take(s.len() - AEAD_TAG_LEN) =~= a.subrange(AEAD_NONCE_LEN as int, end));
    assert(t.take(t.len() - AEAD_TAG_LEN) =~= b.subrange(AEAD_NONCE_LEN as int, end));
    assert(a =~= m + s);
    assert(b =~= n + t);
    if m != n {
        assert(s =~= a.subrange(AEAD_NONCE_LEN as int, end) + a.skip(end));
        assert(t =~= b.subrange(AEAD_NONCE_LEN as int, end) + b.skip(end));
    }
}

/// A payload that is there goes on the wire as it is, and one that is missing
/// as nothing.
pub proof fn law_payload_is_kept(v: Vec<u8>)
    ensures
        bytes_or_empty(Some(v)) == v@,
        bytes_or_empty(None).len() == 0,
{
}

} // verus!
