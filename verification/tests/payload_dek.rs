use aes_gcm::aead::{Aead, Payload};
use aes_gcm::{Aes256Gcm, KeyInit, Nonce};
use mcpg_control_plane_client::{DekError, DekHandle};

fn fake_dek() -> Vec<u8> {
    (0u8..32).collect()
}

fn handle(version: u32) -> DekHandle {
    DekHandle::from_proto(&fake_dek(), version).unwrap().unwrap()
}

#[test]
fn from_proto_empty_returns_none() {
    let got = DekHandle::from_proto(&[], 0).unwrap();
    assert!(got.is_none());
}

#[test]
fn from_proto_rejects_short_key() {
    let err = DekHandle::from_proto(&[1, 2, 3], 1).unwrap_err();
    assert!(matches!(err, DekError::BadKeyLen(3)));
}

#[test]
fn from_proto_rejects_zero_version_with_key_present() {
    let err = DekHandle::from_proto(&fake_dek(), 0).unwrap_err();
    assert!(matches!(err, DekError::ZeroVersion));
}

#[test]
fn round_trip_encrypts_and_decrypts() {
    let dek = handle(7);
    let pt = b"hello payload, 12345";
    let blob = dek.encrypt(pt).unwrap();
    // nonce(12) || ciphertext+tag(16+pt.len)
    assert_eq!(blob.len(), 12 + 16 + pt.len());
    let back = dek.decrypt_for_test(&blob).unwrap();
    assert_eq!(back, pt);
}

#[test]
fn fresh_nonce_per_encrypt() {
    let dek = handle(7);
    let a = dek.encrypt(b"same plaintext").unwrap();
    let b = dek.encrypt(b"same plaintext").unwrap();
    assert_ne!(a, b);
    assert_ne!(&a[..12], &b[..12]);
}

#[test]
fn tampered_ciphertext_rejected() {
    let dek = handle(7);
    let mut blob = dek.encrypt(b"sensitive").unwrap();
    let last = blob.len() - 1;
    blob[last] ^= 0x01;
    let err = dek.decrypt_for_test(&blob).unwrap_err();
    assert!(matches!(err, DekError::Encrypt(_)));
}

#[test]
fn aad_separation_blocks_cross_context_decrypt() {
    let dek = handle(7);
    let pt = b"payload";
    let blob = dek.encrypt(pt).unwrap();
    // Decrypt with a different AAD — must fail.
    let cipher = Aes256Gcm::new_from_slice(&fake_dek()).unwrap();
    let nonce = Nonce::from_slice(&blob[..12]);
    let bad = cipher.decrypt(nonce, Payload { msg: &blob[12..], aad: b"different-context" });
    assert!(bad.is_err(), "AAD must be authenticated");
    let good = cipher.decrypt(nonce, Payload { msg: &blob[12..], aad: b"mcpg-payload-source-v1" });
    assert_eq!(good.unwrap(), pt);
}

#[test]
fn version_is_carried() {
    let dek = handle(42);
    assert_eq!(dek.version(), 42);
    assert_eq!(dek.clone().version(), 42);
}

#[test]
fn a_given_nonce_fixes_the_blob() {
    let nonce = [9u8; 12];
    let blob = handle(1).encrypt_with_nonce(&nonce, b"abc").unwrap();
    let cipher = Aes256Gcm::new_from_slice(&fake_dek()).unwrap();
    let ct = cipher
        .encrypt(
            Nonce::from_slice(&nonce),
            Payload { msg: b"abc", aad: b"mcpg-payload-source-v1" },
        )
        .unwrap();
    assert_eq!(&blob[..12], &nonce);
    assert_eq!(&blob[12..], &ct[..]);
}

#[test]
fn a_changed_nonce_or_tag_never_opens() {
    let dek = handle(7);
    let blob = dek.encrypt(b"payload").unwrap();
    let n = blob.len();
    for at in (0..12).chain(n - 16..n) {
        let mut other = blob.clone();
        other[at] ^= 0x80;
        assert!(dek.decrypt_for_test(&other).is_err());
    }
    assert!(dek.decrypt_for_test(&blob[..27]).is_err());
}

#[test]
fn errors_speak_in_words() {
    let err = DekHandle::from_proto(&[0; 31], 1).unwrap_err();
    assert_eq!(err.message(), "payload_dek must be 32 bytes, got 31");
    assert_eq!(DekError::ZeroVersion.message(), "payload_dek_version must be non-zero");
    let err = handle(1).decrypt_for_test(&[0; 11]).unwrap_err();
    assert_eq!(err.message(), "aes-gcm encrypt: blob shorter than nonce");
    let err = handle(1).decrypt_for_test(&[0; 12]).unwrap_err();
    assert_eq!(err.message(), "aes-gcm encrypt: aead::Error");
}
