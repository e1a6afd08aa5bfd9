use aes_gcm::aead::Aead;
use aes_gcm::{Aes256Gcm, KeyInit, Nonce};
use mcpg_control_plane_client::lkg::{
    check_header, decrypt, derive_key, encrypt, encrypt_with_nonce, fresh_node_secret, node_secret,
    LkgError, NodeSecret, FILE_VERSION, HEADER_LEN,
};
use mcpg_control_plane_client::paths::{join, parent};
use mcpg_control_plane_client::time::UtcTime;
use mcpg_control_plane_client::{LkgCache, LkgEntry};

const SECRET: &[u8] = b"machine-1";

/// The document that a cache file seals.
fn envelope(hash: &str, bundle: &[u8]) -> Vec<u8> {
    let entry = LkgEntry::new(hash, bundle.to_vec(), UtcTime::new(1, 0));
    let mut doc = serde_json::Map::new();
    doc.insert("config_hash".to_owned(), serde_json::Value::String(entry.config_hash.clone()));
    doc.insert("bundle_proto".to_owned(), serde_json::Value::String(entry.bundle_text()));
    serde_json::to_vec(&serde_json::Value::Object(doc)).unwrap()
}

#[test]
fn round_trip_save_load() {
    let file = encrypt(&envelope("hash-xyz", b"foo = 1;ps-1"), SECRET).unwrap();
    let plain = decrypt(&file, SECRET).unwrap();
    let doc: serde_json::Value = serde_json::from_slice(&plain).unwrap();
    assert_eq!(doc.get("config_hash").unwrap().as_str(), Some("hash-xyz"));
    let text = doc.get("bundle_proto").unwrap().as_str().unwrap();
    assert_eq!(LkgEntry::bundle_from_text(text).unwrap(), b"foo = 1;ps-1");
}

#[test]
fn ciphertext_does_not_leak_plaintext() {
    let raw = encrypt(b"VERY_DISTINCTIVE_MARKER", SECRET).unwrap();
    assert_eq!(raw[0], FILE_VERSION);
    assert!(raw.len() > 1 + 12);
    // Plaintext marker must not appear anywhere on disk.
    let needle = b"VERY_DISTINCTIVE_MARKER";
    assert!(
        raw.windows(needle.len()).all(|w| w != needle),
        "plaintext leaked into encrypted LKG file"
    );
}

#[test]
fn tamper_detection_rejects_modified_ciphertext() {
    let mut raw = encrypt(&envelope("h", b"foo = 1"), SECRET).unwrap();
    // Flip a bit in the ciphertext region.
    let last = raw.len() - 1;
    raw[last] ^= 0x01;
    assert!(decrypt(&raw, SECRET).is_err(), "tamper should fail decrypt");
}

#[test]
fn a_changed_version_nonce_or_tag_never_opens() {
    let file = encrypt(b"config", SECRET).unwrap();
    let n = file.len();
    for at in [0, 1, 7, 12, n - 16, n - 9, n - 1] {
        for bit in 0..8 {
            let mut other = file.clone();
            other[at] ^= 1 << bit;
            assert!(decrypt(&other, SECRET).is_err());
        }
    }
    assert!(decrypt(&file[..HEADER_LEN + 15], SECRET).is_err());
}

#[test]
fn a_cache_made_by_path_is_the_one_in_its_directory() {
    for dir in ["/var/lib/mcpg", "state", "", "/", ".", "./a", "../b", "a/.."] {
        let usual = LkgCache::in_state_dir(dir);
        let by_path = LkgCache::new(usual.path().to_owned());
        assert_eq!(by_path.path(), usual.path());
        assert_eq!(by_path.state_dir(), usual.state_dir(), "{dir:?}");
        assert_eq!(by_path.secret_path(), usual.secret_path());
    }
    // What names nothing at the end of a directory is left out.
    for (dir, tidy) in [("a/", "a"), ("a/.", "a"), ("a//./", "a"), ("//", "/"), ("./", ".")] {
        let by_path = LkgCache::new(LkgCache::in_state_dir(dir).path().to_owned());
        assert_eq!(by_path.state_dir(), tidy);
    }
}

#[test]
fn a_file_opens_only_with_its_own_secret() {
    let file = encrypt(b"config", SECRET).unwrap();
    assert!(matches!(decrypt(&file, b"machine-2"), Err(LkgError::Decrypt(_))));
}

#[test]
fn the_key_is_derived_by_hkdf() {
    assert_eq!(
        derive_key(SECRET),
        vec![
            99, 56, 8, 48, 164, 184, 30, 244, 17, 226, 224, 87, 133, 73, 105, 11, 7, 45, 123, 124,
            34, 231, 27, 237, 222, 43, 10, 54, 186, 49, 192, 145,
        ]
    );
}

#[test]
fn a_file_is_version_nonce_and_ciphertext() {
    let nonce = [3u8; 12];
    let file = encrypt_with_nonce(b"config", SECRET, &nonce).unwrap();
    let cipher = Aes256Gcm::new_from_slice(&derive_key(SECRET)).unwrap();
    let ct = cipher.encrypt(Nonce::from_slice(&nonce), &b"config"[..]).unwrap();
    assert_eq!(file[0], 1);
    assert_eq!(&file[1..13], &nonce);
    assert_eq!(&file[13..], &ct[..]);
    assert_eq!(decrypt(&file, SECRET).unwrap(), b"config");
}

#[test]
fn two_files_of_the_same_contents_differ() {
    assert_ne!(encrypt(b"config", SECRET).unwrap(), encrypt(b"config", SECRET).unwrap());
}

#[test]
fn a_malformed_file_is_refused_with_its_reason() {
    let words = |file: &[u8]| decrypt(file, SECRET).unwrap_err().message();
    assert_eq!(words(&[]), "LKG file is empty");
    assert_eq!(words(&[7]), "unsupported LKG file version: 7");
    assert_eq!(words(&[255; 40]), "unsupported LKG file version: 255");
    assert_eq!(words(&[1; 12]), "LKG file truncated");
    assert_eq!(words(&[1; HEADER_LEN]), "aes-gcm decrypt (corrupt or wrong key): aead::Error");
    assert_eq!(
        LkgError::Encrypt("aead::Error".to_owned()).message(),
        "aes-gcm encrypt: aead::Error"
    );
}

#[test]
fn a_header_is_checked_without_the_secret() {
    assert!(check_header(&[1; HEADER_LEN]).is_ok());
    assert!(matches!(check_header(&[]), Err(LkgError::Empty)));
    assert!(matches!(check_header(&[0]), Err(LkgError::UnsupportedVersion(0))));
    assert!(matches!(check_header(&[1]), Err(LkgError::Truncated)));
}

#[test]
fn the_machine_id_comes_before_a_kept_secret() {
    match node_secret(Some("  abc\n"), Some(vec![1; 32])) {
        NodeSecret::Known(secret) => assert_eq!(secret, b"abc"),
        NodeSecret::Missing => panic!("expected the machine id"),
    }
    match node_secret(Some(" \u{2003}\n"), Some(vec![1; 32])) {
        NodeSecret::Known(secret) => assert_eq!(secret, vec![1; 32]),
        NodeSecret::Missing => panic!("expected the kept secret"),
    }
}

#[test]
fn a_kept_secret_of_the_wrong_length_is_replaced() {
    assert!(matches!(node_secret(None, Some(vec![1; 31])), NodeSecret::Missing));
    assert!(matches!(node_secret(None, None), NodeSecret::Missing));
    let made = fresh_node_secret();
    assert_eq!(made.len(), 32);
    assert_ne!(made, fresh_node_secret());
    match node_secret(None, Some(made.clone())) {
        NodeSecret::Known(secret) => assert_eq!(secret, made),
        NodeSecret::Missing => panic!("a kept secret stays"),
    }
}

#[test]
fn a_bundle_travels_as_base64() {
    let entry = LkgEntry::new("h", vec![0, 1, 250], UtcTime::new(5, 6));
    assert_eq!(entry.bundle_text(), "AAH6");
    assert_eq!(entry.config_hash, "h");
    assert_eq!(entry.written_at, UtcTime::new(5, 6));
    assert_eq!(LkgEntry::bundle_from_text("AAH6"), Some(vec![0, 1, 250]));
    assert_eq!(LkgEntry::bundle_from_text(""), Some(vec![]));
    assert_eq!(LkgEntry::bundle_from_text("AAH"), None);
    assert_eq!(LkgEntry::bundle_from_text("A-_6"), None);
}

#[test]
fn the_cache_lies_in_the_state_directory() {
    let cache = LkgCache::in_state_dir("/var/lib/mcpg");
    assert_eq!(cache.path(), "/var/lib/mcpg/lkg-config.bin");
    assert_eq!(cache.state_dir(), "/var/lib/mcpg");
    assert_eq!(cache.secret_path(), "/var/lib/mcpg/.node-secret");
    let cache = LkgCache::new("/a/b/c.bin".to_owned());
    assert_eq!(cache.path(), "/a/b/c.bin");
    assert_eq!(cache.state_dir(), "/a/b");
    assert_eq!(LkgCache::new("c.bin".to_owned()).state_dir(), "");
    assert_eq!(LkgCache::new("/".to_owned()).state_dir(), ".");
}

#[test]
fn a_parent_is_what_the_standard_library_finds() {
    for path in [
        "", "/", "//", ".", "..", "a", "a/", "/a", "/a/", "//a", "a/b", "a//b", "a/b/", "a/b//",
        "./a", "a/.", "a/./b", "a/../b", "/.", "/./a", "a/./", "../a", "a//", "//a//b//", "./.",
        "/..", "a/..", ".//a", "é/ü",
    ] {
        let expected = std::path::Path::new(path).parent().map(|p| p.to_str().unwrap().to_owned());
        assert_eq!(parent(path), expected, "{path:?}");
    }
}

#[test]
fn a_joined_path_is_what_the_standard_library_makes() {
    for dir in ["", "/", "a", "a/", "/a/b", "."] {
        for name in ["x", "agent-creds.json"] {
            let expected = std::path::Path::new(dir).join(name);
            assert_eq!(join(dir, name), expected.to_str().unwrap());
        }
    }
}
