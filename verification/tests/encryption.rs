use librechat_core::database::encryption::{
    EncryptionError, EncryptionManager, StoredSecret, KEY_LENGTH, NONCE_LENGTH, TAG_LENGTH,
};

fn manager() -> EncryptionManager {
    EncryptionManager::new("chat-desktop", "cache-key")
}

fn hex(bytes: &[u8]) -> String {
    let mut out = String::new();
    for byte in bytes {
        out.push_str(&format!("{:02x}", byte));
    }
    out
}

#[test]
fn manager_keeps_its_address() {
    let m = manager();
    assert_eq!(m.service(), "chat-desktop");
    assert_eq!(m.account(), "cache-key");
    let copy = m.clone();
    assert_eq!(copy.service(), "chat-desktop");
    assert_eq!(copy.account(), "cache-key");
}

#[test]
fn round_trip_gives_the_plaintext_back() {
    let m = manager();
    let key = [7u8; KEY_LENGTH];
    let inputs: [&[u8]; 4] = [b"", b"a", b"hello world", &[0u8; 1000]];
    for plaintext in inputs {
        let blob = m.encrypt(&key, plaintext).unwrap();
        assert_eq!(blob.len(), NONCE_LENGTH + plaintext.len() + TAG_LENGTH);
        assert_eq!(m.decrypt(&key, &blob).unwrap(), plaintext);
    }
}

#[test]
fn nonces_do_not_repeat() {
    let m = manager();
    let key = [1u8; KEY_LENGTH];
    let mut seen = std::collections::HashSet::new();
    for _ in 0..10_000 {
        let blob = m.encrypt(&key, b"same plaintext").unwrap();
        let nonce = blob[..NONCE_LENGTH].to_vec();
        assert!(seen.insert(nonce));
    }
}

#[test]
fn a_flipped_byte_fails_authentication() {
    let m = manager();
    let key = [9u8; KEY_LENGTH];
    let blob = m.encrypt(&key, b"tamper with me").unwrap();
    for i in 0..blob.len() {
        let mut tampered = blob.clone();
        tampered[i] ^= 0x01;
        assert_eq!(m.decrypt(&key, &tampered), Err(EncryptionError::AuthenticationFailure));
    }
    assert_eq!(m.decrypt(&key, &blob).unwrap(), b"tamper with me");
}

#[test]
fn another_key_fails_authentication() {
    let m = manager();
    let blob = m.encrypt(&[1u8; KEY_LENGTH], b"secret").unwrap();
    assert_eq!(m.decrypt(&[2u8; KEY_LENGTH], &blob), Err(EncryptionError::AuthenticationFailure));
}

#[test]
fn a_blob_shorter_than_a_nonce_is_invalid() {
    let m = manager();
    let key = [0u8; KEY_LENGTH];
    assert_eq!(m.decrypt(&key, &[]), Err(EncryptionError::InvalidCiphertext));
    assert_eq!(m.decrypt(&key, &[0u8; 11]), Err(EncryptionError::InvalidCiphertext));
    assert_eq!(m.decrypt(&key, &[0u8; 12]), Err(EncryptionError::AuthenticationFailure));
    assert_eq!(m.decrypt(&key, &[0u8; 27]), Err(EncryptionError::AuthenticationFailure));
}

#[test]
fn sealing_under_a_given_nonce_matches_the_published_vectors() {
    let m = manager();
    let key = [0u8; KEY_LENGTH];
    let nonce = [0u8; NONCE_LENGTH];
    let empty = m.encrypt_with_nonce(&key, &nonce, b"").unwrap();
    assert_eq!(hex(&empty[..NONCE_LENGTH]), "000000000000000000000000");
    assert_eq!(hex(&empty[NONCE_LENGTH..]), "530f8afbc74536b9a963b4f1c4cb738b");
    let block = m.encrypt_with_nonce(&key, &nonce, &[0u8; 16]).unwrap();
    assert_eq!(
        hex(&block[NONCE_LENGTH..]),
        "cea7403d4d606b6e074ec5d3baf39d18d0d1c8a799996bf0265b98b5d48ab919"
    );
    assert_eq!(m.decrypt(&key, &block).unwrap(), vec![0u8; 16]);
}

#[test]
fn sealing_under_a_given_nonce_is_repeatable() {
    let m = manager();
    let key = [3u8; KEY_LENGTH];
    let nonce = [5u8; NONCE_LENGTH];
    let a = m.encrypt_with_nonce(&key, &nonce, b"payload").unwrap();
    let b = m.encrypt_with_nonce(&key, &nonce, b"payload").unwrap();
    assert_eq!(a, b);
    assert_eq!(&a[..NONCE_LENGTH], &nonce);
    assert_ne!(&a[NONCE_LENGTH..NONCE_LENGTH + 7], b"payload");
}

#[test]
fn a_stored_secret_is_read_as_the_key() {
    let m = manager();
    let secret = "AAAAAAAAAAAAAAAAAAAAAAAAAAAAAAAAAAAAAAAAAAA=";
    assert_eq!(m.decode_stored_key(secret), Ok([0u8; KEY_LENGTH]));
    let fetched = m.fetch_or_generate_key(&StoredSecret::Found(secret.to_string())).unwrap();
    assert_eq!(fetched.key, [0u8; KEY_LENGTH]);
    assert_eq!(fetched.persist, None);
}

#[test]
fn a_stored_secret_that_is_no_key_is_refused() {
    let m = manager();
    assert_eq!(
        m.decode_stored_key("not base64!"),
        Err(EncryptionError::KeyFormat("failed to decode stored encryption key"))
    );
    assert_eq!(
        m.decode_stored_key("AAAA"),
        Err(EncryptionError::KeyFormat("stored encryption key has invalid length"))
    );
    assert_eq!(
        m.decode_stored_key(""),
        Err(EncryptionError::KeyFormat("stored encryption key has invalid length"))
    );
    assert_eq!(
        m.fetch_or_generate_key(&StoredSecret::Found("AAAA".to_string())).unwrap_err(),
        EncryptionError::KeyFormat("stored encryption key has invalid length")
    );
}

#[test]
fn a_generated_key_comes_with_the_secret_that_reads_back_as_it() {
    let m = manager();
    let made = m.fetch_or_generate_key(&StoredSecret::Absent).unwrap();
    let secret = made.persist.clone().unwrap();
    assert_eq!(secret.len(), 44);
    assert_eq!(m.decode_stored_key(&secret), Ok(made.key));
    let again = m.fetch_or_generate_key(&StoredSecret::Found(secret)).unwrap();
    assert_eq!(again.key, made.key);
    assert_eq!(again.persist, None);
    let other = m.fetch_or_generate_key(&StoredSecret::Absent).unwrap();
    assert_ne!(other.key, made.key);
}

#[test]
fn drawn_bytes_become_the_key_and_its_secret() {
    let m = manager();
    let zeros = m.generated_key([0u8; KEY_LENGTH]);
    assert_eq!(zeros.key, [0u8; KEY_LENGTH]);
    assert_eq!(zeros.persist.as_deref(), Some("AAAAAAAAAAAAAAAAAAAAAAAAAAAAAAAAAAAAAAAAAAA="));
    let mut drawn = [0u8; KEY_LENGTH];
    for (i, byte) in drawn.iter_mut().enumerate() {
        *byte = (i * 7 + 3) as u8;
    }
    let made = m.generated_key(drawn);
    assert_eq!(made.key, drawn);
    let secret = made.persist.unwrap();
    assert_eq!(m.decode_stored_key(&secret), Ok(drawn));
    assert_eq!(m.fetch_or_generate_key(&StoredSecret::Found(secret)).unwrap().key, drawn);
}

#[test]
fn an_unreachable_store_is_a_key_access_error_and_makes_no_key() {
    let m = manager();
    assert_eq!(
        m.fetch_or_generate_key(&StoredSecret::Unreachable("keychain locked".to_string()))
            .unwrap_err(),
        EncryptionError::KeyAccess("keychain locked".to_string())
    );
}

#[test]
fn encryption_errors_in_words() {
    assert_eq!(EncryptionError::KeyAccess("store locked".to_string()).message(), "store locked");
    assert_eq!(EncryptionError::KeyFormat("bad").message(), "bad");
    assert_eq!(EncryptionError::RandomSource.message(), "random source unavailable");
    assert_eq!(EncryptionError::EncryptionFailure.message(), "encryption failure");
    assert_eq!(
        EncryptionError::InvalidCiphertext.message(),
        "ciphertext too short to contain nonce"
    );
    assert_eq!(EncryptionError::AuthenticationFailure.message(), "decryption failure");
}
