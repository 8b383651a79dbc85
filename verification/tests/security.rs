use acerola::security::{
    decrypt, encrypt, get_or_create_master_key, key_from_stored, keyring_plan, ComicError,
    KeyringPlan, MasterKeySource, SecretRead, MASTER_KEY_LEN,
};

#[test]
fn encrypt_decrypt_roundtrip_returns_original_plaintext() {
    let key = [7u8; MASTER_KEY_LEN];
    let plaintext = b"acerola p2p identity seed material";

    let ciphertext = encrypt(&key, plaintext);
    assert_ne!(ciphertext, plaintext, "ciphertext should not equal plaintext");

    let decrypted = decrypt(&key, &ciphertext).unwrap();
    assert_eq!(decrypted, plaintext);
}

#[test]
fn encrypt_is_non_deterministic_due_to_random_nonce() {
    let key = [3u8; MASTER_KEY_LEN];
    let plaintext = b"same input, different ciphertext each time";

    let first = encrypt(&key, plaintext);
    let second = encrypt(&key, plaintext);

    assert_ne!(first, second, "two encryptions of the same plaintext must differ (random nonce)");
}

#[test]
fn decrypt_with_wrong_key_fails() {
    let key_a = [1u8; MASTER_KEY_LEN];
    let key_b = [2u8; MASTER_KEY_LEN];
    let ciphertext = encrypt(&key_a, b"secret");

    assert!(decrypt(&key_b, &ciphertext).is_err());
}

#[test]
fn decrypt_rejects_truncated_blob() {
    let key = [9u8; MASTER_KEY_LEN];
    assert!(decrypt(&key, b"short").is_err());
}

#[test]
fn encrypted_blobs_carry_nonce_and_tag() {
    let key = [4u8; MASTER_KEY_LEN];
    assert_eq!(encrypt(&key, b"").len(), 12 + 16);
    assert_eq!(encrypt(&key, b"hello").len(), 12 + 5 + 16);
    assert_eq!(
        decrypt(&key, b"short"),
        Err(ComicError::SystemFailure("encrypted blob too short to contain a nonce".into()))
    );
    let mut blob = encrypt(&key, b"hello");
    let last = blob.len() - 1;
    blob[last] ^= 1;
    assert_eq!(
        decrypt(&key, &blob),
        Err(ComicError::SystemFailure("failed to decrypt blob: wrong key or corrupted data".into()))
    );
}

#[test]
fn a_stored_key_of_the_right_length_is_reused() {
    let stored = vec![5u8; 32];
    let (key, fresh) = key_from_stored(Some(stored));
    assert_eq!(key, [5u8; 32]);
    assert!(!fresh);
    let (_, fresh) = key_from_stored(Some(vec![1, 2, 3]));
    assert!(fresh);
    let (_, fresh) = key_from_stored(None);
    assert!(fresh);
}

#[test]
fn keyring_reads_decide_between_use_store_and_fallback() {
    assert_eq!(keyring_plan(SecretRead::Found(vec![8u8; 32])), KeyringPlan::Use([8u8; 32]));
    assert!(matches!(keyring_plan(SecretRead::Found(vec![8u8; 3])), KeyringPlan::Store(_)));
    assert!(matches!(keyring_plan(SecretRead::NoEntry), KeyringPlan::Store(_)));
    assert_eq!(
        keyring_plan(SecretRead::Failed("no backend".into())),
        KeyringPlan::Unavailable("no backend".into())
    );
}

#[test]
fn the_master_key_falls_back_to_the_file_only_without_a_keyring() {
    let from_keyring = get_or_create_master_key(Ok([1u8; 32]), || -> Result<[u8; 32], ComicError> {
        panic!("fallback must not be read when the keyring answered")
    });
    assert_eq!(from_keyring, Ok(([1u8; 32], MasterKeySource::Keyring)));
    let from_file = get_or_create_master_key(Err("no keyring".into()), || Ok([2u8; 32]));
    assert_eq!(from_file, Ok(([2u8; 32], MasterKeySource::FallbackFile)));
    let failed = get_or_create_master_key(Err("no keyring".into()), || {
        Err(ComicError::SystemFailure("failed to create data dir".into()))
    });
    assert_eq!(failed, Err(ComicError::SystemFailure("failed to create data dir".into())));
}
