use base64::Engine;
use acer_hybrid::crypto::EncryptionKey;
use acer_hybrid::error::AcerError;
use acer_hybrid::vault::{get_secret, SecretsVault, OPENAI_API_KEY};

fn vault_message(e: AcerError) -> String {
    match e {
        AcerError::Vault(m) => m,
        other => panic!("unexpected error: {:?}", other),
    }
}

fn temp_path(name: &str) -> String {
    let mut p = String::from("acer-vault-test-");
    p.push_str(name);
    p.push_str(".json");
    p
}

#[test]
fn lock_clears_unlock_state() {
    let mut vault = SecretsVault::new(temp_path("lock"));
    vault.unlock("test-password").expect("unlock");
    assert!(vault.is_unlocked());
    vault.lock();
    assert!(!vault.is_unlocked());
}

#[test]
fn stored_secret_reads_back() {
    let mut vault = SecretsVault::new(temp_path("roundtrip"));
    vault.unlock("pw").unwrap();
    vault.store(OPENAI_API_KEY, "sk-test-123").unwrap();
    assert_eq!(vault.get(OPENAI_API_KEY).unwrap(), Some("sk-test-123".to_string()));
    assert!(vault.has_secret(OPENAI_API_KEY));
    assert_eq!(vault.list_keys(), vec![OPENAI_API_KEY]);
    let stored = vault.secrets().get(OPENAI_API_KEY).unwrap();
    assert_ne!(stored.value, "sk-test-123");
}

#[test]
fn replacing_keeps_creation_time() {
    let mut vault = SecretsVault::new(temp_path("replace"));
    vault.unlock("pw").unwrap();
    vault.store("k", "one").unwrap();
    let created = vault.secrets().get("k").unwrap().created_at;
    vault.store("k", "two").unwrap();
    assert_eq!(vault.secrets().get("k").unwrap().created_at, created);
    assert_eq!(vault.get("k").unwrap(), Some("two".to_string()));
}

#[test]
fn missing_secret_is_none() {
    let mut vault = SecretsVault::new(temp_path("missing"));
    vault.unlock("pw").unwrap();
    assert_eq!(vault.get("nope").unwrap(), None);
}

#[test]
fn locked_vault_refuses() {
    let mut vault = SecretsVault::new(temp_path("locked"));
    assert_eq!(vault_message(vault.store("k", "v").unwrap_err()), "Vault is locked");
    assert_eq!(vault_message(vault.get("k").unwrap_err()), "Vault is locked");
    assert_eq!(vault_message(vault.rotate_key("new").unwrap_err()), "Vault is locked");
}

#[test]
fn a_different_password_cannot_read() {
    let mut vault = SecretsVault::new(temp_path("wrongpw"));
    vault.unlock("right").unwrap();
    vault.store("k", "v").unwrap();
    vault.lock();
    vault.unlock("wrong").unwrap();
    let m = vault_message(vault.get("k").unwrap_err());
    assert_eq!(m, "Decryption failed: ring::error::Unspecified");
}

#[test]
fn delete_removes() {
    let mut vault = SecretsVault::new(temp_path("delete"));
    vault.unlock("pw").unwrap();
    vault.store("k", "v").unwrap();
    assert!(vault.delete("k"));
    assert!(!vault.delete("k"));
    assert!(!vault.has_secret("k"));
}

#[test]
fn rotation_keeps_every_secret() {
    let mut vault = SecretsVault::new(temp_path("rotate"));
    vault.unlock("old").unwrap();
    vault.store("a", "alpha").unwrap();
    vault.store("b", "beta").unwrap();
    let old_salt = vault.salt().to_string();
    vault.rotate_key("new").unwrap();
    assert_ne!(vault.salt(), old_salt);
    assert_eq!(vault.get("a").unwrap(), Some("alpha".to_string()));
    assert_eq!(vault.get("b").unwrap(), Some("beta".to_string()));
    vault.lock();
    vault.unlock("new").unwrap();
    assert_eq!(vault.get("a").unwrap(), Some("alpha".to_string()));
    vault.lock();
    vault.unlock("old").unwrap();
    assert!(vault.get("a").is_err());
}

#[test]
fn reopened_vault_reads_with_same_password() {
    let mut vault = SecretsVault::new(temp_path("reopen"));
    vault.unlock("pw").unwrap();
    vault.store("k", "value").unwrap();
    let copy = SecretsVault::from_parts(
        {
            let mut m = acer_hybrid::keyed_map::KeyedMap::new();
            let s = vault.secrets().get("k").unwrap();
            m.insert(
                "k".to_string(),
                acer_hybrid::vault::Secret {
                    key: s.key.clone(),
                    value: s.value.clone(),
                    created_at: s.created_at,
                    updated_at: s.updated_at,
                    metadata: s.metadata.duplicate(),
                },
            );
            m
        },
        vault.salt().to_string(),
        vault.path().to_string(),
    );
    let mut copy = copy;
    assert!(!copy.is_unlocked());
    copy.unlock("pw").unwrap();
    assert_eq!(copy.get("k").unwrap(), Some("value".to_string()));
}

#[test]
fn bad_salt_is_reported() {
    let mut vault = SecretsVault::from_parts(acer_hybrid::keyed_map::KeyedMap::new(), "***".to_string(), "p".to_string());
    let m = vault_message(vault.unlock("pw").unwrap_err());
    assert!(m.starts_with("Invalid vault salt: "));
    assert!(!vault.is_unlocked());
}

#[test]
fn runtime_secret_lookup() {
    assert_eq!(get_secret(&None, "k").unwrap(), None);
    let mut vault = SecretsVault::new(temp_path("runtime"));
    vault.unlock("pw").unwrap();
    vault.store("k", "v").unwrap();
    vault.lock();
    let v = Some(vault);
    assert_eq!(
        vault_message(get_secret(&v, "k").unwrap_err()),
        "Vault contains 'k' but is locked. Set ACER_VAULT_PASSWORD or unlock interactively."
    );
    assert_eq!(get_secret(&v, "other").unwrap(), None);
}

#[test]
fn encryption_round_trips() {
    let key = EncryptionKey::from_password("pw", Some(b"0123456789abcdef"));
    let blob = key.encrypt(b"hello").unwrap();
    assert_eq!(blob.len(), 5 + 12 + 16);
    assert_eq!(key.decrypt(&blob).unwrap(), b"hello".to_vec());
    let again = key.encrypt(b"hello").unwrap();
    assert_ne!(blob, again);
}

#[test]
fn same_password_and_salt_give_the_same_key() {
    let a = EncryptionKey::from_password("pw", Some(b"salt-salt-salt!!"));
    let b = EncryptionKey::from_password("pw", Some(b"salt-salt-salt!!"));
    let blob = a.encrypt(b"x").unwrap();
    assert_eq!(b.decrypt(&blob).unwrap(), b"x".to_vec());
}

#[test]
fn tampered_or_short_blobs_fail() {
    let key = EncryptionKey::generate();
    let mut blob = key.encrypt(b"secret").unwrap();
    let last = blob.len() - 1;
    blob[last] ^= 1;
    assert_eq!(vault_message(key.decrypt(&blob).unwrap_err()), "Decryption failed: ring::error::Unspecified");
    assert_eq!(vault_message(key.decrypt(&[0u8; 27]).unwrap_err()), "Ciphertext too short");
}

#[test]
fn hash_is_sha256_hex() {
    assert_eq!(
        EncryptionKey::hash("abc"),
        "ba7816bf8f01cfea414140de5dae2223b00361a396177a9cb410ff61f20015ad"
    );
}

#[test]
fn secret_that_is_not_utf8_is_reported() {
    let key = EncryptionKey::from_password("pw", Some(b"0123456789abcdef"));
    let blob = key.encrypt(&[0xff, 0xfe, 0x41]).unwrap();
    let encoded = base64::engine::general_purpose::STANDARD.encode(&blob);
    let mut secrets = acer_hybrid::keyed_map::KeyedMap::new();
    let at = acer_hybrid::vault::Timestamp { seconds: 0, nanos: 0 };
    secrets.insert(
        "bin".to_string(),
        acer_hybrid::vault::Secret {
            key: "bin".to_string(),
            value: encoded,
            created_at: at,
            updated_at: at,
            metadata: acer_hybrid::keyed_map::KeyedMap::new(),
        },
    );
    let mut vault = SecretsVault::from_parts(
        secrets,
        base64::engine::general_purpose::STANDARD.encode(b"0123456789abcdef"),
        temp_path("binary"),
    );
    vault.unlock("pw").unwrap();
    let m = vault_message(vault.get("bin").unwrap_err());
    assert!(m.starts_with("Invalid UTF-8 in secret: "));
}
