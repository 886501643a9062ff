//! The cache of a vault.
use vault::vault_core::enc_string::EncString;
use vault::vault_core::kdf::{derive_master_key, stretch_master_key, KdfParams, KdfType};
use vault::vault_store::{Error, VaultCache};

fn fast_pbkdf2() -> KdfParams {
    KdfParams {
        kind: KdfType::Pbkdf2Sha256,
        iterations: 1_000,
        memory_kib: None,
        parallelism: None,
    }
}

#[test]
fn cache_round_trip_through_disk() {
    let master = derive_master_key(b"password", b"user@example.org", fast_pbkdf2()).unwrap();
    let (enc, mac) = stretch_master_key(&master).unwrap();

    let sync_json = br#"{"Profile":{"Email":"user@example.org"},"Ciphers":[{"Id":"c1"}]}"#;
    let mut cache = VaultCache::new(
        "device-uuid".into(),
        "https://vault.example.org".into(),
        "User@Example.org",
    );
    assert_eq!(cache.email, "user@example.org");
    cache.set_payload(&enc, &mac, sync_json).unwrap();
    assert!(cache.last_sync.is_some());
    assert!(cache.last_sync.as_deref().unwrap().starts_with("20"));
    assert_eq!(cache.schema_version, 2);
    assert!(!cache.payload.as_deref().unwrap().contains("Ciphers"));

    let pt = cache.load_payload(&enc, &mac).unwrap();
    assert_eq!(pt, sync_json);
}

#[test]
fn protected_user_key_and_kdf_round_trip() {
    let mut cache = VaultCache::new("dev".into(), "https://x".into(), "a@b");
    cache.protected_user_key = Some("2.aaa|bbb|ccc".into());
    cache.kdf = Some(fast_pbkdf2());
    let loaded = cache.clone();
    assert_eq!(loaded.protected_user_key.as_deref(), Some("2.aaa|bbb|ccc"));
    assert_eq!(loaded.kdf, Some(fast_pbkdf2()));
}

#[test]
fn cache_without_payload_errs_on_load() {
    let cache = VaultCache::new("dev".into(), "https://x".into(), "a@b");
    let key = [0u8; 32];
    let err = cache.load_payload(&key, &key).unwrap_err();
    assert!(matches!(err, Error::NoPayload));
    assert_eq!(err.message(), "no payload — never synced");
}

#[test]
fn cache_wrong_key_fails_to_decrypt() {
    let master = derive_master_key(b"right", b"user@example.org", fast_pbkdf2()).unwrap();
    let (enc, mac) = stretch_master_key(&master).unwrap();
    let mut cache = VaultCache::new("dev".into(), "https://x".into(), "a@b");
    cache.set_payload(&enc, &mac, b"secret payload").unwrap();
    let bad = [0xFFu8; 32];
    let err = cache.load_payload(&bad, &bad).unwrap_err();
    assert!(matches!(err, Error::Crypto(_)));
    assert_eq!(err.message(), "crypto: MAC verification failed");
}

#[test]
fn a_payload_without_a_time_is_kept() {
    let key = [1u8; 32];
    let iv = [2u8; 16];
    let mut cache = VaultCache::new("dev".into(), "https://x".into(), "a@b");
    assert!(matches!(
        cache.set_payload_with(&key, &key, b"p", None, Ok("t".into())),
        Err(Error::Crypto(vault::vault_core::Error::Random))
    ));
    assert_eq!(cache.payload, None);
    assert_eq!(cache.last_sync, None);
    assert!(matches!(
        cache.set_payload_with(&key, &key, b"p", Some(iv), Err("year out of range".into())),
        Err(Error::Time(m)) if m == "year out of range"
    ));
    let envelope = EncString::encrypt_with_iv(&key, &key, iv, b"p").serialize();
    assert_eq!(cache.payload.as_deref(), Some(envelope.as_str()));
    assert_eq!(cache.last_sync, None);
    cache
        .set_payload_with(&key, &key, b"q", Some(iv), Ok("2026-01-01T00:00:00Z".into()))
        .unwrap();
    assert_eq!(cache.load_payload(&key, &key).unwrap(), b"q");
    assert_eq!(cache.last_sync.as_deref(), Some("2026-01-01T00:00:00Z"));
}

#[test]
fn messages_of_the_cache() {
    assert_eq!(Error::Io("x".into()).message(), "io: x");
    assert_eq!(Error::Json("x".into()).message(), "json: x");
    assert_eq!(Error::NotFound("/p".into()).message(), "cache not found at /p");
    assert_eq!(Error::Path("no parent directory").message(), "path: no parent directory");
    assert_eq!(Error::Time("x".into()).message(), "time: x");
}
