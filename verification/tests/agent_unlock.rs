//! Unlocking.
use vault::clock::{
    days_to_ymd, iso_reading, iso_time, now_iso, now_unix, seconds_or_zero,
};
use vault::vault_agent::online::{
    begin_unlock, begin_unlock_with, choose_grant, perform_unlock, Grant,
};
use vault::vault_agent::session::SessionBlob;
use vault::vault_agent::state::AgentState;
use vault::vault_agent::unlock::{
    account_dir_name, api_err, apikey_status, apikey_to_store, build_org_keys, cache_dir,
    cached_payload, ciphers_and_folders, network_err, pin_attempt, pin_disable,
    pin_protect_user_key, pin_status, recover_user_key, unlock_from_cache, unlock_pin,
    vault_from_user_key, KeyRecover, MAX_PIN_ATTEMPTS,
};
use vault::vault_api::client::Body;
use vault::vault_api::identity::{PreloginResponse, TokenResponse};
use vault::vault_api::sync::{SyncFolder, SyncResponse};
use vault::vault_core::cipher::Cipher;
use vault::vault_core::enc_string::EncString;
use vault::vault_core::kdf::{derive_master_key, stretch_master_key, KdfParams, KdfType};
use vault::vault_ipc::proto::{ApiKeyCreds, Error, TwoFactorCode};
use vault::vault_store::VaultCache;

fn enc_str(enc: &[u8; 32], mac: &[u8; 32], plain: &str) -> String {
    EncString::encrypt(enc, mac, plain.as_bytes()).unwrap().serialize()
}

fn kdf() -> KdfParams {
    KdfParams {
        kind: KdfType::Pbkdf2Sha256,
        iterations: 1_000,
        memory_kib: None,
        parallelism: None,
    }
}

fn sync_with(ciphers: Vec<Option<Cipher>>, folders: Vec<SyncFolder>) -> SyncResponse {
    SyncResponse {
        private_key: None,
        organizations: vec![],
        folders,
        ciphers,
    }
}

fn named(id: &str, cipher_type: u8, enc: &[u8; 32], mac: &[u8; 32], name: &str) -> Option<Cipher> {
    Some(Cipher {
        id: id.into(),
        cipher_type,
        name: Some(enc_str(enc, mac, name)),
        ..Cipher::default()
    })
}

fn folder(id: Option<&str>, name: Option<String>) -> SyncFolder {
    SyncFolder {
        id: id.map(str::to_owned),
        name,
    }
}

/// The user key in an envelope that the master password opens.
fn protected(email: &str, password: &[u8], enc: &[u8; 32], mac: &[u8; 32]) -> String {
    let master = derive_master_key(password, email.as_bytes(), kdf()).unwrap();
    let (se, sm) = stretch_master_key(&master).unwrap();
    let mut key = enc.to_vec();
    key.extend_from_slice(mac);
    EncString::encrypt(&se, &sm, &key).unwrap().serialize()
}

fn seeded_pin_cache(email: &str, enc: &[u8; 32], mac: &[u8; 32], pin: &[u8]) -> VaultCache {
    let mut cache = VaultCache::new("dev".into(), "https://x".into(), email);
    cache.set_payload(enc, mac, b"{}").unwrap();
    cache.kdf = Some(kdf());
    cache.pin_protected_user_key =
        Some(pin_protect_user_key(email, kdf(), enc, mac, pin).unwrap());
    cache
}

#[test]
fn ciphers_and_folders_decodes_typed_views() {
    let enc = [1u8; 32];
    let mac = [2u8; 32];
    let sync = sync_with(
        vec![
            named("c1", 1, &enc, &mac, "github.com"),
            named("c2", 2, &enc, &mac, "note"),
        ],
        vec![folder(Some("fid-1"), Some(enc_str(&enc, &mac, "Work")))],
    );
    let (ciphers, folders) = ciphers_and_folders(&sync, &enc, &mac);
    assert_eq!(ciphers.len(), 2);
    assert_eq!(ciphers[0].id, "c1");
    assert_eq!(
        ciphers[0].decrypt_name(&enc, &mac).unwrap().as_deref(),
        Some("github.com")
    );
    assert_eq!(folders.get("fid-1").map(String::as_str), Some("Work"));
}

#[test]
fn ciphers_and_folders_skips_malformed_folder_entries() {
    let enc = [3u8; 32];
    let mac = [4u8; 32];
    let sync = sync_with(
        vec![],
        vec![
            folder(Some("fid-missing-name"), None),
            folder(Some("fid-bad"), Some("not-an-encstring".into())),
            folder(None, Some(enc_str(&enc, &mac, "no id"))),
        ],
    );
    let (ciphers, folders) = ciphers_and_folders(&sync, &enc, &mac);
    assert!(ciphers.is_empty());
    assert!(folders.is_empty());
    assert!(build_org_keys(&sync, &enc, &mac).is_empty());
}

#[test]
fn unlock_from_cache_recovers_offline_and_rejects_wrong_password() {
    let email = "user@example.org";
    let user_enc = [7u8; 32];
    let user_mac = [9u8; 32];
    let sync_bytes = b"the answer of the server";
    let mut cache = VaultCache::new("dev".into(), "https://x".into(), email);
    cache.set_payload(&user_enc, &user_mac, sync_bytes).unwrap();
    cache.protected_user_key = Some(protected(email, b"hunter2", &user_enc, &user_mac));
    cache.kdf = Some(kdf());
    cache.refresh_token = Some(enc_str(&user_enc, &user_mac, "my-refresh-token"));

    let keys = unlock_from_cache(&cache, email, b"hunter2").unwrap();
    assert_eq!(cached_payload(&cache, &keys.0, &keys.1).unwrap(), sync_bytes);
    let sync = sync_with(vec![named("c1", 1, &user_enc, &user_mac, "github.com")], vec![]);
    let vault = vault_from_user_key(&cache, "https://x", email, keys, Ok(sync))
        .ok()
        .unwrap();
    assert!(vault.client.is_none(), "offline session has no token");
    assert_eq!(
        vault.refresh_token.as_deref(),
        Some("my-refresh-token"),
        "refresh token recovered from cache"
    );
    assert_eq!(vault.ciphers.len(), 1);
    assert_eq!(
        vault.ciphers[0]
            .decrypt_name(&user_enc, &user_mac)
            .unwrap()
            .as_deref(),
        Some("github.com")
    );
    assert!(
        matches!(
            unlock_from_cache(&cache, email, b"wrong"),
            Err(Error::BadPassword)
        ),
        "wrong password must be rejected"
    );
    assert!(matches!(
        vault_from_user_key(&cache, "https://x", email, keys, Err("bad json".into())),
        Err(Error::Internal(m)) if m == "parse cached vault: bad json"
    ));
    assert!(matches!(
        cached_payload(&cache, &[0u8; 32], &[0u8; 32]),
        Err(Error::Internal(m)) if m == "decrypt cached vault: crypto: MAC verification failed"
    ));
    cache.kdf = None;
    assert!(matches!(
        recover_user_key(&cache, email, b"hunter2", "x"),
        Err(KeyRecover::Internal(_))
    ));
    cache.protected_user_key = None;
    assert!(matches!(
        unlock_from_cache(&cache, email, b"hunter2"),
        Err(Error::Internal(m)) if m == "cached account has no protected user key"
    ));
}

#[test]
fn pin_attempt_recovers_resets_counts_and_locks_out() {
    let email = "user@example.org";
    let user_enc = [7u8; 32];
    let user_mac = [9u8; 32];
    let mut cache = seeded_pin_cache(email, &user_enc, &user_mac, b"1234");

    let keys = pin_attempt(&mut cache, email, b"1234").unwrap();
    assert_eq!(keys, (user_enc, user_mac));
    let sync = sync_with(vec![named("c1", 1, &user_enc, &user_mac, "github.com")], vec![]);
    let vault = vault_from_user_key(&cache, "https://x", email, keys, Ok(sync))
        .ok()
        .unwrap();
    assert!(vault.client.is_none());
    assert_eq!(vault.ciphers.len(), 1);

    for expected in [4u32, 3] {
        assert!(matches!(
            pin_attempt(&mut cache, email, b"0000"),
            Err(Error::BadPin { attempts_remaining }) if attempts_remaining == expected
        ));
    }
    assert_eq!(cache.pin_failures, 2);
    assert_eq!(pin_status(&Some(cache.clone())).attempts_remaining, 3);

    pin_attempt(&mut cache, email, b"1234").unwrap();
    assert_eq!(cache.pin_failures, 0);

    let mut last = Err(Error::PinNotSet);
    for _ in 0..MAX_PIN_ATTEMPTS {
        last = pin_attempt(&mut cache, email, b"0000");
    }
    assert!(matches!(last, Err(Error::PinLockedOut)));
    assert_eq!(cache.pin_protected_user_key, None, "pin key wiped on lockout");
    assert!(matches!(
        pin_attempt(&mut cache, email, b"1234"),
        Err(Error::PinLockedOut)
    ));
    let status = pin_status(&Some(cache.clone()));
    assert!(!status.enabled);
    assert_eq!(status.attempts_remaining, 0);
    // Forgetting the PIN clears the count.
    let cache = pin_disable(Some(cache)).unwrap();
    assert!(pin_disable(None).is_none());
    assert_eq!(cache.pin_failures, 0);
    assert_eq!(pin_status(&None).attempts_remaining, MAX_PIN_ATTEMPTS);
}

#[test]
fn a_pin_unlocks_the_cache_that_there_is() {
    let email = "user@example.org";
    let cache = seeded_pin_cache(email, &[7u8; 32], &[9u8; 32], b"1234");
    let (kept, keys) = unlock_pin(Some(cache), email, b"0000");
    assert!(matches!(keys, Err(Error::BadPin { attempts_remaining: 4 })));
    assert_eq!(kept.as_ref().unwrap().pin_failures, 1);
    let (kept, keys) = unlock_pin(kept, email, b"1234");
    assert_eq!(keys.unwrap(), ([7u8; 32], [9u8; 32]));
    assert_eq!(kept.unwrap().pin_failures, 0);
    let (kept, keys) = unlock_pin(None, email, b"1234");
    assert!(kept.is_none() && matches!(keys, Err(Error::PinNotSet)));
}

#[test]
fn accounts_have_directories_of_their_own() {
    let data = Some("/data/vault".to_owned());
    assert_eq!(
        cache_dir(&data, "https://h", "A@b").as_deref(),
        Some("/data/vault/h_a_b")
    );
    assert_eq!(cache_dir(&None, "https://h", "A@b"), None);
}

#[test]
fn pin_attempt_without_enrolled_pin_is_pin_not_set() {
    let mut cache = VaultCache::new("dev".into(), "https://x".into(), "u@e.org");
    cache.kdf = Some(kdf());
    assert!(matches!(
        pin_attempt(&mut cache, "u@e.org", b"1234"),
        Err(Error::PinNotSet)
    ));
}

#[test]
fn a_pin_is_enrolled_from_an_unlocked_agent() {
    let email = "user@example.org";
    let enc = [7u8; 32];
    let mac = [9u8; 32];
    let mut cache = VaultCache::new("dev".into(), "https://x".into(), email);
    cache.kdf = Some(kdf());
    cache.pin_failures = 3;
    let mut s = AgentState::new(900, 0);
    assert!(matches!(
        s.pin_enroll(b"1234", Some(cache.clone())),
        Err(Error::Locked)
    ));
    let v = vault_from_user_key(&cache, "https://x", email, (enc, mac), Ok(sync_with(vec![], vec![])))
        .ok()
        .unwrap();
    s.vault = Some(v);
    assert!(matches!(
        s.pin_enroll(b"1234", None),
        Err(Error::Internal(m)) if m == "no cached vault — unlock online before setting a PIN"
    ));
    assert!(matches!(
        s.pin_enroll_with(b"1234", Some(cache.clone()), None),
        Err(Error::Internal(m)) if m == "crypto: OS RNG must be available"
    ));
    let one = s.pin_enroll_with(b"1234", Some(cache.clone()), Some([1u8; 16])).unwrap();
    let same = s.pin_enroll_with(b"1234", Some(cache.clone()), Some([1u8; 16])).unwrap();
    assert_eq!(one.pin_protected_user_key, same.pin_protected_user_key);
    let mut enrolled = s.pin_enroll(b"1234", Some(cache)).unwrap();
    assert_ne!(one.pin_protected_user_key, enrolled.pin_protected_user_key);
    assert_eq!(enrolled.pin_failures, 0);
    assert_eq!(pin_attempt(&mut enrolled, " User@Example.org ", b"1234").unwrap(), (enc, mac));
}

#[test]
fn account_dir_name_is_filesystem_safe_and_distinct() {
    let a = account_dir_name("https://vault.example.org", "Me@Example.org");
    assert_eq!(a, "vault.example.org_me_example.org");
    let b = account_dir_name("https://other.example.org/", "me@example.org");
    assert_ne!(a, b);
    let c = account_dir_name("https://h/x?y", "a/b c");
    assert!(
        !c.contains('/') && !c.contains(' ') && !c.contains('?'),
        "{c}"
    );
    assert_eq!(account_dir_name("http://h//", "A"), "h_a");
    assert_eq!(account_dir_name("h", "É"), "h__");
}

#[test]
fn an_online_login_ends_in_a_vault() {
    let email = "user@example.org";
    let user_enc = [7u8; 32];
    let user_mac = [9u8; 32];
    let device = Some("11111111-2222-3333-4444-555555555555".to_owned());
    let code = Some(TwoFactorCode {
        token: "123456".into(),
    });
    let start = begin_unlock(
        "https://vault.example.org",
        " User@Example.org",
        b"hunter2".to_vec(),
        &device,
        choose_grant(None, None),
        code,
    )
    .ok()
    .unwrap();
    assert_eq!(start.email, email);
    assert!(start.prelogin().is_ok());
    let pre = PreloginResponse {
        kdf: 0,
        kdf_iterations: 1_000,
        kdf_memory: None,
        kdf_parallelism: None,
    };
    let mut keyed = start.after_prelogin(Ok(pre)).ok().unwrap();
    match keyed.login().ok().unwrap().body {
        Body::Form(f) => assert_eq!(f[8], ("twoFactorToken".to_owned(), "123456".to_owned())),
        other => panic!("expected a form, got {other:?}"),
    }
    let token = TokenResponse {
        access_token: "abc".into(),
        expires_in: 3600,
        token_type: "Bearer".into(),
        refresh_token: Some("rt".into()),
        key: Some(protected(email, b"hunter2", &user_enc, &user_mac)),
        private_key: None,
    };
    let reply = keyed
        .start
        .client
        .login_password_reply(200, Ok(token), String::new(), None);
    let opened = keyed.after_login(reply).ok().unwrap();
    assert_eq!(opened.user, (user_enc, user_mac));
    assert!(opened.sync().is_ok());
    let sync = sync_with(vec![named("c1", 1, &user_enc, &user_mac, "github.com")], vec![]);
    let v = opened.after_sync(Ok(sync), Some("now".into())).ok().unwrap();
    assert_eq!(v.email, email);
    assert_eq!(v.device_id, "11111111-2222-3333-4444-555555555555");
    assert_eq!(v.refresh_token.as_deref(), Some("rt"));
    assert_eq!(v.last_sync.as_deref(), Some("now"));
    assert_eq!(v.ciphers.len(), 1);
    assert!(v.client.as_ref().unwrap().is_authenticated());

    // Without randomness or without the time there is no cache.
    let stamp = || Ok("now".to_owned());
    let iv = Some([1u8; 16]);
    for (got, why) in [
        (v.persist_cache_with(&None, b"a", None, iv, stamp()), "crypto: OS RNG must be available"),
        (v.persist_cache_with(&None, b"a", iv, None, stamp()), "OS RNG must be available"),
        (v.persist_cache_with(&None, b"a", iv, iv, Err("y".into())), "time: y"),
    ] {
        assert!(matches!(
            got,
            Err(Error::Internal(m)) if m == format!("encrypt cache: {why}")
        ));
    }
    let cache = v.persist_cache_with(&None, b"a", iv, iv, stamp()).unwrap();
    let envelope = EncString::encrypt_with_iv(&user_enc, &user_mac, [1u8; 16], b"rt").serialize();
    assert_eq!(cache.refresh_token.as_deref(), Some(envelope.as_str()));
    assert_eq!(cache.last_sync.as_deref(), Some("now"));

    // A PIN outlives the sync, with its count.
    let mut old = seeded_pin_cache(email, &user_enc, &user_mac, b"1234");
    assert!(pin_attempt(&mut old, email, b"0000").is_err());
    let mut kept = v.persist_cache(&Some(old.clone()), b"answer").unwrap();
    assert_eq!(kept.pin_failures, 1);
    assert_eq!(kept.pin_protected_user_key, old.pin_protected_user_key);
    assert_eq!(pin_attempt(&mut kept, email, b"1234").unwrap(), (user_enc, user_mac));

    // The cache of the session unlocks again without the server.
    let cache = v.persist_cache(&None, b"answer").unwrap();
    let keys = unlock_from_cache(&cache, email, b"hunter2").unwrap();
    assert_eq!(keys, (user_enc, user_mac));
    assert_eq!(cached_payload(&cache, &keys.0, &keys.1).unwrap(), b"answer");
}

#[test]
fn a_login_fails_where_a_step_does() {
    let start = || {
        begin_unlock(
            "https://vault.example.org",
            "a@b",
            b"pw".to_vec(),
            &None,
            Grant::Password,
            None,
        )
        .ok()
        .unwrap()
    };
    assert!(matches!(
        begin_unlock("garbage", "a@b", vec![], &None, Grant::Password, None),
        Err(Error::Internal(_))
    ));
    assert!(matches!(
        begin_unlock_with("https://h", "a@b", vec![], &None, Grant::Password, None, None),
        Err(Error::Internal(m)) if m == "crypto: OS RNG must be available"
    ));
    let made = begin_unlock_with(
        "https://h",
        "a@b",
        vec![],
        &Some("garbage".into()),
        Grant::Password,
        None,
        Some([0u8; 16]),
    )
    .ok()
    .unwrap();
    assert_eq!(made.client.device_id(), "00000000-0000-4000-8000-000000000000");
    let pre = PreloginResponse {
        kdf: 9,
        kdf_iterations: 1,
        kdf_memory: None,
        kdf_parallelism: None,
    };
    assert!(matches!(
        start().after_prelogin(Ok(pre)),
        Err(Error::Internal(m)) if m == "crypto: invalid KDF parameters: unknown kdfType"
    ));
    let down = vault::vault_api::Error::Transport("down".into());
    assert!(matches!(
        start().after_prelogin(Err(down)),
        Err(Error::Network(m)) if m == "transport: down"
    ));
    let pre = PreloginResponse { kdf: 0, ..pre };
    let keyed = start().after_prelogin(Ok(pre)).ok().unwrap();
    let token = TokenResponse {
        access_token: "abc".into(),
        expires_in: 0,
        token_type: "Bearer".into(),
        refresh_token: None,
        key: None,
        private_key: None,
    };
    assert!(matches!(
        keyed.after_login(Ok(token)),
        Err(Error::Internal(m)) if m == "server omitted Key in token response"
    ));
}

#[test]
fn only_a_dead_network_falls_back_to_the_cache() {
    let cached = || {
        let mut cache = VaultCache::new("dev".into(), "https://x".into(), "a@b");
        cache.kdf = Some(kdf());
        vault_from_user_key(
            &cache,
            "https://x",
            "a@b",
            ([1u8; 32], [2u8; 32]),
            Ok(sync_with(vec![], vec![])),
        )
    };
    let network = || Err(Error::Network("down".into()));
    assert!(perform_unlock(network(), Some(cached())).is_ok());
    assert!(matches!(
        perform_unlock(network(), None),
        Err(Error::Network(m)) if m == "down"
    ));
    assert!(matches!(
        perform_unlock(Err(Error::BadPassword), Some(cached())),
        Err(Error::BadPassword)
    ));
    assert!(matches!(
        perform_unlock(network(), Some(Err(Error::BadPassword))),
        Err(Error::BadPassword)
    ));
}

#[test]
fn grants_are_chosen_in_order() {
    let given = ApiKeyCreds {
        client_id: "given".into(),
        client_secret: b"s".to_vec(),
    };
    let stored = vault::vault_store::ApiKeyCreds {
        client_id: "stored".into(),
        client_secret: "t".into(),
    };
    match choose_grant(Some(given.clone()), Some(stored.clone())) {
        Grant::ApiKey { creds, store } => {
            assert_eq!(creds.client_id, "given");
            assert!(store);
        }
        Grant::Password => panic!("expected a key"),
    }
    match choose_grant(None, Some(stored.clone())) {
        Grant::ApiKey { creds, store } => {
            assert_eq!(creds.client_secret, b"t");
            assert!(!store);
        }
        Grant::Password => panic!("expected a key"),
    }
    assert!(matches!(choose_grant(None, None), Grant::Password));
    assert!(apikey_status(&Some(stored)).configured);
    assert_eq!(apikey_status(&None).client_id, None);
    assert_eq!(apikey_to_store(&given).unwrap().client_secret, "s");
    let bad = ApiKeyCreds {
        client_id: "x".into(),
        client_secret: vec![0xff],
    };
    assert!(apikey_to_store(&bad).is_err());
}

#[test]
fn refusals_are_told_apart() {
    let status = |status: u16, message: &str| vault::vault_api::Error::ServerStatus {
        status,
        message: message.into(),
    };
    assert!(matches!(
        api_err(status(400, "{\"error\":\"invalid_grant\"}")),
        Error::BadPassword
    ));
    assert!(matches!(
        api_err(status(400, "The Username is wrong")),
        Error::BadPassword
    ));
    assert!(matches!(
        api_err(status(400, "other")),
        Error::Network(m) if m == "HTTP 400: other"
    ));
    assert!(matches!(
        api_err(status(500, "invalid_grant")),
        Error::Network(m) if m == "HTTP 500: invalid_grant"
    ));
    assert!(matches!(
        api_err(vault::vault_api::Error::TwoFactorRequired(vec![0])),
        Error::TwoFactorRequired
    ));
    assert!(matches!(
        network_err(status(400, "invalid_grant")),
        Error::Network(m) if m == "server returned 400: invalid_grant"
    ));
}

#[test]
fn sessions_end_at_their_deadline() {
    let blob = SessionBlob {
        server: "https://vault.example.org".into(),
        email: "me@example.org".into(),
        user_enc: [7u8; 32],
        user_mac: [9u8; 32],
        deadline_unix: 1_900_000_000,
    };
    let back = blob.clone();
    assert_eq!(back.server, "https://vault.example.org");
    assert_eq!(back.email, "me@example.org");
    assert_eq!(back.user_enc, [7u8; 32]);
    assert_eq!(back.user_mac, [9u8; 32]);
    assert_eq!(back.deadline_unix, 1_900_000_000);
    assert!(!back.expired(1_899_999_999));
    assert!(back.expired(1_900_000_000));
}

#[test]
fn dates_follow_the_calendar() {
    assert_eq!(days_to_ymd(0), (1970, 1, 1));
    assert_eq!(days_to_ymd(58), (1970, 2, 28));
    assert_eq!(days_to_ymd(59), (1970, 3, 1));
    assert_eq!(days_to_ymd(11_016), (2000, 2, 29));
    assert_eq!(days_to_ymd(11_017), (2000, 3, 1));
    assert_eq!(days_to_ymd(19_675), (2023, 11, 14));
    assert_eq!(days_to_ymd(47_540), (2100, 2, 28));
    assert_eq!(days_to_ymd(47_541), (2100, 3, 1));
    assert_eq!(days_to_ymd(u64::MAX), (1970, 1, 1));
    assert_eq!(iso_time(1_700_000_000), "2023-11-14T22:13:20Z");
    assert_eq!(iso_time(951_782_400), "2000-02-29T00:00:00Z");
    assert_eq!(iso_reading(Some(951_782_400)).as_deref(), Some("2000-02-29T00:00:00Z"));
    assert_eq!(iso_reading(None), None);
    let times = [0, 59, 60, 3_599, 3_600, 86_399, 86_400, 951_782_400, 253_402_300_799];
    for w in times.windows(2) {
        assert!(iso_time(w[0]) < iso_time(w[1]));
        assert_eq!(iso_time(w[1]).len(), 20);
    }
    assert_eq!(iso_time(253_402_300_799), "9999-12-31T23:59:59Z");
    assert_eq!(seconds_or_zero(Some(7)), 7);
    assert_eq!(seconds_or_zero(None), 0);
    assert!(now_iso().unwrap().ends_with('Z'));
    assert!(now_unix() > 1_700_000_000);
}

#[test]
fn a_damaged_envelope_is_no_wrong_secret() {
    let email = "u@e.org";
    let mut cache = VaultCache::new("dev".into(), "https://x".into(), email);
    cache.kdf = Some(kdf());
    assert!(matches!(
        recover_user_key(&cache, email, b"1234", "not-an-encstring"),
        Err(KeyRecover::Internal(m)) if m.starts_with("crypto: ")
    ));
    cache.pin_protected_user_key = Some("not-an-encstring".into());
    for _ in 0..MAX_PIN_ATTEMPTS + 1 {
        assert!(matches!(
            pin_attempt(&mut cache, email, b"1234"),
            Err(Error::Internal(_))
        ));
    }
    assert_eq!(cache.pin_failures, 0);
    assert!(cache.pin_protected_user_key.is_some());
    cache.protected_user_key = Some("not-an-encstring".into());
    assert!(matches!(
        unlock_from_cache(&cache, email, b"1234"),
        Err(Error::Internal(_))
    ));
    // A key of another length under the right secret is damaged too.
    let keys = stretch_master_key(
        &derive_master_key(b"1234", email.as_bytes(), kdf()).unwrap(),
    )
    .unwrap();
    let short = EncString::encrypt(&keys.0, &keys.1, b"short").unwrap().serialize();
    assert!(matches!(
        recover_user_key(&cache, email, b"1234", &short),
        Err(KeyRecover::Internal(_))
    ));
    assert!(matches!(
        recover_user_key(&cache, email, b"0000", &short),
        Err(KeyRecover::WrongSecret)
    ));
}
