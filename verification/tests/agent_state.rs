//! The state of the agent.
use std::sync::{Arc, Mutex};

use vault::text_map::TextMap;
use vault::vault_agent::clipboard::{select, should_clear_clipboard, Backend, BackendChoice};
use vault::vault_agent::edit::{
    apply_cipher_edits, CardEdit, CipherWrite, EditOverlay, IdentityEdit,
};
use vault::vault_agent::lookup::{card_expiry, identity_address, identity_name};
use vault::vault_agent::online::OnlineStep;
use vault::vault_agent::sealed::SealedKey;
use vault::vault_agent::server::{
    account_done, add_done, dispatch, dispatch_with, edit_done, idle_tick, pin_set_done,
    remove_done, sync_done, sync_tick, unlock_done, SessionEffect, Step, SyncTick, Work,
};
use vault::vault_agent::session::SessionBlob;
use vault::vault_agent::startup::{
    pick_socket, resolve_clear_secs, resumed, try_resume, ResumeStep,
};
use vault::vault_agent::state::{AgentState, Moment};
use vault::vault_agent::vault::Vault;
use vault::vault_api::sync::SyncResponse;
use vault::vault_api::{BaseUrls, BitwardenClient};
use vault::vault_core::cipher::{
    Card, Cipher, CustomField, DecryptOptions, Identity, Login, LoginUri, PlainCard, PlainIdentity,
};
use vault::vault_core::enc_string::EncString;
use vault::vault_core::kdf::{KdfParams, KdfType};
use vault::vault_ipc::proto::{CardWrite, Error, Field, IdentityWrite, Request, Response};

const UNIX: u64 = 1_700_000_000;

const NOW: Moment = Moment {
    ms: 1_000_000,
    unix: Some(UNIX),
};

fn later(secs: u64) -> Moment {
    Moment {
        ms: NOW.ms + secs * 1000,
        unix: Some(UNIX + secs),
    }
}

fn seal(enc: &[u8; 32], mac: &[u8; 32], s: &str) -> String {
    EncString::encrypt(enc, mac, s.as_bytes()).unwrap().serialize()
}

fn stub_vault() -> Vault {
    let urls = BaseUrls::self_hosted("https://vault.example.org").unwrap();
    let client = BitwardenClient::new(
        urls,
        "00000000-0000-0000-0000-000000000000".into(),
        "vault-agent-test",
    );
    Vault {
        server: "https://vault.example.org".into(),
        email: "alice@example.org".into(),
        user_enc: SealedKey::new([0u8; 32]),
        user_mac: SealedKey::new([0u8; 32]),
        ciphers: Vec::new(),
        folders: TextMap::new(),
        org_keys: TextMap::new(),
        client: Some(client),
        protected_user_key: String::new(),
        kdf: KdfParams {
            kind: KdfType::Pbkdf2Sha256,
            iterations: 1,
            memory_kib: None,
            parallelism: None,
        },
        refresh_token: None,
        device_id: "00000000-0000-0000-0000-000000000000".into(),
        last_sync: None,
    }
}

fn offline_vault() -> Vault {
    let mut v = stub_vault();
    v.client = None;
    v
}

fn keyed_vault(enc: [u8; 32], mac: [u8; 32]) -> Vault {
    let mut v = stub_vault();
    v.user_enc = SealedKey::new(enc);
    v.user_mac = SealedKey::new(mac);
    v
}

fn unlocked(v: Vault) -> AgentState {
    let mut s = AgentState::new(900, NOW.ms);
    s.vault = Some(v);
    s
}

fn make_cipher(id: &str, name: &str, enc: &[u8; 32], mac: &[u8; 32]) -> Cipher {
    Cipher {
        id: id.to_owned(),
        cipher_type: 1,
        name: Some(seal(enc, mac, name)),
        ..Cipher::default()
    }
}

fn login_with_password(id: &str, name: &str, pw: &str, enc: &[u8; 32], mac: &[u8; 32]) -> Cipher {
    Cipher {
        login: Some(Login {
            password: Some(seal(enc, mac, pw)),
            ..Login::default()
        }),
        ..make_cipher(id, name, enc, mac)
    }
}

fn login_with_two_uris(enc: &[u8; 32], mac: &[u8; 32]) -> Cipher {
    let uri = |s: &str| LoginUri {
        uri: Some(seal(enc, mac, s)),
    };
    Cipher {
        login: Some(Login {
            uris: Some(vec![uri("https://one.example"), uri("https://two.example")]),
            ..Login::default()
        }),
        ..make_cipher("id-1", "old name", enc, mac)
    }
}

fn decrypt_uri(u: &LoginUri, enc: &[u8; 32], mac: &[u8; 32]) -> String {
    let parsed = EncString::parse(u.uri.as_deref().unwrap()).unwrap();
    String::from_utf8(parsed.decrypt(enc, mac).unwrap()).unwrap()
}

fn overlay() -> EditOverlay {
    EditOverlay {
        name: None,
        folder_id: None,
        folder_provided: false,
        notes: None,
        username: None,
        password: None,
        totp: None,
        uri: None,
        card: None,
        identity: None,
    }
}

fn answer(step: Step) -> Response {
    match step {
        Step::Answer(r) => r.response,
        Step::Perform(_) => panic!("expected an answer"),
    }
}

/// A clipboard in memory, shared with the test.
struct FakeClipboard {
    content: Arc<Mutex<Option<String>>>,
}

impl Backend for FakeClipboard {
    fn name(&self) -> &'static str {
        "fake"
    }
    fn set_text(&mut self, value: &str) -> Result<(), Error> {
        *self.content.lock().unwrap() = Some(value.to_owned());
        Ok(())
    }
    fn get_text(&mut self) -> Option<String> {
        self.content.lock().unwrap().clone()
    }
    fn clear(&mut self) {
        *self.content.lock().unwrap() = None;
    }
}

fn state_with_fake_clipboard() -> (AgentState, Arc<Mutex<Option<String>>>) {
    let content = Arc::new(Mutex::new(None));
    let mut s = AgentState::new(900, NOW.ms);
    s.clipboard = Some(Box::new(FakeClipboard {
        content: content.clone(),
    }));
    (s, content)
}

fn held(content: &Arc<Mutex<Option<String>>>) -> Option<String> {
    content.lock().unwrap().clone()
}

#[test]
fn new_state_is_locked() {
    let s = AgentState::new(900, NOW.ms);
    assert!(!s.is_unlocked());
    let snap = s.status_snapshot();
    assert!(!snap.unlocked);
    assert!(snap.server.is_none());
    assert!(snap.email.is_none());
    assert!(snap.items.is_none());
    assert_eq!(snap.agent_version, vault::VERSION);
}

#[test]
fn lock_clears_vault() {
    let mut s = unlocked(stub_vault());
    assert!(s.is_unlocked());
    s.lock();
    assert!(!s.is_unlocked());
}

#[test]
fn fingerprint_resume_refused_when_disabled() {
    let mut s = AgentState::new(900, NOW.ms);
    assert!(matches!(
        s.resume_after_fingerprint(Ok(Some(stub_vault()))),
        Err(Error::FingerprintUnavailable(_))
    ));
    assert!(!s.is_unlocked(), "must never auto-unlock");
    s.fingerprint_unlock = true;
    assert!(matches!(
        s.resume_after_fingerprint(Ok(None)),
        Err(Error::FingerprintUnavailable(_))
    ));
    assert!(s.resume_after_fingerprint(Ok(Some(stub_vault()))).is_ok());
    assert!(s.is_unlocked());
}

#[test]
fn idle_lock_due_only_when_unlocked_and_expired() {
    let mut s = AgentState::new(60, NOW.ms);
    let hour = later(3600);
    assert!(!s.idle_lock_due(hour.ms));
    s.vault = Some(stub_vault());
    assert!(s.idle_lock_due(hour.ms));
    let _ = s.touch(hour);
    assert!(!s.idle_lock_due(hour.ms));
    assert!(!s.idle_lock_due(hour.ms + 59_999));
    assert!(s.idle_lock_due(hour.ms + 60_000));
}

#[test]
fn idle_lock_disabled_when_secs_is_zero_via_main_skip() {
    let mut s = AgentState::new(0, NOW.ms);
    s.vault = Some(stub_vault());
    assert!(s.idle_lock_due(NOW.ms + 1));
}

#[test]
fn list_entries_errors_when_locked() {
    let s = AgentState::new(900, NOW.ms);
    assert!(matches!(s.list_entries(), Err(Error::Locked)));
    assert!(matches!(
        s.get_item(None, "anything", Field::Password),
        Err(Error::Locked)
    ));
}

#[test]
fn get_item_targets_exact_id_among_duplicate_names() {
    let enc = [11u8; 32];
    let mac = [12u8; 32];
    let mut v = keyed_vault(enc, mac);
    v.ciphers.push(login_with_password("id-first", "dup", "first-secret", &enc, &mac));
    v.ciphers.push(login_with_password("id-second", "dup", "second-secret", &enc, &mac));
    let s = unlocked(v);
    let item = s.get_item(Some("id-second"), "dup", Field::Password).unwrap();
    assert_eq!(item.id, "id-second");
    assert_eq!(item.value, "second-secret");
    let item = s.get_item(None, "dup", Field::Password).unwrap();
    assert_eq!(item.id, "id-first");
    assert_eq!(item.value, "first-secret");
    assert!(matches!(
        s.get_item(None, "nope", Field::Password),
        Err(Error::NoSuchItem(n)) if n == "nope"
    ));
}

#[test]
fn search_skips_undecryptable_ciphers() {
    let enc = [7u8; 32];
    let mac = [9u8; 32];
    let mut v = keyed_vault(enc, mac);
    let wrong = [0xAAu8; 32];
    let mut material = [0u8; 64];
    material[..32].copy_from_slice(&[0xBBu8; 32]);
    material[32..].copy_from_slice(&[0xCCu8; 32]);
    v.ciphers.push(Cipher {
        id: "org-1".into(),
        cipher_type: 1,
        key: Some(EncString::encrypt(&wrong, &wrong, &material).unwrap().serialize()),
        name: Some(seal(&[0xBBu8; 32], &[0xCCu8; 32], "org")),
        ..Cipher::default()
    });
    v.ciphers.push(login_with_password("real-1", "github", "hunter2", &enc, &mac));
    let s = unlocked(v);
    let item = s.get_item(None, "github", Field::Password).unwrap();
    assert_eq!(item.value, "hunter2");
    let list = s.list_entries().unwrap();
    assert_eq!(list.len(), 1);
    assert_eq!(list[0].name, "github");
}

#[test]
fn org_cipher_decrypts_under_org_key() {
    let user_enc = [7u8; 32];
    let user_mac = [9u8; 32];
    let org_enc = [21u8; 32];
    let org_mac = [22u8; 32];
    let mut v = keyed_vault(user_enc, user_mac);
    v.org_keys.insert("org-1".to_owned(), (org_enc, org_mac));
    v.ciphers.push(Cipher {
        organization_id: Some("org-1".into()),
        ..login_with_password("org-c1", "shared-login", "org-secret", &org_enc, &org_mac)
    });
    v.ciphers.push(Cipher {
        organization_id: Some("org-unknown".into()),
        ..make_cipher("org-c2", "invisible", &[1u8; 32], &[2u8; 32])
    });
    let s = unlocked(v);
    let item = s
        .get_item(Some("org-c1"), "shared-login", Field::Password)
        .unwrap();
    assert_eq!(item.value, "org-secret", "decrypted under the org key");
    let list = s.list_entries().unwrap();
    assert_eq!(list.len(), 1, "the unknown-org cipher is skipped");
    assert_eq!(list[0].name, "shared-login");
    assert!(matches!(
        s.edit_cipher("org-c1", CipherWrite::default()),
        Err(Error::Internal(_))
    ));
}

#[test]
fn should_clear_only_when_ours_or_unreadable() {
    assert!(should_clear_clipboard(Some("secret"), "secret"));
    assert!(!should_clear_clipboard(Some("other"), "secret"));
    assert!(should_clear_clipboard(None, "secret"));
}

#[test]
fn clipboard_set_errors_when_no_backend() {
    let mut s = AgentState::new(900, NOW.ms);
    s.clipboard = None;
    assert!(matches!(
        s.clipboard_set("secret"),
        Err(Error::ClipboardUnavailable)
    ));
}

#[test]
fn lock_sweeps_a_pending_copy() {
    let (mut s, content) = state_with_fake_clipboard();
    s.clipboard_set("hunter2").expect("set");
    assert_eq!(held(&content).as_deref(), Some("hunter2"));
    s.lock();
    assert_eq!(held(&content), None, "lock must sweep our copy");
}

#[test]
fn sweep_leaves_foreign_clipboard_content_alone() {
    let (mut s, content) = state_with_fake_clipboard();
    s.clipboard_set("hunter2").expect("set");
    if let Some(cb) = s.clipboard.as_mut() {
        cb.set_text("user-data").expect("set");
    }
    s.lock();
    assert_eq!(
        held(&content).as_deref(),
        Some("user-data"),
        "sweep must never clobber a newer copy"
    );
}

#[test]
fn timer_clear_drops_the_sweep_marker() {
    let (mut s, content) = state_with_fake_clipboard();
    s.clipboard_set("hunter2").expect("set");
    s.clipboard_clear_if_ours("hunter2");
    assert_eq!(held(&content), None);
    assert_eq!(s.last_copied, None);
    s.clipboard_sweep();
    s.lock();
}

#[test]
fn status_reports_backend_name() {
    let (mut s, _) = state_with_fake_clipboard();
    assert_eq!(s.status_snapshot().clipboard_backend.as_deref(), Some("fake"));
    s.clipboard = None;
    assert_eq!(s.status_snapshot().clipboard_backend, None);
}

#[test]
fn status_reports_osc52_mode_without_a_native_backend() {
    let mut s = AgentState::new(900, NOW.ms);
    s.clipboard = None;
    assert_eq!(s.status_snapshot().clipboard_backend, None);
    s.clipboard_backend = BackendChoice::Osc52;
    assert_eq!(s.status_snapshot().clipboard_backend.as_deref(), Some("osc52"));
}

#[test]
fn resolve_cipher_matches_by_id_then_name() {
    let enc = [7u8; 32];
    let mac = [9u8; 32];
    let mut v = keyed_vault(enc, mac);
    v.ciphers.push(make_cipher(
        "00000000-0000-0000-0000-000000000001",
        "github",
        &enc,
        &mac,
    ));
    v.ciphers.push(make_cipher(
        "00000000-0000-0000-0000-000000000002",
        "GitLab",
        &enc,
        &mac,
    ));
    let s = unlocked(v);
    assert_eq!(
        s.resolve_cipher("00000000-0000-0000-0000-000000000002").unwrap(),
        1
    );
    assert_eq!(s.resolve_cipher("gitlab").unwrap(), 1);
    assert!(matches!(
        s.resolve_cipher("not-there"),
        Err(Error::NoSuchItem(_))
    ));
}

#[test]
fn get_item_totp_generates_a_code() {
    let enc = [7u8; 32];
    let mac = [9u8; 32];
    let mut v = keyed_vault(enc, mac);
    v.ciphers.push(Cipher {
        login: Some(Login {
            totp: Some(seal(&enc, &mac, "GEZDGNBVGY3TQOJQGEZDGNBVGY3TQOJQ")),
            ..Login::default()
        }),
        ..make_cipher("totp-1", "github", &enc, &mac)
    });
    let s = unlocked(v);
    let item = s.get_item(Some("totp-1"), "github", Field::Totp).unwrap();
    assert_eq!(item.value.len(), 6, "default 6-digit code");
    assert!(item.value.chars().all(|c| c.is_ascii_digit()));
    assert_ne!(
        item.value, "GEZDGNBVGY3TQOJQGEZDGNBVGY3TQOJQ",
        "must be the generated code, not the raw secret"
    );
    assert!(matches!(
        s.get_item(Some("totp-1"), "github", Field::Username),
        Err(Error::NoSuchField { .. })
    ));
    let item = s.get_item_at(Some("totp-1"), "x", Field::Totp, Some(59)).unwrap();
    assert_eq!(item.value, "287082");
    assert!(matches!(
        s.get_item_at(Some("totp-1"), "x", Field::Totp, None),
        Err(Error::Internal(m)) if m == "totp: totp: system clock is before the Unix epoch"
    ));
    assert_eq!(Moment::at(5).ms, 5);
    assert_eq!(item.name, "github");
}

#[test]
fn get_item_card_fields() {
    let enc = [7u8; 32];
    let mac = [9u8; 32];
    let e = |s: &str| Some(seal(&enc, &mac, s));
    let mut v = keyed_vault(enc, mac);
    v.ciphers.push(Cipher {
        id: "card-1".into(),
        cipher_type: 3,
        name: e("Visa"),
        card: Some(Card {
            number: e("4111111111111111"),
            exp_month: e("4"),
            exp_year: e("2030"),
            code: e("123"),
            ..Card::default()
        }),
        ..Cipher::default()
    });
    let s = unlocked(v);
    let num = s.get_item(Some("card-1"), "Visa", Field::CardNumber).unwrap();
    assert_eq!(num.value, "4111111111111111");
    let exp = s.get_item(Some("card-1"), "Visa", Field::CardExpiry).unwrap();
    assert_eq!(exp.value, "04/2030", "month zero-padded, joined with year");
    assert!(matches!(
        s.get_item(Some("card-1"), "Visa", Field::CardBrand),
        Err(Error::NoSuchField { .. })
    ));
}

#[test]
fn resolve_cipher_rejects_ambiguous_name() {
    let enc = [3u8; 32];
    let mac = [4u8; 32];
    let mut v = keyed_vault(enc, mac);
    v.ciphers.push(make_cipher(
        "00000000-0000-0000-0000-0000000000aa",
        "duplicate",
        &enc,
        &mac,
    ));
    v.ciphers.push(make_cipher(
        "00000000-0000-0000-0000-0000000000bb",
        "DUPLICATE",
        &enc,
        &mac,
    ));
    let s = unlocked(v);
    match s.resolve_cipher("duplicate") {
        Err(Error::AmbiguousItem { name, ids }) => {
            assert_eq!(name, "duplicate");
            assert_eq!(ids.len(), 2);
            assert!(ids.contains(&"00000000-0000-0000-0000-0000000000aa".to_owned()));
            assert!(ids.contains(&"00000000-0000-0000-0000-0000000000bb".to_owned()));
        }
        other => panic!("expected AmbiguousItem, got {other:?}"),
    }
}

#[test]
fn resolve_folder_matches_id_then_name_else_errors() {
    let mut v = stub_vault();
    v.folders.insert("fid-1".to_owned(), "Work".to_owned());
    v.folders.insert("fid-2".to_owned(), "Personal".to_owned());
    let s = unlocked(v);
    assert_eq!(s.resolve_folder(&None).unwrap(), None);
    assert_eq!(
        s.resolve_folder(&Some("fid-2".into())).unwrap().as_deref(),
        Some("fid-2")
    );
    assert_eq!(
        s.resolve_folder(&Some("work".into())).unwrap().as_deref(),
        Some("fid-1")
    );
    assert!(matches!(
        s.resolve_folder(&Some("nope".into())),
        Err(Error::NoSuchItem(m)) if m == "folder 'nope'"
    ));
}

#[test]
fn edit_preserves_secondary_uris_on_unrelated_change() {
    let enc = [5u8; 32];
    let mac = [6u8; 32];
    let mut cipher = login_with_two_uris(&enc, &mac);
    let o = EditOverlay {
        name: Some("new name".into()),
        ..overlay()
    };
    apply_cipher_edits(&mut cipher, &o, &enc, &mac).unwrap();
    let uris = cipher.login.as_ref().unwrap().uris.as_ref().unwrap();
    assert_eq!(uris.len(), 2, "secondary URI dropped by a name-only edit");
    assert_eq!(
        cipher.decrypt_name(&enc, &mac).unwrap().as_deref(),
        Some("new name")
    );
    assert_eq!(decrypt_uri(&uris[1], &enc, &mac), "https://two.example");
}

#[test]
fn edit_uri_replaces_primary_keeps_secondary() {
    let enc = [7u8; 32];
    let mac = [8u8; 32];
    let mut cipher = login_with_two_uris(&enc, &mac);
    let o = EditOverlay {
        uri: Some("https://new.example".into()),
        ..overlay()
    };
    apply_cipher_edits(&mut cipher, &o, &enc, &mac).unwrap();
    let uris = cipher.login.as_ref().unwrap().uris.as_ref().unwrap();
    assert_eq!(uris.len(), 2);
    assert_eq!(decrypt_uri(&uris[0], &enc, &mac), "https://new.example");
    assert_eq!(decrypt_uri(&uris[1], &enc, &mac), "https://two.example");
}

#[test]
fn apply_card_edits_sets_only_given_fields() {
    let enc = [0x21u8; 32];
    let mac = [0x22u8; 32];
    let e = |s: &str| Some(seal(&enc, &mac, s));
    let mut cipher = Cipher {
        id: "card-1".into(),
        cipher_type: 3,
        card: Some(Card {
            brand: e("Visa"),
            number: e("4111111111111111"),
            ..Card::default()
        }),
        ..Cipher::default()
    };
    let mut edit = CardEdit::default();
    edit.exp_month = Some("5".into());
    edit.exp_year = Some("2031".into());
    let o = EditOverlay {
        card: Some(edit),
        ..overlay()
    };
    apply_cipher_edits(&mut cipher, &o, &enc, &mac).unwrap();
    let back = cipher
        .decrypt(
            &enc,
            &mac,
            DecryptOptions {
                card: true,
                ..DecryptOptions::default()
            },
        )
        .unwrap();
    let c = back.card.as_ref().unwrap();
    assert_eq!(c.exp_month.as_deref(), Some("5"), "expiry updated");
    assert_eq!(c.exp_year.as_deref(), Some("2031"));
    assert_eq!(c.brand.as_deref(), Some("Visa"));
    assert_eq!(c.number.as_deref(), Some("4111111111111111"));
}

#[test]
fn apply_identity_edits_sets_only_given_fields() {
    let enc = [0x31u8; 32];
    let mac = [0x32u8; 32];
    let e = |s: &str| Some(seal(&enc, &mac, s));
    let mut cipher = Cipher {
        id: "id-1".into(),
        cipher_type: 4,
        identity: Some(Identity {
            first_name: e("Jane"),
            last_name: e("Doe"),
            ssn: e("123-45-6789"),
            ..Identity::default()
        }),
        ..Cipher::default()
    };
    let mut edit = IdentityEdit::default();
    edit.email = Some("jane@example.org".into());
    edit.city = Some("Amber".into());
    let o = EditOverlay {
        identity: Some(edit),
        ..overlay()
    };
    apply_cipher_edits(&mut cipher, &o, &enc, &mac).unwrap();
    let back = cipher
        .decrypt(
            &enc,
            &mac,
            DecryptOptions {
                identity: true,
                ..DecryptOptions::default()
            },
        )
        .unwrap();
    let i = back.identity.as_ref().unwrap();
    assert_eq!(i.email.as_deref(), Some("jane@example.org"), "email set");
    assert_eq!(i.city.as_deref(), Some("Amber"), "city set");
    assert_eq!(i.first_name.as_deref(), Some("Jane"));
    assert_eq!(i.last_name.as_deref(), Some("Doe"));
    assert_eq!(i.ssn.as_deref(), Some("123-45-6789"));
}

#[test]
fn offline_session_declines_server_ops() {
    let s = unlocked(offline_vault());
    let step = s
        .vault
        .as_ref()
        .unwrap()
        .ensure_online(false, false, "d".into())
        .ok()
        .unwrap();
    assert!(matches!(step, OnlineStep::Offline));
    assert!(s.list_entries().is_ok());
}

#[test]
fn ensure_online_ok_with_client_offline_without() {
    let v = stub_vault();
    assert!(matches!(
        v.ensure_online(false, false, "d".into()),
        Ok(OnlineStep::Ready)
    ));
    let mut v = offline_vault();
    assert!(matches!(
        v.ensure_online(false, false, "d".into()),
        Ok(OnlineStep::Offline)
    ));
    // A stored key is the second way, a refresh token the first.
    assert!(matches!(
        v.ensure_online(false, true, "d".into()),
        Ok(OnlineStep::ApiKey(_))
    ));
    v.refresh_token = Some("rt".into());
    match v.ensure_online(false, true, "d".into()) {
        Ok(OnlineStep::Refresh(c)) => assert_eq!(c.refresh_token().as_deref(), Some("rt")),
        _ => panic!("expected a refresh"),
    }
    match v.ensure_online(true, true, "d".into()) {
        Ok(OnlineStep::ApiKey(c)) => v.go_online(c),
        _ => panic!("expected a login by key"),
    }
    assert!(v.client.is_some());
    assert_eq!(v.refresh_token.as_deref(), Some("rt"));
    let mut v = offline_vault();
    v.server = "garbage".into();
    assert!(matches!(
        v.ensure_online(false, false, "d".into()),
        Err(Error::Internal(m)) if m == "invalid base URL: server is not a valid URL"
    ));
}

#[test]
fn scheduled_sync_on_locked_agent_is_a_safe_noop() {
    let mut s = AgentState::new(900, NOW.ms);
    let before = s.last_activity;
    let sync = SyncResponse {
        private_key: None,
        organizations: vec![],
        folders: vec![],
        ciphers: vec![],
    };
    let err = s.resync(&sync, None).unwrap_err();
    assert!(matches!(err, Error::Locked), "got {err:?}");
    assert_eq!(s.last_activity, before, "resync must not touch()");
    assert_eq!(sync_tick(&s), SyncTick::Skip);
    s.vault = Some(stub_vault());
    assert_eq!(sync_tick(&s), SyncTick::Sync);
    s.resync(&sync, Some("t".into())).unwrap();
    assert_eq!(s.last_activity, before);
    assert_eq!(s.vault.as_ref().unwrap().last_sync.as_deref(), Some("t"));
    s.shutdown_requested = true;
    assert_eq!(sync_tick(&s), SyncTick::Stop);
}

#[test]
fn server_handles_locked_session() {
    let mut s = AgentState::new(900, NOW.ms);
    match answer(dispatch(&mut s, Request::Status, NOW)) {
        Response::Status(st) => {
            assert!(!st.unlocked);
            assert_eq!(st.agent_version, vault::VERSION);
        }
        other => panic!("expected Status, got {other:?}"),
    }
    let get = Request::Get {
        id: None,
        name: "github.com".into(),
        field: Some(Field::Password),
    };
    assert!(matches!(
        answer(dispatch(&mut s, get, NOW)),
        Response::Error(Error::Locked)
    ));
    let copy = Request::Copy {
        id: None,
        name: "github.com".into(),
        field: Some(Field::Password),
        clear_after_secs: Some(0),
    };
    assert!(matches!(
        answer(dispatch(&mut s, copy, NOW)),
        Response::Error(Error::Locked)
    ));
    let text = Request::CopyText {
        text: b"generated-password".to_vec(),
        clear_after_secs: Some(0),
    };
    assert!(matches!(
        answer(dispatch(&mut s, text, NOW)),
        Response::Error(Error::Locked)
    ));
    for req in [
        Request::Sync,
        Request::List,
        Request::Remove {
            selector: "x".into(),
        },
        Request::PinSet {
            pin: b"1234".to_vec(),
        },
    ] {
        assert!(matches!(
            answer(dispatch(&mut s, req, NOW)),
            Response::Error(Error::Locked)
        ));
    }
    assert!(matches!(
        answer(dispatch(&mut s, Request::Quit, NOW)),
        Response::Done
    ));
    assert!(s.shutdown_requested);
}

#[test]
fn resolve_clear_secs_precedence() {
    assert_eq!(resolve_clear_secs(Some(45), Some("60")), 45, "flag wins");
    assert_eq!(resolve_clear_secs(None, Some("60")), 60, "env next");
    assert_eq!(resolve_clear_secs(None, Some("nope")), 30, "bad env ignored");
    assert_eq!(resolve_clear_secs(None, None), 30, "default");
    assert_eq!(resolve_clear_secs(Some(0), Some("60")), 0, "0 disables");
}

#[test]
fn backend_choice_as_str_and_default() {
    assert_eq!(BackendChoice::Auto.as_str(), "auto");
    assert_eq!(BackendChoice::Arboard.as_str(), "arboard");
    assert_eq!(BackendChoice::Osc52.as_str(), "osc52");
    assert_eq!(BackendChoice::default(), BackendChoice::Auto);
}

#[test]
fn select_osc52_uses_no_native_backend() {
    let native = || -> Option<Box<dyn Backend>> {
        Some(Box::new(FakeClipboard {
            content: Arc::new(Mutex::new(None)),
        }))
    };
    assert!(select(BackendChoice::Osc52, native()).is_none());
    assert!(select(BackendChoice::Auto, native()).is_some());
    assert!(select(BackendChoice::Arboard, None).is_none());
}

#[test]
fn derefs_to_the_key_bytes() {
    let k = SealedKey::new([7u8; 32]);
    assert_eq!(*k, [7u8; 32]);
    let same = SealedKey::new([7u8; 32]);
    assert_eq!(&*k, &*same);
}

#[test]
fn debug_does_not_leak_bytes() {
    let k = SealedKey::new([0xABu8; 32]);
    let rendered = k.debug_text();
    assert!(rendered.contains("SealedKey"));
    assert!(!rendered.contains("171"), "Debug leaked key bytes: {rendered}");
    assert_eq!(k.debug_text().contains("locked: true"), k.locked());
}

#[test]
fn lists_are_sorted_by_name_in_any_case() {
    let enc = [1u8; 32];
    let mut v = keyed_vault(enc, enc);
    v.folders.insert("f".into(), "Work".into());
    let mut first = make_cipher("1", "beta", &enc, &enc);
    first.folder_id = Some("f".into());
    first.login = Some(Login {
        username: Some(seal(&enc, &enc, "bob")),
        ..Login::default()
    });
    v.ciphers.push(first);
    v.ciphers.push(make_cipher("2", "Alpha", &enc, &enc));
    v.ciphers.push(make_cipher("3", "ALPHA", &enc, &enc));
    v.ciphers.push(make_cipher("4", "alpha-2", &enc, &enc));
    v.ciphers.push(Cipher::default());
    let rows = unlocked(v).list_entries().unwrap();
    let ids: Vec<&str> = rows.iter().map(|r| r.id.as_str()).collect();
    assert_eq!(ids, ["2", "3", "4", "1"]);
    assert_eq!(rows[3].folder.as_deref(), Some("Work"));
    assert_eq!(rows[3].username.as_deref(), Some("bob"));
}

#[test]
fn identities_are_composed() {
    let mut i = PlainIdentity::default();
    i.first_name = Some("Jane".into());
    i.middle_name = Some(String::new());
    i.last_name = Some("Doe".into());
    i.address1 = Some("1 Void Navy Way".into());
    i.city = Some("Amber".into());
    i.postal_code = Some("12345".into());
    i.country = Some("US".into());
    assert_eq!(identity_name(&i).as_deref(), Some("Jane Doe"));
    assert_eq!(
        identity_address(&i).as_deref(),
        Some("1 Void Navy Way\nAmber 12345\nUS")
    );
    assert_eq!(identity_name(&PlainIdentity::default()), None);
    assert_eq!(identity_address(&PlainIdentity::default()), None);
    let card = |m: Option<&str>, y: Option<&str>| {
        let mut c = PlainCard::default();
        c.exp_month = m.map(str::to_owned);
        c.exp_year = y.map(str::to_owned);
        c
    };
    assert_eq!(card_expiry(&card(None, None)), None);
    assert_eq!(card_expiry(&card(Some("12"), None)).as_deref(), Some("12/"));
    assert_eq!(card_expiry(&card(None, Some("2030"))).as_deref(), Some("/2030"));
}

#[test]
fn custom_fields_are_read_by_name() {
    let enc = [1u8; 32];
    let mut v = keyed_vault(enc, enc);
    let mut c = make_cipher("1", "brave", &enc, &enc);
    let field = |n: &str, val: &str| CustomField {
        name: Some(seal(&enc, &enc, n)),
        value: Some(seal(&enc, &enc, val)),
        field_type: 0,
    };
    c.fields = Some(vec![field("other", "x"), field("API_Key", "k-1")]);
    v.ciphers.push(c);
    let s = unlocked(v);
    let item = s.get_item(None, "brave", Field::Custom("API_Key".into())).unwrap();
    assert_eq!(item.value, "k-1");
    assert!(matches!(
        s.get_item(None, "brave", Field::Custom("api_key".into())),
        Err(Error::NoSuchField { field, .. }) if field == "custom:api_key"
    ));
}

#[test]
fn a_copy_is_answered_and_cleared_later() {
    let enc = [1u8; 32];
    let (mut s, content) = state_with_fake_clipboard();
    let mut v = keyed_vault(enc, enc);
    v.ciphers.push(login_with_password("1", "github", "hunter2", &enc, &enc));
    s.vault = Some(v);
    let copy = |secs: Option<u64>| Request::Copy {
        id: None,
        name: "github".into(),
        field: None,
        clear_after_secs: secs,
    };
    match dispatch(&mut s, copy(None), NOW) {
        Step::Answer(r) => {
            assert!(matches!(r.response, Response::Copied(c) if c.clear_after_secs == 30));
            let clear = r.clear.unwrap();
            assert_eq!(clear.value, "hunter2");
            assert_eq!(clear.secs, 30);
        }
        Step::Perform(_) => panic!("expected an answer"),
    }
    assert_eq!(held(&content).as_deref(), Some("hunter2"));
    match dispatch(&mut s, copy(Some(0)), NOW) {
        Step::Answer(r) => assert!(r.clear.is_none(), "zero disables the clearing"),
        Step::Perform(_) => panic!("expected an answer"),
    }
    let bad = Request::CopyText {
        text: vec![b'a', 0xff],
        clear_after_secs: None,
    };
    match answer(dispatch(&mut s, bad, NOW)) {
        Response::Error(Error::Internal(m)) => assert_eq!(
            m,
            "copy text is not valid UTF-8: invalid utf-8 sequence of 1 bytes from index 1"
        ),
        other => panic!("expected an error, got {other:?}"),
    }
}

#[test]
fn an_item_is_added_once_the_server_has_it() {
    let enc = [1u8; 32];
    let mac = [2u8; 32];
    let mut v = keyed_vault(enc, mac);
    v.folders.insert("f".into(), "Work".into());
    let mut s = unlocked(v);
    let add = Request::Add {
        name: "github".into(),
        cipher_type: 1,
        folder: Some("work".into()),
        notes: None,
        username: Some("alice".into()),
        password: Some(b"hunter2".to_vec()),
        totp: None,
        uri: None,
        card: None,
        identity: None,
    };
    let plan = match dispatch(&mut s, add, NOW) {
        Step::Perform(Work::Add(p)) => p,
        _ => panic!("expected work"),
    };
    assert_eq!(plan.cipher.folder_id.as_deref(), Some("f"));
    assert!(s.vault.as_ref().unwrap().ciphers.is_empty());
    match add_done(&mut s, plan, Ok("server-id".into()), NOW).response {
        Response::Saved(saved) => {
            assert_eq!(saved.id, "server-id");
            assert_eq!(saved.name, "github");
        }
        other => panic!("expected Saved, got {other:?}"),
    }
    assert_eq!(
        s.get_item(Some("server-id"), "", Field::Password).unwrap().value,
        "hunter2"
    );
    // A refusal leaves the vault as it is, and so does a secret that is no text.
    let plan = s
        .add_cipher(
            2,
            CipherWrite {
                name: Some("note".into()),
                ..CipherWrite::default()
            },
        )
        .ok()
        .unwrap();
    assert!(matches!(
        add_done(&mut s, plan, Err(Error::Offline), NOW).response,
        Response::Error(Error::Offline)
    ));
    assert_eq!(s.vault.as_ref().unwrap().ciphers.len(), 1);
    let bad = CipherWrite {
        name: Some("x".into()),
        password: Some(vec![0xff]),
        ..CipherWrite::default()
    };
    assert!(matches!(
        s.add_cipher(1, bad),
        Err(Error::Internal(m)) if m == "secret was not valid UTF-8"
    ));
    assert!(matches!(
        s.add_cipher(1, CipherWrite::default()),
        Err(Error::Internal(m)) if m == "add requires a name"
    ));
}

#[test]
fn an_item_is_changed_once_the_server_has_it() {
    let enc = [1u8; 32];
    let mac = [2u8; 32];
    let mut v = keyed_vault(enc, mac);
    v.ciphers.push(login_with_password("1", "github", "old", &enc, &mac));
    let mut s = unlocked(v);
    let w = CipherWrite {
        name: Some("GitHub".into()),
        password: Some(b"new".to_vec()),
        ..CipherWrite::default()
    };
    let plan = s.edit_cipher("github", w).ok().unwrap();
    assert_eq!(s.get_item(None, "github", Field::Password).unwrap().value, "old");
    match edit_done(&mut s, plan, Ok(()), NOW).response {
        Response::Saved(saved) => assert_eq!(saved.name, "GitHub"),
        other => panic!("expected Saved, got {other:?}"),
    }
    assert_eq!(s.get_item(None, "github", Field::Password).unwrap().value, "new");
    let card = CipherWrite {
        card: Some(CardWrite::default()),
        ..CipherWrite::default()
    };
    assert!(matches!(
        s.edit_cipher("github", card),
        Err(Error::Internal(m)) if m == "card fields can only be edited on a card item"
    ));
    let identity = CipherWrite {
        identity: Some(IdentityWrite::default()),
        ..CipherWrite::default()
    };
    assert!(matches!(
        s.edit_cipher("github", identity),
        Err(Error::Internal(m)) if m == "identity fields can only be edited on an identity item"
    ));
    let folder = CipherWrite {
        folder: Some("nope".into()),
        ..CipherWrite::default()
    };
    assert!(matches!(
        s.edit_cipher("github", folder),
        Err(Error::NoSuchItem(_))
    ));
}

#[test]
fn an_item_is_dropped_once_the_server_has() {
    let enc = [1u8; 32];
    let mut v = keyed_vault(enc, enc);
    v.ciphers.push(make_cipher("1", "a", &enc, &enc));
    v.ciphers.push(make_cipher("2", "b", &enc, &enc));
    v.ciphers.push(Cipher {
        id: "3".into(),
        ..Cipher::default()
    });
    let mut s = unlocked(v);
    assert_eq!(s.remove_cipher("3").ok().unwrap().name, "<unnamed>");
    let plan = s.remove_cipher("a").ok().unwrap();
    assert!(matches!(
        remove_done(&mut s, plan, Err(Error::Network("x".into())), NOW).response,
        Response::Error(Error::Network(_))
    ));
    assert_eq!(s.vault.as_ref().unwrap().ciphers.len(), 3);
    let plan = s.remove_cipher("a").ok().unwrap();
    match remove_done(&mut s, plan, Ok(()), NOW).response {
        Response::Removed(r) => assert_eq!((r.id.as_str(), r.name.as_str()), ("1", "a")),
        other => panic!("expected Removed, got {other:?}"),
    }
    let ids: Vec<String> = s
        .vault
        .as_ref()
        .unwrap()
        .ciphers
        .iter()
        .map(|c| c.id.clone())
        .collect();
    assert_eq!(ids, ["2", "3"]);
}

#[test]
fn sessions_are_stored_and_renewed() {
    let mut s = AgentState::new(900, NOW.ms);
    s.session_keyring = true;
    let r = unlock_done(&mut s, Ok(stub_vault()), NOW);
    assert!(matches!(r.response, Response::Done));
    match r.session {
        SessionEffect::Store(st) => {
            assert_eq!(st.ttl, 900);
            assert_eq!(st.blob.deadline_unix, UNIX + 900);
            assert_eq!(st.blob.email, "alice@example.org");
        }
        _ => panic!("expected a session to store"),
    }
    // Renewals are at least thirty seconds apart.
    assert!(s.touch(later(29)).is_none());
    assert!(s.touch(later(30)).is_some());
    assert!(s.touch(later(31)).is_none());
    // The window of the fingerprint counts where one is asked for.
    s.fingerprint_unlock = true;
    assert_eq!(s.persist_session(NOW).unwrap().blob.deadline_unix, 0);
    match dispatch(&mut s, Request::Lock, NOW) {
        Step::Answer(r) => assert!(matches!(r.session, SessionEffect::Clear)),
        Step::Perform(_) => panic!("expected an answer"),
    }
    assert!(!s.is_unlocked());
    let r = unlock_done(&mut s, Err(Error::BadPassword), NOW);
    assert!(matches!(r.response, Response::Error(Error::BadPassword)));
    assert!(!s.is_unlocked());
}

#[test]
fn idle_agents_lock() {
    let mut s = unlocked(stub_vault());
    assert!(!idle_tick(&mut s, NOW.ms + 899_999).0);
    assert!(s.is_unlocked());
    let (locked, effect) = idle_tick(&mut s, NOW.ms + 900_000);
    assert!(locked && matches!(effect, SessionEffect::Clear));
    assert!(!s.is_unlocked());
    let mut s = unlocked(stub_vault());
    s.fingerprint_unlock = true;
    let (locked, effect) = idle_tick(&mut s, NOW.ms + 900_000);
    assert!(locked && matches!(effect, SessionEffect::Keep));
}

#[test]
fn stored_sessions_are_resumed_in_time() {
    let blob = |deadline: u64| {
        Some(SessionBlob {
            server: "https://vault.example.org".into(),
            email: "me@example.org".into(),
            user_enc: [7u8; 32],
            user_mac: [9u8; 32],
            deadline_unix: deadline,
        })
    };
    let mut s = AgentState::new(900, NOW.ms);
    assert_eq!(try_resume(&s, &blob(0), UNIX), ResumeStep::Nothing);
    s.session_keyring = true;
    assert_eq!(try_resume(&s, &None, UNIX), ResumeStep::Nothing);
    assert_eq!(try_resume(&s, &blob(0), UNIX), ResumeStep::Resume);
    assert_eq!(try_resume(&s, &blob(UNIX + 1), UNIX), ResumeStep::Resume);
    assert_eq!(try_resume(&s, &blob(UNIX), UNIX), ResumeStep::Clear);
    assert!(resumed(&mut s, stub_vault(), NOW).is_some());
    assert!(s.is_unlocked());
    s.fingerprint_unlock = true;
    assert_eq!(try_resume(&s, &blob(0), UNIX), ResumeStep::Nothing);
}

#[test]
fn sockets_are_picked_in_order() {
    let some = |s: &str| Some(s.to_owned());
    assert_eq!(pick_socket(some("rel"), some("/e"), some("/d")), Ok("rel".to_owned()));
    assert_eq!(pick_socket(None, some("/e"), some("/d")), Ok("/e".to_owned()));
    assert_eq!(
        pick_socket(None, some("e"), some("/d")),
        Err("VAULT_AGENT_SOCK is not an absolute path: e".to_owned())
    );
    assert_eq!(pick_socket(None, None, some("/d")), Ok("/d".to_owned()));
    assert!(pick_socket(None, None, None).is_err());
}

#[test]
fn a_sync_replaces_the_items() {
    let enc = [1u8; 32];
    let mut v = keyed_vault(enc, enc);
    v.ciphers.push(make_cipher("old", "old", &enc, &enc));
    let mut s = unlocked(v);
    assert!(matches!(
        dispatch(&mut s, Request::Sync, NOW),
        Step::Perform(Work::Sync)
    ));
    let sync = SyncResponse {
        private_key: None,
        organizations: vec![],
        folders: vec![],
        ciphers: vec![None, Some(make_cipher("new", "new", &enc, &enc))],
    };
    match sync_done(&mut s, Ok(sync), Some("2026-01-01T00:00:00Z".into()), NOW).response {
        Response::Status(st) => {
            assert_eq!(st.items, Some(1));
            assert_eq!(st.last_sync.as_deref(), Some("2026-01-01T00:00:00Z"));
        }
        other => panic!("expected Status, got {other:?}"),
    }
    assert!(matches!(
        pin_set_done(&mut s, Ok(()), NOW).response,
        Response::Done
    ));
}

#[test]
fn changes_to_an_account_are_answered() {
    assert!(matches!(account_done(Ok(())).response, Response::Done));
    let refused = account_done(Err(Error::Internal("x".into())));
    assert!(matches!(refused.response, Response::Error(Error::Internal(m)) if m == "x"));
    assert!(matches!(refused.session, SessionEffect::Keep));
}

#[test]
fn nothing_is_written_without_randomness() {
    let enc = [1u8; 32];
    let mac = [2u8; 32];
    let mut v = keyed_vault(enc, mac);
    v.ciphers.push(login_with_password("1", "github", "old", &enc, &mac));
    let mut s = unlocked(v);
    let named = || CipherWrite {
        name: Some("x".into()),
        ..CipherWrite::default()
    };
    let random = |e: Error| matches!(e, Error::Internal(m) if m == "crypto: OS RNG must be available");
    assert!(random(s.add_cipher_with(1, named(), &None).err().unwrap()));
    assert!(random(s.edit_cipher_with("1", named(), &None).err().unwrap()));
    let ivs = Some(vec![3u8; 480]);
    let plan = s.add_cipher_with(1, named(), &ivs).ok().unwrap();
    let envelope = EncString::encrypt_with_iv(&enc, &mac, [3u8; 16], b"x").serialize();
    assert_eq!(plan.cipher.name.as_deref(), Some(envelope.as_str()));
    let plan = s.edit_cipher_with("github", named(), &ivs).ok().unwrap();
    assert_eq!(plan.cipher.name.as_deref(), Some(envelope.as_str()));
    let edit = Request::Edit {
        selector: "1".into(),
        name: Some("x".into()),
        folder: None,
        notes: None,
        username: None,
        password: None,
        totp: None,
        uri: None,
        card: None,
        identity: None,
    };
    match dispatch_with(&mut s, edit.clone(), NOW, &ivs) {
        Step::Perform(Work::Edit(p)) => {
            assert_eq!(p.index, 0);
            assert_eq!(p.cipher.name.as_deref(), Some(envelope.as_str()));
        }
        _ => panic!("expected work"),
    }
    assert!(matches!(
        answer(dispatch_with(&mut s, edit, NOW, &None)),
        Response::Error(Error::Internal(_))
    ));
}

/// A clipboard that takes nothing.
struct FullClipboard;

impl Backend for FullClipboard {
    fn name(&self) -> &'static str {
        "full"
    }
    fn set_text(&mut self, _value: &str) -> Result<(), Error> {
        Err(Error::Internal("clipboard write failed: full".into()))
    }
    fn get_text(&mut self) -> Option<String> {
        None
    }
    fn clear(&mut self) {}
}

#[test]
fn a_failed_copy_is_answered_with_its_error() {
    let mut s = unlocked(stub_vault());
    s.clipboard = Some(Box::new(FullClipboard));
    let text = Request::CopyText {
        text: b"x".to_vec(),
        clear_after_secs: None,
    };
    match dispatch(&mut s, text, NOW) {
        Step::Answer(r) => {
            assert!(matches!(
                r.response,
                Response::Error(Error::Internal(m)) if m == "clipboard write failed: full"
            ));
            assert!(r.clear.is_none());
        }
        Step::Perform(_) => panic!("expected an answer"),
    }
    assert_eq!(s.last_copied, None);
}

fn own_key_login(user_enc: &[u8; 32], user_mac: &[u8; 32]) -> Cipher {
    let item_enc = [5u8; 32];
    let item_mac = [6u8; 32];
    let key = [item_enc, item_mac].concat();
    Cipher {
        key: Some(EncString::encrypt(user_enc, user_mac, &key).unwrap().serialize()),
        ..login_with_password("1", "github", "old", &item_enc, &item_mac)
    }
}

#[test]
fn an_item_with_its_own_key_reads_as_it_was_changed() {
    let enc = [1u8; 32];
    let mac = [2u8; 32];
    let mut v = keyed_vault(enc, mac);
    v.ciphers.push(own_key_login(&enc, &mac));
    let mut s = unlocked(v);
    assert_eq!(s.get_item(Some("1"), "1", Field::Password).unwrap().value, "old");
    let w = CipherWrite {
        name: Some("GitHub".into()),
        password: Some(b"new".to_vec()),
        username: Some("alice".into()),
        ..CipherWrite::default()
    };
    let plan = s.edit_cipher("github", w).ok().unwrap();
    let sealed = EncString::parse(plan.cipher.name.as_deref().unwrap()).unwrap();
    assert_eq!(sealed.decrypt(&[5u8; 32], &[6u8; 32]).unwrap(), b"GitHub");
    assert!(sealed.decrypt(&enc, &mac).is_err());
    match edit_done(&mut s, plan, Ok(()), NOW).response {
        Response::Saved(saved) => assert_eq!(saved.name, "GitHub"),
        other => panic!("expected Saved, got {other:?}"),
    }
    let read = s.get_item(Some("1"), "1", Field::Password).unwrap();
    assert_eq!(read.value, "new");
    assert_eq!(read.name, "GitHub");
    assert_eq!(s.get_item(Some("1"), "1", Field::Username).unwrap().value, "alice");
}

#[test]
fn an_item_key_that_does_not_unwrap_stops_a_change() {
    let enc = [1u8; 32];
    let mac = [2u8; 32];
    let mut v = keyed_vault(enc, mac);
    v.folders.insert("f".into(), "Work".into());
    v.ciphers.push(own_key_login(&[9u8; 32], &[9u8; 32]));
    let s = unlocked(v);
    let ivs = Some(vec![3u8; 480]);
    let named = || CipherWrite {
        name: Some("x".into()),
        ..CipherWrite::default()
    };
    assert!(matches!(s.edit_cipher("1", named()), Err(Error::Decrypt(_))));
    assert!(matches!(s.edit_cipher_with("1", named(), &ivs), Err(Error::Decrypt(_))));
    assert!(matches!(s.edit_cipher_with("1", named(), &None), Err(Error::Decrypt(_))));
    let moved = CipherWrite {
        folder: Some("Work".into()),
        ..CipherWrite::default()
    };
    let plan = s.edit_cipher_with("1", moved, &None).ok().unwrap();
    assert_eq!(plan.cipher.folder_id.as_deref(), Some("f"));
    let before = &s.vault.as_ref().unwrap().ciphers[0];
    assert_eq!(plan.cipher.name, before.name);
    assert_eq!(plan.cipher.key, before.key);
}

#[test]
fn a_field_that_no_longer_decrypts_is_mended_by_replacing_it() {
    let enc = [1u8; 32];
    let mac = [2u8; 32];
    let mut v = keyed_vault(enc, mac);
    v.ciphers.push(Cipher {
        login: Some(Login {
            username: Some(seal(&enc, &mac, "alice")),
            password: Some(seal(&[9u8; 32], &mac, "lost")),
            ..Login::default()
        }),
        ..make_cipher("1", "github", &enc, &mac)
    });
    let mut s = unlocked(v);
    assert!(s.get_item(Some("1"), "1", Field::Password).is_err());
    let w = CipherWrite {
        password: Some(b"new".to_vec()),
        ..CipherWrite::default()
    };
    let plan = s.edit_cipher("1", w).ok().unwrap();
    let _ = edit_done(&mut s, plan, Ok(()), NOW);
    let read = s.get_item(Some("1"), "1", Field::Password).unwrap();
    assert_eq!(read.value, "new");
    assert_eq!(read.name, "github");
    assert_eq!(s.get_item(Some("1"), "1", Field::Username).unwrap().value, "alice");
}

#[test]
fn a_changed_card_reads_with_the_fields_of_both() {
    let enc = [1u8; 32];
    let mac = [2u8; 32];
    let mut v = keyed_vault(enc, mac);
    v.ciphers.push(Cipher {
        cipher_type: 3,
        card: Some(Card {
            brand: Some(seal(&enc, &mac, "Visa")),
            code: Some(seal(&enc, &mac, "123")),
            ..Card::default()
        }),
        ..make_cipher("1", "card", &enc, &mac)
    });
    let mut s = unlocked(v);
    let w = CipherWrite {
        card: Some(CardWrite {
            code: Some(b"456".to_vec()),
            ..CardWrite::default()
        }),
        ..CipherWrite::default()
    };
    let plan = s.edit_cipher("card", w).ok().unwrap();
    let _ = edit_done(&mut s, plan, Ok(()), NOW);
    assert_eq!(s.get_item(Some("1"), "1", Field::CardCode).unwrap().value, "456");
    assert_eq!(s.get_item(Some("1"), "1", Field::CardBrand).unwrap().value, "Visa");
    assert!(s.get_item(Some("1"), "1", Field::CardNumber).is_err());
}
