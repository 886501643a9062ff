//! The client of the server.
use ml_kem::kem::Encapsulate;
use ml_kem::{Encoded, EncodedSizeUser, KemCore, MlKem768};
use vault::vault_api::client::{
    build_password_form, client_headers, expect_success, handle_json, refused_login, Body,
    CipherRequest, Method, CLIENT_NAME, CLIENT_VERSION, DEVICE_TYPE_CLI,
};
use vault::vault_api::device::{fresh_device, session_device, session_device_with};
use vault::vault_api::identity::{provider_ids, ProviderId, TwoFactorErrorBody};
use vault::vault_api::pqc::{
    combine, split_share, MlKemActive, MLKEM768_CIPHERTEXT_LEN, MLKEM768_ENCAP_LEN, X25519_LEN,
};
use vault::vault_api::sync::{SyncFolder, SyncOrganization};
use vault::vault_api::urls::{region_of, Region};
use vault::vault_api::{
    BaseUrls, BitwardenClient, Error, PreloginResponse, SyncResponse, TokenResponse, TwoFactor,
};
use vault::vault_core::kdf::{KdfParams, KdfType};
use vault::vault_core::Cipher;

type EncapKey = <MlKem768 as KemCore>::EncapsulationKey;

const DEVICE: &str = "11111111-2222-3333-4444-555555555555";

fn client() -> BitwardenClient {
    let urls = BaseUrls::self_hosted("https://vault.example.org").unwrap();
    BitwardenClient::new(urls, DEVICE.into(), "test")
}

fn token() -> TokenResponse {
    TokenResponse {
        access_token: "abc".into(),
        expires_in: 3600,
        token_type: "Bearer".into(),
        refresh_token: Some("def".into()),
        key: Some("2.iv|ct|mac".into()),
        private_key: None,
    }
}

fn fast() -> KdfParams {
    KdfParams {
        kind: KdfType::Pbkdf2Sha256,
        iterations: 1_000,
        memory_kib: None,
        parallelism: None,
    }
}

#[test]
fn client_headers_carry_bitwarden_identity() {
    let headers = client_headers();
    let get = |name: &str| {
        headers
            .iter()
            .find(|(n, _)| n == name)
            .map(|(_, v)| v.clone())
            .unwrap()
    };
    assert_eq!(get("Bitwarden-Client-Version"), CLIENT_VERSION);
    assert_eq!(get("Bitwarden-Client-Name"), CLIENT_NAME);
    assert_eq!(get("Device-Type"), DEVICE_TYPE_CLI.to_string());
}

#[test]
fn prelogin_pbkdf2_decodes() {
    let pre = PreloginResponse {
        kdf: 0,
        kdf_iterations: 600_000,
        kdf_memory: None,
        kdf_parallelism: None,
    };
    let params = pre.into_kdf_params().unwrap();
    assert_eq!(params.iterations, 600_000);
    assert!(params.memory_kib.is_none());
}

#[test]
fn prelogin_argon2id_decodes() {
    let pre = PreloginResponse {
        kdf: 1,
        kdf_iterations: 3,
        kdf_memory: Some(65_536),
        kdf_parallelism: Some(4),
    };
    let params = pre.into_kdf_params().unwrap();
    assert_eq!(params.iterations, 3);
    assert_eq!(params.memory_kib, Some(65_536));
    assert_eq!(params.parallelism, Some(4));
    let pre = PreloginResponse { kdf: 2, ..pre };
    assert_eq!(
        pre.into_kdf_params(),
        Err(vault::vault_core::Error::Kdf("unknown kdfType"))
    );
}

#[test]
fn token_response_minimal_decodes() {
    let mut c = client();
    let t = c
        .login_password_reply(200, Ok(token()), String::new(), None)
        .ok()
        .unwrap();
    assert!(c.is_authenticated());
    assert_eq!(c.refresh_token().as_deref(), Some("def"));
    assert_eq!(t.access_token, "abc");
    assert_eq!(t.refresh_token.as_deref(), Some("def"));
    assert_eq!(t.key.as_deref(), Some("2.iv|ct|mac"));
}

#[test]
fn sync_response_counts() {
    let folder = |id: &str| SyncFolder {
        id: Some(id.into()),
        name: None,
    };
    let cipher = |id: &str| {
        Some(Cipher {
            id: id.into(),
            ..Cipher::default()
        })
    };
    let s = SyncResponse {
        private_key: None,
        organizations: vec![],
        folders: vec![folder("f1"), folder("f2")],
        ciphers: vec![cipher("c1"), cipher("c2"), cipher("c3")],
    };
    assert_eq!(s.cipher_count(), 3);
    assert_eq!(s.folder_count(), 2);
}

#[test]
fn base_urls_self_hosted_appends_paths() {
    let u = BaseUrls::self_hosted("https://vault.example.org").unwrap();
    assert_eq!(u.api.as_str(), "https://vault.example.org/api/");
    assert_eq!(u.identity.as_str(), "https://vault.example.org/identity/");
}

#[test]
fn base_urls_self_hosted_keeps_path_prefix() {
    let u = BaseUrls::self_hosted("https://example.org/vw").unwrap();
    assert_eq!(u.api.as_str(), "https://example.org/vw/api/");
    assert_eq!(u.identity.as_str(), "https://example.org/vw/identity/");
}

#[test]
fn base_urls_rejects_garbage() {
    matches!(BaseUrls::self_hosted("not a url"), Err(Error::BaseUrl(_)))
        .then_some(())
        .expect("garbage URL must be rejected");
}

#[test]
fn the_clouds_have_addresses_of_their_own() {
    let us = BaseUrls::infer_from("https://vault.bitwarden.com").unwrap();
    assert_eq!(us.api, "https://api.bitwarden.com/");
    assert_eq!(us.identity, "https://identity.bitwarden.com/");
    let eu = BaseUrls::infer_from("https://bitwarden.eu").unwrap();
    assert_eq!(eu.identity, "https://identity.bitwarden.eu/");
    let own = BaseUrls::infer_from("https://notbitwarden.com").unwrap();
    assert_eq!(own.api, "https://notbitwarden.com/api/");
    assert!(matches!(
        BaseUrls::infer_from("garbage"),
        Err(Error::BaseUrl("server is not a valid URL"))
    ));
    assert_eq!(region_of("x.bitwarden.eu"), Region::Eu);
    assert_eq!(region_of("bitwarden.com"), Region::Us);
    assert_eq!(region_of("bitwarden.com.example"), Region::SelfHosted);
}

#[test]
fn parses_bitwarden_cloud_two_factor_challenge() {
    let ids = provider_ids(&vec![
        ProviderId::Text("0".into()),
        ProviderId::Text("7".into()),
    ]);
    assert_eq!(ids, vec![0, 7]);
}

#[test]
fn parses_integer_provider_ids() {
    let ids = provider_ids(&vec![ProviderId::Number(0), ProviderId::Number(7)]);
    assert_eq!(ids, vec![0, 7]);
    let ids = provider_ids(&vec![
        ProviderId::Other,
        ProviderId::Number(u64::MAX),
        ProviderId::Text("x".into()),
        ProviderId::Number(3),
    ]);
    assert_eq!(ids, vec![3]);
}

#[test]
fn genuine_bad_password_has_no_providers() {
    let body = TwoFactorErrorBody {
        two_factor_providers2: None,
        two_factor_providers: None,
    };
    assert!(matches!(
        refused_login(400, "bad".into(), Some(body)),
        Error::ServerStatus { status: 400, .. }
    ));
}

#[test]
fn a_challenge_is_told_from_a_refusal() {
    let both = TwoFactorErrorBody {
        two_factor_providers2: Some("{}".into()),
        two_factor_providers: Some(vec![0, 7]),
    };
    assert!(matches!(
        refused_login(400, String::new(), Some(both.clone())),
        Error::TwoFactorRequired(p) if p == vec![0, 7]
    ));
    let modern = TwoFactorErrorBody {
        two_factor_providers2: Some("{}".into()),
        two_factor_providers: Some(vec![]),
    };
    assert!(matches!(
        refused_login(400, String::new(), Some(modern)),
        Error::TwoFactorRequired(p) if p.is_empty()
    ));
    // Only a bad request challenges.
    assert!(matches!(
        refused_login(401, "x".into(), Some(both)),
        Error::ServerStatus { status: 401, .. }
    ));
    assert!(matches!(
        refused_login(400, "x".into(), None),
        Error::ServerStatus { status: 400, .. }
    ));
}

#[test]
fn a_login_sends_the_hash_alone() {
    let two_factor = Some(TwoFactor {
        provider: 0,
        token: "123456".into(),
        remember: true,
    });
    let req = client()
        .login_password(" User@Example.org ", b"hunter2", fast(), &two_factor)
        .unwrap();
    assert_eq!(req.method, Method::Post);
    assert_eq!(req.url, "https://vault.example.org/identity/connect/token");
    assert_eq!(
        req.headers,
        vec![("Auth-Email".to_owned(), "dXNlckBleGFtcGxlLm9yZw".to_owned())]
    );
    let form = match req.body {
        Body::Form(f) => f,
        other => panic!("expected a form, got {other:?}"),
    };
    let pairs: Vec<(&str, &str)> = form.iter().map(|(a, b)| (a.as_str(), b.as_str())).collect();
    assert_eq!(
        pairs,
        vec![
            ("grant_type", "password"),
            ("username", "user@example.org"),
            ("password", "ffkL07Lme6Zni3Ky/rHXktWgIesNlX6Jh4en+AkPvWc="),
            ("scope", "api offline_access"),
            ("client_id", "cli"),
            ("deviceType", "14"),
            ("deviceIdentifier", DEVICE),
            ("deviceName", "test"),
            ("twoFactorToken", "123456"),
            ("twoFactorProvider", "0"),
            ("twoFactorRemember", "1"),
        ]
    );
    let plain = build_password_form("e", "h", "d", "n", &None);
    assert_eq!(plain.len(), 8);
}

#[test]
fn a_login_by_key_is_not_challenged() {
    let req = client().login_api_key("user.abc", &b"s3cr3t".to_vec()).unwrap();
    let form = match req.body {
        Body::Form(f) => f,
        other => panic!("expected a form, got {other:?}"),
    };
    assert_eq!(form[0], ("grant_type".to_owned(), "client_credentials".to_owned()));
    assert_eq!(form[3], ("client_secret".to_owned(), "s3cr3t".to_owned()));
    assert!(matches!(
        client().login_api_key("x", &vec![0xff]),
        Err(Error::Credential("api-key client_secret is not valid UTF-8"))
    ));
}

#[test]
fn tokens_are_kept_and_renewed() {
    let mut c = client();
    assert!(!c.is_authenticated());
    assert!(matches!(c.bearer(), Err(Error::ServerStatus { status: 401, .. })));
    assert!(matches!(c.refresh(), Err(Error::ServerStatus { status: 401, .. })));
    assert!(!c.retry_after(401), "no token to refresh with");
    c.login_password_reply(200, Ok(token()), String::new(), None).unwrap();
    assert!(c.is_authenticated());
    assert_eq!(c.bearer().unwrap(), "Bearer abc");
    assert!(c.retry_after(401));
    assert!(!c.retry_after(403));
    // A refresh without a new refresh token keeps the old one.
    let renewed = TokenResponse {
        access_token: "new".into(),
        refresh_token: None,
        ..token()
    };
    c.refresh_reply(200, Ok(renewed), String::new()).unwrap();
    assert_eq!(c.bearer().unwrap(), "Bearer new");
    assert_eq!(c.refresh_token().as_deref(), Some("def"));
    // A refused refresh changes nothing.
    assert!(c.refresh_reply(400, Err("x".into()), "expired".into()).is_err());
    assert_eq!(c.bearer().unwrap(), "Bearer new");
    // A login by key without a refresh token drops the old one.
    let keyed = TokenResponse {
        refresh_token: None,
        ..token()
    };
    c.login_api_key_reply(200, Ok(keyed), String::new()).unwrap();
    assert_eq!(c.refresh_token(), None);
}

#[test]
fn vault_requests_carry_the_token() {
    let mut c = client();
    c.login_password_reply(200, Ok(token()), String::new(), None).unwrap();
    let sync = c.sync().unwrap();
    assert_eq!(sync.method, Method::Get);
    assert_eq!(sync.url, "https://vault.example.org/api/sync");
    assert_eq!(
        sync.headers,
        vec![("Authorization".to_owned(), "Bearer abc".to_owned())]
    );
    let del = c.delete_cipher("c1").unwrap();
    assert_eq!(del.method, Method::Delete);
    assert_eq!(del.url, "https://vault.example.org/api/ciphers/c1");
    let note = Cipher {
        cipher_type: 2,
        name: Some("2.n".into()),
        ..Cipher::default()
    };
    let create = c.create_cipher(&note).unwrap();
    assert_eq!(create.url, "https://vault.example.org/api/ciphers");
    match create.body {
        Body::Item(r) => {
            assert_eq!(r.secure_note, Some(0));
            assert_eq!(r.name, "2.n");
        }
        other => panic!("expected an item, got {other:?}"),
    }
    let update = c.update_cipher("c2", &note).unwrap();
    assert_eq!(update.method, Method::Put);
    assert!(matches!(client().sync(), Err(Error::ServerStatus { status: 401, .. })));
    assert!(c.https_only());
    let plain = BaseUrls::self_hosted("http://localhost:8000").unwrap();
    assert!(!BitwardenClient::new(plain, DEVICE.into(), "x").https_only());
    assert_eq!(c.prelogin("a@b").unwrap().url, "https://vault.example.org/identity/accounts/prelogin");
}

#[test]
fn items_are_sent_whole() {
    let r = CipherRequest::from_cipher(&Cipher::default());
    assert_eq!(r.name, "");
    assert_eq!(r.secure_note, None);
    let c = Cipher {
        organization_id: Some("o".into()),
        key: Some("k".into()),
        folder_id: Some("f".into()),
        ..Cipher::default()
    };
    let r = CipherRequest::from_cipher(&c);
    assert_eq!(r.organization_id.as_deref(), Some("o"));
    assert_eq!(r.key.as_deref(), Some("k"));
    assert_eq!(r.folder_id.as_deref(), Some("f"));
}

#[test]
fn answers_are_judged_by_their_status() {
    assert!(expect_success(204, String::new()).is_ok());
    assert!(matches!(
        expect_success(404, "gone".into()),
        Err(Error::ServerStatus { status: 404, .. })
    ));
    assert_eq!(handle_json(200, Ok(5), String::new()).unwrap(), 5);
    assert!(matches!(
        handle_json::<u8>(200, Err("not json".into()), String::new()),
        Err(Error::Transport(_))
    ));
    assert_eq!(
        handle_json::<u8>(500, Ok(1), "boom".into()).unwrap_err().message(),
        "server returned 500: boom"
    );
    assert_eq!(
        Error::TwoFactorRequired(vec![0, 7]).message(),
        "two-factor authentication required (provider [0, 7]) — not yet implemented"
    );
}

#[test]
fn organizations_without_a_key_are_passed_over() {
    let org = |id: Option<&str>, key: Option<&str>| SyncOrganization {
        id: id.map(str::to_owned),
        key: key.map(str::to_owned),
    };
    let s = SyncResponse {
        private_key: Some("2.p".into()),
        organizations: vec![
            org(Some("a"), Some("4.a")),
            org(Some("b"), None),
            org(None, Some("4.c")),
            org(Some("d"), Some("4.d")),
        ],
        folders: vec![],
        ciphers: vec![],
    };
    assert_eq!(
        s.organization_keys(),
        vec![
            ("a".to_owned(), "4.a".to_owned()),
            ("d".to_owned(), "4.d".to_owned())
        ]
    );
    assert_eq!(s.private_key().as_deref(), Some("2.p"));
}

#[test]
fn devices_keep_their_identifier() {
    let given = Some("11111111222233334444555555555555".to_owned());
    assert_eq!(session_device(&given).as_deref(), Some(DEVICE));
    let fresh = session_device(&None).unwrap();
    assert_eq!(fresh.len(), 36);
    assert_ne!(Some(fresh), session_device(&Some("garbage".into())));
    let drawn = Some([0xffu8; 16]);
    let made = session_device_with(&None, drawn);
    assert_eq!(made.as_deref(), Some("ffffffff-ffff-4fff-bfff-ffffffffffff"));
    assert_eq!(session_device_with(&Some("garbage".into()), drawn), made);
    assert_eq!(session_device_with(&given, None).as_deref(), Some(DEVICE));
    assert_eq!(session_device_with(&None, None), None);
    assert_eq!(
        fresh_device(Some([0, 1, 2, 3, 4, 5, 6, 7, 8, 9, 10, 11, 12, 13, 14, 15])).as_deref(),
        Some("00010203-0405-4607-8809-0a0b0c0d0e0f")
    );
    assert_eq!(client().device_id(), DEVICE);
    assert_eq!(client().user_agent(), "vault/0.1.0 (Spacecraft-Software)");
}

#[test]
fn mlkem_client_kx_round_trips() {
    assert!(MlKemActive::start_with(&None).is_none());
    let one = MlKemActive::start_with(&Some(vec![1u8; 64])).unwrap();
    let same = MlKemActive::start_with(&Some(vec![1u8; 64])).unwrap();
    assert_eq!(one.pub_key(), same.pub_key());
    let active = MlKemActive::start().expect("start");
    assert_ne!(active.pub_key(), one.pub_key());
    let ek_bytes = active.pub_key().to_vec();
    assert_eq!(ek_bytes.len(), MLKEM768_ENCAP_LEN);

    let encoded = Encoded::<EncapKey>::try_from(ek_bytes.as_slice()).expect("ek size");
    let encap_key = EncapKey::from_bytes(&encoded);
    let (ciphertext, server_secret) = encap_key
        .encapsulate(&mut rsa::rand_core::OsRng)
        .expect("encapsulate");
    assert_eq!(ciphertext.len(), MLKEM768_CIPHERTEXT_LEN);

    let client_secret = active.complete(&ciphertext).expect("complete");
    assert_eq!(client_secret, server_secret[..].to_vec());
    assert!(active.complete(&ciphertext[1..]).is_none());
}

#[test]
fn hybrid_pub_key_layout_is_pq_then_classical() {
    let share = combine(&vec![1u8; MLKEM768_ENCAP_LEN], &vec![2u8; X25519_LEN]);
    assert_eq!(share.len(), MLKEM768_ENCAP_LEN + X25519_LEN);
    assert_eq!(share[0], 1);
    assert_eq!(share[MLKEM768_ENCAP_LEN], 2);
}

#[test]
fn hybrid_rejects_wrong_length_server_share() {
    assert!(split_share(&[0u8; 16]).is_none());
    let mut share = vec![3u8; MLKEM768_CIPHERTEXT_LEN];
    share.extend_from_slice(&[4u8; X25519_LEN]);
    let (pq, classical) = split_share(&share).unwrap();
    assert_eq!(pq, vec![3u8; MLKEM768_CIPHERTEXT_LEN]);
    assert_eq!(classical, vec![4u8; X25519_LEN]);
}

#[test]
fn a_refresh_token_can_be_given() {
    let mut c = client();
    assert_eq!(c.refresh_token(), None);
    c.set_refresh_token("rt".into());
    assert_eq!(c.refresh_token().as_deref(), Some("rt"));
    assert!(!c.is_authenticated());
}
