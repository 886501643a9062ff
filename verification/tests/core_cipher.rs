//! Items: encryption, decryption and what each kind stores.
use vault::vault_core::cipher::{
    split_key, Card, Cipher, CustomField, DecryptOptions, Identity, Login, LoginUri, PlainCard,
    PlainCipher, PlainIdentity, ITEM_IV_BYTES,
};
use vault::vault_core::enc_string::{draw_iv, iv_of, EncString};
use vault::vault_core::{decrypt_user_key, Error};

fn seal(enc: &[u8; 32], mac: &[u8; 32], s: &str) -> String {
    EncString::encrypt(enc, mac, s.as_bytes()).unwrap().serialize()
}

fn login_item() -> PlainCipher {
    PlainCipher {
        id: "id-1".into(),
        cipher_type: 1,
        folder_id: Some("folder-1".into()),
        name: Some("GitHub".into()),
        notes: Some("a note".into()),
        username: Some("alice".into()),
        password: Some("hunter2".into()),
        totp: Some("otpauth://totp/x".into()),
        primary_uri: Some("https://github.com".into()),
        card: None,
        identity: None,
    }
}

#[test]
fn from_plain_then_decrypt_round_trips_login() {
    let enc = [0x11u8; 32];
    let mac = [0x22u8; 32];
    let plain = login_item();
    let cipher = Cipher::from_plain(&plain, &enc, &mac).unwrap();
    assert_eq!(cipher.cipher_type, 1);
    assert_eq!(cipher.id, "id-1");
    assert_eq!(cipher.folder_id.as_deref(), Some("folder-1"));
    assert!(cipher.name.as_deref().unwrap().starts_with("2."));
    assert!(cipher.login.as_ref().unwrap().password.is_some());

    let back = cipher.decrypt(&enc, &mac, DecryptOptions::all()).unwrap();
    assert_eq!(back.name.as_deref(), Some("GitHub"));
    assert_eq!(back.notes.as_deref(), Some("a note"));
    assert_eq!(back.username.as_deref(), Some("alice"));
    assert_eq!(back.password.as_deref(), Some("hunter2"));
    assert_eq!(back.totp.as_deref(), Some("otpauth://totp/x"));
    assert_eq!(back.primary_uri.as_deref(), Some("https://github.com"));
}

#[test]
fn from_plain_secure_note_has_no_login_object() {
    let enc = [1u8; 32];
    let mac = [2u8; 32];
    let plain = PlainCipher {
        id: String::new(),
        cipher_type: 2,
        folder_id: None,
        name: Some("My note".into()),
        notes: Some("secret text".into()),
        username: None,
        password: None,
        totp: None,
        primary_uri: None,
        card: None,
        identity: None,
    };
    let cipher = Cipher::from_plain(&plain, &enc, &mac).unwrap();
    assert!(cipher.login.is_none(), "secure notes carry no login object");
    let back = cipher.decrypt(&enc, &mac, DecryptOptions::all()).unwrap();
    assert_eq!(back.name.as_deref(), Some("My note"));
    assert_eq!(back.notes.as_deref(), Some("secret text"));
}

#[test]
fn from_plain_omits_absent_login_fields() {
    let enc = [3u8; 32];
    let mac = [4u8; 32];
    let plain = PlainCipher {
        id: String::new(),
        cipher_type: 1,
        folder_id: None,
        name: Some("partial".into()),
        notes: None,
        username: Some("bob".into()),
        password: None,
        totp: None,
        primary_uri: None,
        card: None,
        identity: None,
    };
    let cipher = Cipher::from_plain(&plain, &enc, &mac).unwrap();
    let login = cipher.login.as_ref().unwrap();
    assert!(login.username.is_some());
    assert!(login.password.is_none());
    assert!(login.totp.is_none());
    assert!(login.uris.is_none());
    assert!(cipher.notes.is_none());
}

#[test]
fn decrypt_card_fields() {
    let enc = [0x33u8; 32];
    let mac = [0x44u8; 32];
    let e = |s: &str| Some(seal(&enc, &mac, s));
    let cipher = Cipher {
        id: "card-1".into(),
        cipher_type: 3,
        name: Some(seal(&enc, &mac, "Visa")),
        card: Some(Card {
            cardholder_name: e("Alice Example"),
            brand: e("Visa"),
            number: e("4111111111111111"),
            exp_month: e("4"),
            exp_year: e("2030"),
            code: e("123"),
        }),
        ..Cipher::default()
    };
    let plain = cipher
        .decrypt(
            &enc,
            &mac,
            DecryptOptions {
                card: true,
                ..DecryptOptions::default()
            },
        )
        .unwrap();
    let card = plain.card.as_ref().expect("card decrypted");
    assert_eq!(card.number.as_deref(), Some("4111111111111111"));
    assert_eq!(card.code.as_deref(), Some("123"));
    assert_eq!(card.brand.as_deref(), Some("Visa"));
    assert_eq!(card.exp_month.as_deref(), Some("4"));
    assert!(plain.identity.is_none());
}

#[test]
fn decrypt_identity_fields() {
    let enc = [0x55u8; 32];
    let mac = [0x66u8; 32];
    let e = |s: &str| Some(seal(&enc, &mac, s));
    let cipher = Cipher {
        id: "id-1".into(),
        cipher_type: 4,
        identity: Some(Identity {
            first_name: e("Alice"),
            last_name: e("Example"),
            email: e("alice@example.org"),
            phone: e("+1 555 0100"),
            address1: e("1 Void Navy Way"),
            city: e("Amber"),
            ..Identity::default()
        }),
        ..Cipher::default()
    };
    let plain = cipher
        .decrypt(
            &enc,
            &mac,
            DecryptOptions {
                identity: true,
                ..DecryptOptions::default()
            },
        )
        .unwrap();
    let id = plain.identity.as_ref().expect("identity decrypted");
    assert_eq!(id.first_name.as_deref(), Some("Alice"));
    assert_eq!(id.last_name.as_deref(), Some("Example"));
    assert_eq!(id.email.as_deref(), Some("alice@example.org"));
    assert_eq!(id.phone.as_deref(), Some("+1 555 0100"));
    assert_eq!(id.address1.as_deref(), Some("1 Void Navy Way"));
    assert_eq!(id.ssn, None);
    assert!(plain.card.is_none());
}

#[test]
fn new_cards_and_identities_store_their_own_fields() {
    let enc = [5u8; 32];
    let mac = [6u8; 32];
    let mut plain = login_item();
    plain.cipher_type = 3;
    let mut card = PlainCard::default();
    card.number = Some("4111".into());
    plain.card = Some(card);
    let mut identity = PlainIdentity::default();
    identity.city = Some("Amber".into());
    plain.identity = Some(identity);
    let card = Cipher::from_plain(&plain, &enc, &mac).unwrap();
    assert!(card.login.is_none());
    assert!(card.identity.is_none());
    let back = card.decrypt(&enc, &mac, DecryptOptions::all()).unwrap();
    assert_eq!(back.card.as_ref().unwrap().number.as_deref(), Some("4111"));
    assert_eq!(back.password, None);

    plain.cipher_type = 4;
    let identity = Cipher::from_plain(&plain, &enc, &mac).unwrap();
    assert!(identity.card.is_none());
    let back = identity.decrypt(&enc, &mac, DecryptOptions::all()).unwrap();
    assert_eq!(back.identity.as_ref().unwrap().city.as_deref(), Some("Amber"));
}

#[test]
fn only_what_is_asked_for_is_decrypted() {
    let enc = [7u8; 32];
    let mac = [8u8; 32];
    let cipher = Cipher::from_plain(&login_item(), &enc, &mac).unwrap();
    let back = cipher.decrypt(&enc, &mac, DecryptOptions::username_only()).unwrap();
    assert_eq!(back.name.as_deref(), Some("GitHub"));
    assert_eq!(back.username.as_deref(), Some("alice"));
    assert_eq!(back.password, None);
    assert_eq!(back.notes, None);
    assert_eq!(DecryptOptions::username_only().username, true);
    assert_eq!(DecryptOptions::default().username, false);
}

#[test]
fn an_item_key_is_unwrapped_first() {
    let enc = [9u8; 32];
    let mac = [10u8; 32];
    let own_enc = [11u8; 32];
    let own_mac = [12u8; 32];
    let mut material = own_enc.to_vec();
    material.extend_from_slice(&own_mac);
    let key = EncString::encrypt(&enc, &mac, &material).unwrap().serialize();
    let cipher = Cipher {
        key: Some(key),
        name: Some(seal(&own_enc, &own_mac, "under its own key")),
        ..Cipher::default()
    };
    assert_eq!(
        cipher.decrypt_name(&enc, &mac).unwrap().as_deref(),
        Some("under its own key")
    );
    assert_eq!(cipher.effective_keys(&enc, &mac).unwrap(), (own_enc, own_mac));
    // A key under keys that are not held leaves the item closed.
    assert!(matches!(
        cipher.decrypt_name(&[0u8; 32], &[0u8; 32]),
        Err(Error::MacMismatch)
    ));
}

#[test]
fn empty_and_absent_fields_have_no_value() {
    let enc = [1u8; 32];
    let cipher = Cipher {
        name: Some(String::new()),
        ..Cipher::default()
    };
    assert_eq!(cipher.decrypt_name(&enc, &enc).unwrap(), None);
    assert_eq!(Cipher::default().decrypt_name(&enc, &enc).unwrap(), None);
    // An empty text in an envelope is a value.
    let cipher = Cipher {
        name: Some(seal(&enc, &enc, "")),
        ..Cipher::default()
    };
    assert_eq!(cipher.decrypt_name(&enc, &enc).unwrap().as_deref(), Some(""));
}

#[test]
fn bytes_that_are_no_text_are_an_error() {
    let enc = [1u8; 32];
    let bad = EncString::encrypt(&enc, &enc, &[0xff, 0xfe]).unwrap().serialize();
    let cipher = Cipher {
        name: Some(bad),
        ..Cipher::default()
    };
    assert!(matches!(
        cipher.decrypt_name(&enc, &enc),
        Err(Error::EncString("field is not valid UTF-8"))
    ));
}

#[test]
fn user_keys_have_sixty_four_bytes() {
    let enc = [1u8; 32];
    let mut key = vec![7u8; 32];
    key.extend_from_slice(&[9u8; 32]);
    let wrapped = EncString::encrypt(&enc, &enc, &key).unwrap().serialize();
    assert_eq!(
        decrypt_user_key(&wrapped, &enc, &enc).unwrap(),
        ([7u8; 32], [9u8; 32])
    );
    let short = EncString::encrypt(&enc, &enc, &key[..63]).unwrap().serialize();
    assert!(matches!(
        decrypt_user_key(&short, &enc, &enc),
        Err(Error::EncString("user-key plaintext must be 64 bytes"))
    ));
    assert_eq!(split_key(&key).unwrap(), ([7u8; 32], [9u8; 32]));
}

#[test]
fn the_first_field_that_fails_decides() {
    let enc = [1u8; 32];
    let cipher = Cipher {
        cipher_type: 1,
        name: Some(seal(&enc, &enc, "ok")),
        notes: Some("0.legacy".into()),
        login: Some(Login {
            password: Some("no dot".into()),
            uris: Some(vec![LoginUri { uri: None }]),
            ..Login::default()
        }),
        ..Cipher::default()
    };
    assert!(matches!(
        cipher.decrypt(&enc, &enc, DecryptOptions::all()),
        Err(Error::EncString("legacy unauthenticated type rejected"))
    ));
    let opts = DecryptOptions {
        notes: false,
        ..DecryptOptions::all()
    };
    assert!(matches!(
        cipher.decrypt(&enc, &enc, opts),
        Err(Error::EncString("missing type prefix"))
    ));
}

#[test]
fn copies_keep_every_field() {
    let enc = [1u8; 32];
    let mut c = Cipher::from_plain(&login_item(), &enc, &enc).unwrap();
    c.fields = Some(vec![CustomField {
        name: Some("n".into()),
        value: Some("v".into()),
        field_type: 1,
    }]);
    c.organization_id = Some("org".into());
    let d = c.clone();
    assert_eq!(d.organization_id.as_deref(), Some("org"));
    assert_eq!(d.fields.as_ref().unwrap()[0].value.as_deref(), Some("v"));
    assert_eq!(
        d.login.as_ref().unwrap().uris.as_ref().unwrap().len(),
        c.login.as_ref().unwrap().uris.as_ref().unwrap().len()
    );
}

#[test]
fn every_field_has_an_initialization_vector_of_its_own() {
    let enc = [5u8; 32];
    let mac = [6u8; 32];
    let ivs: Vec<u8> = (0..ITEM_IV_BYTES).map(|i| (i / 16) as u8).collect();
    let c = Cipher::from_plain_with(&login_item(), &enc, &mac, &ivs);
    let at = |k: u8, s: &str| {
        Some(EncString::encrypt_with_iv(&enc, &mac, [k; 16], s.as_bytes()).serialize())
    };
    assert_eq!(c.name, at(0, "GitHub"));
    assert_eq!(c.notes, at(1, "a note"));
    let login = c.login.as_ref().unwrap();
    assert_eq!(login.username, at(2, "alice"));
    assert_eq!(login.password, at(3, "hunter2"));
    assert_eq!(login.totp, at(4, "otpauth://totp/x"));
    assert_eq!(login.uris.as_ref().unwrap()[0].uri, at(5, "https://github.com"));
    let mut plain = login_item();
    plain.cipher_type = 4;
    let mut identity = PlainIdentity::default();
    identity.title = Some("Dr".into());
    identity.country = Some("US".into());
    plain.identity = Some(identity);
    let c = Cipher::from_plain_with(&plain, &enc, &mac, &ivs);
    assert_eq!(c.identity.as_ref().unwrap().title, at(12, "Dr"));
    assert_eq!(c.identity.as_ref().unwrap().country, at(29, "US"));
}

#[test]
fn drawn_bytes_are_the_initialization_vector() {
    let bytes: Vec<u8> = (0..16).collect();
    assert_eq!(iv_of(Some(bytes.clone())).unwrap().to_vec(), bytes);
    assert_eq!(iv_of(None), None);
    assert_ne!(draw_iv().unwrap(), draw_iv().unwrap());
}
