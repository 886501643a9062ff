//! Envelopes, key derivation and exports.
use base64::engine::general_purpose::STANDARD as B64;
use base64::Engine;
use hmac::Mac;
use vault::crypto::{hex_text, Argon2Error, Base64Error};
use vault::vault_core::enc_string::EncString;
use vault::vault_core::kdf::{derive_master_key, stretch_master_key, KdfParams, KdfType};
use vault::vault_core::{master_password_hash, EncryptedExport, Error};

fn synth_export(
    password: &str,
    salt: &str,
    plaintext: &[u8],
    params: KdfParams,
) -> EncryptedExport {
    let derived = derive_master_key(password.as_bytes(), salt.as_bytes(), params).unwrap();
    let (enc_key, mac_key) = stretch_master_key(&derived).unwrap();
    let validation_pt = hex_text(&derived);
    let validation = EncString::encrypt(&enc_key, &mac_key, validation_pt.as_bytes()).unwrap();
    let data = EncString::encrypt(&enc_key, &mac_key, plaintext).unwrap();
    EncryptedExport {
        encrypted: true,
        password_protected: true,
        salt: salt.to_owned(),
        kdf_type: params.kind,
        kdf_iterations: params.iterations,
        kdf_memory: params.memory_kib,
        kdf_parallelism: params.parallelism,
        enc_key_validation: validation.serialize(),
        data: data.serialize(),
    }
}

fn fast() -> KdfParams {
    KdfParams {
        kind: KdfType::Pbkdf2Sha256,
        iterations: 1_000,
        memory_kib: None,
        parallelism: None,
    }
}

fn hex(s: &str) -> Vec<u8> {
    (0..s.len() / 2)
        .map(|i| u8::from_str_radix(&s[2 * i..2 * i + 2], 16).unwrap())
        .collect()
}

#[test]
fn enc_string_round_trip() {
    let enc_key = [0x11u8; 32];
    let mac_key = [0x22u8; 32];
    let message = b"the molten amber holds the void";
    let ct = EncString::encrypt(&enc_key, &mac_key, message).unwrap();
    let pt = ct.decrypt(&enc_key, &mac_key).unwrap();
    assert_eq!(pt, message);
}

#[test]
fn enc_string_serialize_parse_round_trip() {
    let enc_key = [0xAAu8; 32];
    let mac_key = [0xBBu8; 32];
    let ct = EncString::encrypt(&enc_key, &mac_key, b"hello").unwrap();
    let wire = ct.serialize();
    assert!(wire.starts_with("2."));
    let parsed = EncString::parse(&wire).unwrap();
    assert_eq!(parsed.decrypt(&enc_key, &mac_key).unwrap(), b"hello");
}

#[test]
fn enc_string_rejects_legacy_types() {
    let cases = ["0.aaaa", "1.bbbb"];
    for s in cases {
        match EncString::parse(s) {
            Err(Error::EncString(msg)) => {
                assert!(msg.contains("legacy") || msg.contains("missing"));
            }
            other => panic!("expected legacy rejection, got {other:?}"),
        }
    }
}

#[test]
fn enc_string_detects_tampering() {
    let enc_key = [0x33u8; 32];
    let mac_key = [0x44u8; 32];
    let ct = EncString::encrypt(&enc_key, &mac_key, b"super secret").unwrap();
    let mut wire = ct.serialize();
    let bar1 = wire.find('|').unwrap();
    let bar2 = bar1 + 1 + wire[bar1 + 1..].find('|').unwrap();
    let ct_b64 = &wire[bar1 + 1..bar2];
    let mut ct_bytes = B64.decode(ct_b64).unwrap();
    ct_bytes[0] ^= 0x01;
    let mutated_b64 = B64.encode(&ct_bytes);
    wire.replace_range(bar1 + 1..bar2, &mutated_b64);
    let parsed = EncString::parse(&wire).unwrap();
    matches!(parsed.decrypt(&enc_key, &mac_key), Err(Error::MacMismatch))
        .then_some(())
        .expect("tampered ciphertext must fail MAC");
}

#[test]
fn export_decrypt_pbkdf2() {
    let params = fast();
    let plaintext = br#"{"items":[{"name":"hull-camera","login":{"username":"discovery"}}]}"#;
    let export = synth_export(
        "correct horse battery staple",
        "user@example.org",
        plaintext,
        params,
    );
    let env = export.accept().unwrap();
    let pt = env.decrypt(b"correct horse battery staple").unwrap();
    assert_eq!(pt, plaintext);
}

#[test]
fn export_decrypt_argon2id() {
    let params = KdfParams {
        kind: KdfType::Argon2id,
        iterations: 2,
        memory_kib: Some(8 * 1024),
        parallelism: Some(2),
    };
    let plaintext = br#"{"folders":[],"items":[]}"#;
    let export = synth_export("an even better password", "salt-bytes", plaintext, params);
    let env = export.accept().unwrap();
    let pt = env.decrypt(b"an even better password").unwrap();
    assert_eq!(pt, plaintext);
}

#[test]
fn export_rejects_wrong_password() {
    let export = synth_export("right", "salt", b"x", fast());
    let env = export.accept().unwrap();
    matches!(env.decrypt(b"wrong"), Err(Error::BadExportPassword))
        .then_some(())
        .expect("wrong password must yield BadExportPassword");
}

#[test]
fn export_rejects_unencrypted_envelope() {
    let envelope = EncryptedExport {
        encrypted: false,
        password_protected: false,
        salt: "x".into(),
        kdf_type: KdfType::Pbkdf2Sha256,
        kdf_iterations: 1,
        kdf_memory: None,
        kdf_parallelism: None,
        enc_key_validation: String::new(),
        data: String::new(),
    };
    matches!(envelope.accept(), Err(Error::UnsupportedExport(_)))
        .then_some(())
        .expect("encrypted:false must be rejected");
}

#[test]
fn hkdf_stretch_known_answer() {
    let master = [0u8; 32];
    let (enc, mac) = stretch_master_key(&master).unwrap();
    assert_ne!(enc, [0u8; 32]);
    assert_ne!(mac, [0u8; 32]);
    assert_ne!(enc, mac, "enc and mac must diverge — different info strings");
    assert_eq!(
        enc.to_vec(),
        hex("39793bd07956c840a929af34a9657f87d141f0b988f56bbff46495e9e11b9234")
    );
    assert_eq!(
        mac.to_vec(),
        hex("e091d1134bc7288640caf77b6fd83bb41cdea3cbfd7bb727eae73d9243b21e01")
    );
}

#[test]
fn envelope_known_answer() {
    let iv: [u8; 16] = [0, 1, 2, 3, 4, 5, 6, 7, 8, 9, 10, 11, 12, 13, 14, 15];
    let e = EncString::encrypt_with_iv(
        &[0x11u8; 32],
        &[0x22u8; 32],
        iv,
        b"the molten amber holds the void",
    );
    assert_eq!(
        e.serialize(),
        "2.AAECAwQFBgcICQoLDA0ODw==|2dPrkJemsXjdPbeha6vo8kvutiaaZBznK/+D/AK14f4=|\
         IFfkhP0cyYWVR5NbPevjKF9RF6H99QGcldDEl+/65gk="
    );
    assert_eq!(e.iv(), &iv);
    assert_eq!(e.mac().len(), 32);
    assert_eq!(e.ciphertext().len(), 32);
    // The first block of the AES-256-CBC vector of SP 800-38A.
    let key: Vec<u8> = hex("603deb1015ca71be2b73aef0857d77811f352c073b6108d72d9810a30914dff4");
    let mut k = [0u8; 32];
    k.copy_from_slice(&key);
    let v = EncString::encrypt_with_iv(&k, &k, iv, &hex("6bc1bee22e409f96e93d7e117393172a"));
    assert_eq!(
        v.ciphertext()[..16].to_vec(),
        hex("f58c4c04d6e5f1ba779eabfb5f7bfbd6")
    );
}

#[test]
fn every_fault_of_an_envelope_is_told() {
    let fault = |s: &str| EncString::parse(s).unwrap_err();
    assert_eq!(fault("no dot"), Error::EncString("missing type prefix"));
    assert_eq!(fault("3.a|b|c"), Error::EncString("unknown EncString type"));
    assert_eq!(fault("2.AAAA"), Error::EncString("missing ciphertext"));
    assert_eq!(fault("2.AAAA|AAAA"), Error::EncString("missing mac"));
    assert_eq!(
        fault("2.AAAA|AAAA|AAAA"),
        Error::EncString("iv length must be 16")
    );
    let iv = "AAECAwQFBgcICQoLDA0ODw==";
    assert_eq!(
        fault(&format!("2.{iv}|AAAA|AAAA")),
        Error::EncString("mac length must be 32")
    );
    assert_eq!(
        fault("2.*AAA|AAAA|AAAA"),
        Error::Base64(Base64Error::InvalidByte(0, b'*'))
    );
    assert!(matches!(fault("2.AAAA|A|AAAA"), Error::Base64(_)));
    assert_eq!(
        fault("2.*AAA|AAAA|AAAA").message(),
        "base64 decode failed: Invalid symbol 42, offset 0."
    );
    assert!(matches!(
        EncString::from_parts(vec![0; 16], vec![1], vec![2; 32]),
        Ok(_)
    ));
}

#[test]
fn wrong_padding_is_told_apart_from_a_wrong_tag() {
    let key = [1u8; 32];
    let e = EncString::encrypt_with_iv(&key, &key, [0u8; 16], b"0123456789abcdef");
    // The right authentication key with another encryption key.
    let r = e.decrypt(&[2u8; 32], &key);
    assert!(matches!(r, Err(Error::Unpad)) || r.unwrap() != b"0123456789abcdef");
    assert!(matches!(e.decrypt(&key, &[2u8; 32]), Err(Error::MacMismatch)));
    assert!(e.check_mac(e.mac()).is_ok());
    assert_eq!(e.check_mac(&[0u8; 32]), Err(Error::MacMismatch));
    // A ciphertext that is no whole number of blocks cannot be unpadded.
    let iv = [3u8; 16];
    let mut tagged = iv.to_vec();
    tagged.extend_from_slice(&[9u8; 5]);
    let mut mac = <hmac::Hmac<sha2::Sha256> as Mac>::new_from_slice(&key).unwrap();
    mac.update(&tagged);
    let odd = EncString::from_parts(
        iv.to_vec(),
        vec![9u8; 5],
        mac.finalize().into_bytes().to_vec(),
    )
    .unwrap();
    assert_eq!(odd.decrypt(&key, &key), Err(Error::Unpad));
}

#[test]
fn pbkdf2_known_answer() {
    let params = KdfParams {
        iterations: 1,
        ..fast()
    };
    assert_eq!(
        derive_master_key(b"password", b"salt", params).unwrap().to_vec(),
        hex("120fb6cffcf8b32c43e7225256c4f837a86548c92ccc35480805987cb70be17b")
    );
    let params = KdfParams {
        iterations: 4096,
        ..fast()
    };
    assert_eq!(
        derive_master_key(b"password", b"salt", params).unwrap().to_vec(),
        hex("c5e478d59288c841aa530db6845c4c8d962893a001ce4e11a4963873aa98134a")
    );
}

#[test]
fn password_hash_known_answer() {
    let key = derive_master_key(b"hunter2", b"user@example.org", fast()).unwrap();
    assert_eq!(
        key.to_vec(),
        hex("8b4d254231a0cfcd21698aff1699334f91e929d9c8855114bb42d4e66bac3397")
    );
    assert_eq!(
        master_password_hash(&key, b"hunter2").unwrap(),
        "ffkL07Lme6Zni3Ky/rHXktWgIesNlX6Jh4en+AkPvWc="
    );
}

#[test]
fn faulty_parameters_are_told() {
    let argon = KdfParams {
        kind: KdfType::Argon2id,
        iterations: 1,
        memory_kib: Some(8),
        parallelism: Some(1),
    };
    let fault = |p: KdfParams| derive_master_key(b"pw", b"salt", p).unwrap_err();
    assert_eq!(
        fault(KdfParams {
            iterations: 0,
            ..fast()
        }),
        Error::Kdf("iterations must be > 0")
    );
    assert_eq!(
        fault(KdfParams {
            memory_kib: None,
            ..argon
        }),
        Error::Kdf("argon2 memory missing")
    );
    assert_eq!(
        fault(KdfParams {
            parallelism: None,
            ..argon
        }),
        Error::Kdf("argon2 lanes missing")
    );
    assert_eq!(
        fault(KdfParams {
            memory_kib: Some(7),
            ..argon
        }),
        Error::Argon2(Argon2Error::MemoryTooLittle)
    );
    assert_eq!(
        fault(KdfParams {
            memory_kib: Some(15),
            parallelism: Some(2),
            ..argon
        }),
        Error::Argon2(Argon2Error::MemoryTooLittle)
    );
    assert_eq!(
        fault(KdfParams {
            parallelism: Some(0),
            ..argon
        }),
        Error::Argon2(Argon2Error::ThreadsTooFew)
    );
    assert_eq!(
        fault(KdfParams {
            memory_kib: Some(u32::MAX),
            parallelism: Some(0x100_0000),
            ..argon
        }),
        Error::Argon2(Argon2Error::ThreadsTooMany)
    );
    assert_eq!(
        fault(KdfParams {
            parallelism: Some(u32::MAX),
            ..argon
        }),
        Error::Argon2(Argon2Error::ThreadsTooMany)
    );
    assert_eq!(
        fault(KdfParams {
            memory_kib: Some(7),
            ..argon
        })
        .message(),
        "argon2: memory cost is too small"
    );
    // The smallest costs that Argon2 takes give a key of their own.
    let a = derive_master_key(b"pw", b"salt", argon).unwrap();
    let b = derive_master_key(b"pw", b"other salt", argon).unwrap();
    let c = derive_master_key(b"pw2", b"salt", argon).unwrap();
    assert_ne!(a, b);
    assert_ne!(a, c);
    assert_ne!(a, derive_master_key(b"pw", b"salt", KdfParams { iterations: 1, ..fast() }).unwrap());
}

#[test]
fn functions_are_named_by_numbers() {
    assert_eq!(KdfType::try_from(0u8), Ok(KdfType::Pbkdf2Sha256));
    assert_eq!(KdfType::try_from(1u8), Ok(KdfType::Argon2id));
    assert_eq!(
        KdfType::try_from(2u8),
        Err(Error::UnsupportedExport("unknown kdfType"))
    );
    assert_eq!(u8::from(KdfType::Argon2id), 1);
    assert_eq!(u8::from(KdfType::Pbkdf2Sha256), 0);
    assert_eq!(KdfParams::pbkdf2_default().iterations, 600_000);
    assert_eq!(KdfParams::argon2id_default().memory_kib, Some(65_536));
}

#[test]
fn exports_under_an_account_key_are_refused() {
    let mut export = synth_export("pw", "salt", b"x", fast());
    export.password_protected = false;
    assert_eq!(
        export.clone().accept().unwrap_err(),
        Error::UnsupportedExport("account-key-protected exports require a logged-in session")
    );
    assert_eq!(export.kdf_params(), fast());
    // A validation envelope around something else is a wrong password too.
    let derived = derive_master_key(b"pw", b"salt", fast()).unwrap();
    let (enc, mac) = stretch_master_key(&derived).unwrap();
    export.enc_key_validation = EncString::encrypt(&enc, &mac, b"not the key").unwrap().serialize();
    assert_eq!(export.open_with(&derived), Err(Error::BadExportPassword));
    export.enc_key_validation = "garbage".into();
    assert_eq!(
        export.open_with(&derived),
        Err(Error::EncString("missing type prefix"))
    );
}

#[test]
fn hexadecimal_is_lower_case() {
    assert_eq!(hex_text(&[0x00, 0x9a, 0xff, 0x10]), "009aff10");
    assert_eq!(hex_text(&[]), "");
}

#[test]
fn messages_of_the_core() {
    assert_eq!(Error::MacMismatch.message(), "MAC verification failed");
    assert_eq!(Error::Unpad.message(), "CBC unpadding failed");
    assert_eq!(Error::Hkdf.message(), "HKDF expand failed");
    assert_eq!(
        Error::BadExportPassword.message(),
        "export password did not validate"
    );
    assert_eq!(
        Error::Kdf("iterations must be > 0").message(),
        "invalid KDF parameters: iterations must be > 0"
    );
    assert_eq!(Error::Json("x".into()).message(), "export JSON parse failed: x");
    assert_eq!(
        Error::Base64(Base64Error::InvalidLastSymbol(3, 66)).message(),
        "base64 decode failed: Invalid last symbol 66, offset 3."
    );
    assert_eq!(
        Error::Base64(Base64Error::InvalidLength(5)).message(),
        "base64 decode failed: Invalid input length: 5"
    );
    assert_eq!(
        Error::Base64(Base64Error::InvalidPadding).message(),
        "base64 decode failed: Invalid padding"
    );
}

#[test]
fn what_parses_is_the_serialization_of_what_it_parses_to() {
    let text = EncString::encrypt_with_iv(&[1u8; 32], &[2u8; 32], [0u8; 16], b"text").serialize();
    assert!(text.starts_with("2.AAAAAAAAAAAAAAAAAAAAAA==|"));
    assert_eq!(EncString::parse(&text).unwrap().serialize(), text);
    let other = text.replacen("AA==", "AB==", 1);
    assert!(matches!(EncString::parse(&other), Err(Error::Base64(_))));
}
