//! Organization keys.
use base64::Engine as _;
use rsa::pkcs8::EncodePrivateKey;
use rsa::rand_core::{CryptoRng, RngCore};
use rsa::traits::PublicKeyParts as _;
use rsa::{Oaep, RsaPrivateKey, RsaPublicKey};
use vault::vault_core::org_key::{parse_type4, split_org_key, AccountKey};
use vault::vault_core::{EncString, Error};

const USER_ENC: [u8; 32] = [1u8; 32];
const USER_MAC: [u8; 32] = [2u8; 32];

/// A generator for test keys: the same numbers for the same seed.
struct Seeded(u64);

impl RngCore for Seeded {
    fn next_u32(&mut self) -> u32 {
        (self.next_u64() >> 32) as u32
    }

    fn next_u64(&mut self) -> u64 {
        self.0 = self.0.wrapping_add(0x9E37_79B9_7F4A_7C15);
        let mut z = self.0;
        z = (z ^ (z >> 30)).wrapping_mul(0xBF58_476D_1CE4_E5B9);
        z = (z ^ (z >> 27)).wrapping_mul(0x94D0_49BB_1331_11EB);
        z ^ (z >> 31)
    }

    fn fill_bytes(&mut self, dest: &mut [u8]) {
        for b in dest.iter_mut() {
            *b = self.next_u64() as u8;
        }
    }

    fn try_fill_bytes(&mut self, dest: &mut [u8]) -> Result<(), rsa::rand_core::Error> {
        self.fill_bytes(dest);
        Ok(())
    }
}

impl CryptoRng for Seeded {}

fn test_key() -> RsaPrivateKey {
    let mut rng = Seeded(42);
    RsaPrivateKey::new(&mut rng, 2048).expect("generate test key")
}

fn account(key: &RsaPrivateKey) -> AccountKey {
    let der = key.to_pkcs8_der().expect("pkcs8").as_bytes().to_vec();
    let protected = EncString::encrypt(&USER_ENC, &USER_MAC, &der).unwrap().serialize();
    match AccountKey::from_protected(&protected, &USER_ENC, &USER_MAC) {
        Ok(a) => a,
        Err(e) => panic!("{e:?}"),
    }
}

fn wrap(key: &RsaPublicKey, plain: &[u8]) -> String {
    let mut rng = Seeded(7);
    let wrapped = key
        .encrypt(&mut rng, Oaep::new::<sha1::Sha1>(), plain)
        .expect("wrap");
    format!(
        "4.{}",
        base64::engine::general_purpose::STANDARD.encode(&wrapped)
    )
}

#[test]
fn unwraps_org_key_through_account_key() {
    let priv_key = test_key();
    let pub_key = RsaPublicKey::from(&priv_key);
    assert_eq!(pub_key.size(), 256, "RSA-2048");

    let mut org = [0u8; 64];
    org[..32].copy_from_slice(&[7u8; 32]);
    org[32..].copy_from_slice(&[8u8; 32]);
    let type4 = wrap(&pub_key, &org);

    let (enc, mac) = account(&priv_key).decrypt_org_key(&type4).unwrap();
    assert_eq!(enc, [7u8; 32]);
    assert_eq!(mac, [8u8; 32]);

    // A wrapped key of another length is refused, and so is another ciphertext.
    let short = wrap(&pub_key, &org[..63]);
    assert_eq!(
        account(&priv_key).decrypt_org_key(&short),
        Err(Error::EncString("organization key must be 64 bytes"))
    );
    assert_eq!(
        account(&priv_key).decrypt_org_key("4.AAAA"),
        Err(Error::Rsa("RSA-OAEP decryption failed"))
    );
}

#[test]
fn rejects_non_type4() {
    // A type-2 string is not a valid org-key envelope.
    let a = account(&test_key());
    assert!(a.decrypt_org_key("2.aXY=|Y3Q=|bWFj").is_err());
    assert!(matches!(a.decrypt_org_key("4.*"), Err(Error::Base64(_))));
}

#[test]
fn bytes_that_are_no_key_are_refused() {
    let protected = EncString::encrypt(&USER_ENC, &USER_MAC, b"not a key").unwrap().serialize();
    assert!(matches!(
        AccountKey::from_protected(&protected, &USER_ENC, &USER_MAC),
        Err(Error::Rsa("invalid PKCS#8 RSA private key"))
    ));
    assert!(matches!(
        AccountKey::from_protected(&protected, &USER_MAC, &USER_MAC),
        Err(Error::Unpad) | Err(Error::Rsa("invalid PKCS#8 RSA private key"))
    ));
    assert_eq!(parse_type4("4.abc").unwrap(), "abc");
    assert_eq!(
        parse_type4("2.abc"),
        Err(Error::EncString("not a type-4 (RSA) EncString"))
    );
    assert_eq!(
        split_org_key(&None),
        Err(Error::Rsa("RSA-OAEP decryption failed"))
    );
}

#[test]
fn keys_with_unequal_primes_unwrap() {
    // 3 and the Mersenne prime 2^1279 - 1, in either order.
    let one = rsa::BigUint::from(1u32);
    let long = (one.clone() << 1279) - one;
    let short = rsa::BigUint::from(3u32);
    let e = rsa::BigUint::from(65_537u32);
    for (p, q) in [(short.clone(), long.clone()), (long, short)] {
        let key = RsaPrivateKey::from_p_q(p, q, e.clone()).expect("accepted");
        let type4 = wrap(&RsaPublicKey::from(&key), &[9u8; 64]);
        let (enc, mac) = account(&key).decrypt_org_key(&type4).unwrap();
        assert_eq!((enc, mac), ([9u8; 32], [9u8; 32]));
    }
}
