//! One-time codes.
use vault::vault_core::totp::{
    at, base32_decode, code_for, now, parse, truncate, Algorithm, TotpParams,
};
use vault::vault_core::Error;

const SEED: &[u8] = b"12345678901234567890";
const SEED_B32: &str = "GEZDGNBVGY3TQOJQGEZDGNBVGY3TQOJQ";

#[test]
fn base32_decodes_rfc_seed() {
    assert_eq!(base32_decode(SEED_B32).unwrap(), SEED);
    assert_eq!(base32_decode("gezd gnbv").unwrap(), b"12345");
    assert!(base32_decode("!!!").is_err());
    assert!(base32_decode("").is_err());
}

#[test]
fn rfc6238_sha1_vector() {
    let params = TotpParams {
        secret: SEED.to_vec(),
        algorithm: Algorithm::Sha1,
        digits: 8,
        period: 30,
    };
    assert_eq!(at(&params, 59).unwrap(), "94287082");
    let p6 = TotpParams {
        digits: 6,
        ..params
    };
    assert_eq!(p6.digits, 6);
    let code = at(&p6, 59).unwrap();
    assert_eq!(code.len(), 6);
    assert!(code.chars().all(|c| c.is_ascii_digit()));
    assert_eq!(code, "287082");
}

#[test]
fn parse_bare_secret_and_otpauth_uri() {
    let bare = parse(SEED_B32).unwrap();
    assert_eq!(bare.secret, SEED);
    assert_eq!(bare.algorithm, Algorithm::Sha1);
    assert_eq!(bare.digits, 6);
    assert_eq!(bare.period, 30);

    let uri = format!(
        "otpauth://totp/Example:me@x.org?secret={SEED_B32}&algorithm=SHA256&digits=8&period=60"
    );
    let p = parse(&uri).unwrap();
    assert_eq!(p.secret, SEED);
    assert_eq!(p.algorithm, Algorithm::Sha256);
    assert_eq!(p.digits, 8);
    assert_eq!(p.period, 60);

    assert!(parse("otpauth://hotp/x?secret=AAAA").is_err());
    assert!(parse("otpauth://totp/x?digits=6").is_err());
}

#[test]
fn parse_clamps_digits() {
    let uri = format!("otpauth://totp/x?secret={SEED_B32}&digits=99");
    assert_eq!(parse(&uri).unwrap().digits, 9);
}

#[test]
fn rfc6238_other_hashes() {
    let p256 = TotpParams {
        secret: b"12345678901234567890123456789012".to_vec(),
        algorithm: Algorithm::Sha256,
        digits: 8,
        period: 30,
    };
    assert_eq!(at(&p256, 59).unwrap(), "46119246");
    let p512 = TotpParams {
        secret: b"1234567890123456789012345678901234567890123456789012345678901234".to_vec(),
        algorithm: Algorithm::Sha512,
        digits: 8,
        period: 30,
    };
    assert_eq!(at(&p512, 59).unwrap(), "90693936");
}

#[test]
fn codes_hold_for_a_period() {
    let a = code_for(SEED_B32, 30).unwrap();
    assert_eq!(a, code_for(SEED_B32, 59).unwrap());
    assert_ne!(a, code_for(SEED_B32, 60).unwrap());
    assert_eq!(now(SEED_B32).unwrap().len(), 6);
}

#[test]
fn faults_of_a_secret_are_told() {
    let fault = |s: &str| parse(s).unwrap_err();
    assert_eq!(
        fault("otpauth://hotp/x?secret=AAAA"),
        Error::Totp("unsupported otpauth type (only totp)")
    );
    assert_eq!(
        fault("otpauth://totp/x"),
        Error::Totp("otpauth URI has no secret")
    );
    assert_eq!(
        fault("otpauth://totp/x?secret=GEZDGNBV&digits=six"),
        Error::Totp("invalid digits")
    );
    assert_eq!(
        fault("otpauth://totp/x?secret=GEZDGNBV&period=-1"),
        Error::Totp("invalid period")
    );
    assert_eq!(
        fault("otpauth://totp/x?secret=GEZDGNBV&algorithm=MD5"),
        Error::Totp("unsupported TOTP algorithm")
    );
    assert_eq!(fault("A"), Error::Totp("empty TOTP secret"));
    assert_eq!(
        fault("GEZD1"),
        Error::Totp("invalid base32 character in TOTP secret")
    );
    assert_eq!(
        now("!").unwrap_err(),
        Error::Totp("invalid base32 character in TOTP secret")
    );
}

#[test]
fn queries_are_read_leniently() {
    let p = parse("  otpauth://totp/x?issuer=Y&SECRET=gezdgnbv&plain&digits=0&period=0&Algorithm= sha512 ")
        .unwrap();
    assert_eq!(p.secret, b"12345");
    assert_eq!(p.algorithm, Algorithm::Sha512);
    assert_eq!(p.digits, 1);
    assert_eq!(p.period, 1);
    // The last of two pairs with the same key counts.
    let p = parse("otpauth://totp/x?secret=GEZDGNBV&digits=7&digits=8").unwrap();
    assert_eq!(p.digits, 8);
    assert_eq!(Algorithm::parse("Sha1"), Ok(Algorithm::Sha1));
}

#[test]
fn base32_takes_padding_and_any_white_space() {
    assert_eq!(base32_decode("GE======").unwrap(), b"1");
    assert_eq!(base32_decode("GEZD\u{a0}GN\u{2003}BV==\t").unwrap(), b"12345");
    assert_eq!(base32_decode("ge z d gn bv").unwrap(), b"12345");
}

#[test]
fn truncation_follows_the_rfc() {
    // The tag of the example in RFC 4226.
    let tag: [u8; 20] = [
        0x1f, 0x86, 0x98, 0x69, 0x0e, 0x02, 0xca, 0x16, 0x61, 0x85, 0x50, 0xef, 0x7f, 0x19, 0xda,
        0x8e, 0x94, 0x5b, 0x55, 0x5a,
    ];
    assert_eq!(truncate(&tag, 6), "872921");
    assert_eq!(truncate(&[0u8; 20], 4), "0000");
    let mut short = [0u8; 19];
    short[17] = 7;
    short[18] = 14;
    assert_eq!(truncate(&short, 6), "000007");
    assert_eq!(truncate(&[0, 0, 1, 0], 6), "000256");
}
