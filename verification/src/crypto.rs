//! The cryptographic primitives, each a call into the crate that implements
//! it. What a primitive computes is named by a function without a body, and
//! every contract above it speaks of that name.
use vstd::prelude::*;
use aes::Aes256;
use base64::engine::general_purpose::STANDARD;
use base64::Engine;
use cbc::cipher::block_padding::Pkcs7;
use cbc::cipher::{BlockDecryptMut, BlockEncryptMut, KeyIvInit};
use hmac::{Hmac, Mac};
use sha1::Sha1;
use sha2::{Digest, Sha256, Sha512};
use subtle::ConstantTimeEq;
use zeroize::Zeroize;

verus! {

/// Why a text is not base64.
#[derive(Clone, Copy, Debug, PartialEq, Eq)]
pub enum Base64Error {
    /// A byte outside the alphabet: its offset and value.
    InvalidByte(usize, u8),
    /// A length that no encoding has.
    InvalidLength(usize),
    /// A last symbol with bits that no byte takes: its offset and value.
    InvalidLastSymbol(usize, u8),
    /// Padding that is absent or in the wrong place.
    InvalidPadding,
}

/// Why Argon2 refuses its parameters or its password.
#[derive(Clone, Copy, Debug, PartialEq, Eq)]
pub enum Argon2Error {
    /// Memory cost is too small.
    MemoryTooLittle,
    /// Time cost is too small.
    TimeTooSmall,
    /// Not enough lanes.
    ThreadsTooFew,
    /// Too many lanes.
    ThreadsTooMany,
    /// Password is too long.
    PwdTooLong,
    /// Anything else the crate can report.
    Other,
}

/// The base64 encoding of bytes, standard alphabet, padded.
pub uninterp spec fn base64_encode(bytes: Seq<u8>) -> Seq<char>;

/// What decoding a text as padded base64 in the standard alphabet gives.
pub uninterp spec fn base64_decode(text: Seq<char>) -> Result<Seq<u8>, Base64Error>;

/// HMAC-SHA-1 of a message under a key.
pub uninterp spec fn hmac_sha1_of(key: Seq<u8>, message: Seq<u8>) -> Seq<u8>;

/// HMAC-SHA-256 of a message under a key.
pub uninterp spec fn hmac_sha256_of(key: Seq<u8>, message: Seq<u8>) -> Seq<u8>;

/// HMAC-SHA-512 of a message under a key.
pub uninterp spec fn hmac_sha512_of(key: Seq<u8>, message: Seq<u8>) -> Seq<u8>;

/// AES-256-CBC with PKCS#7 padding: the ciphertext.
pub uninterp spec fn cbc_encrypted(key: Seq<u8>, iv: Seq<u8>, plain: Seq<u8>) -> Seq<u8>;

/// AES-256-CBC with PKCS#7 padding: the plaintext, if the padding holds.
pub uninterp spec fn cbc_decrypted(key: Seq<u8>, iv: Seq<u8>, cipher: Seq<u8>) -> Option<Seq<u8>>;

/// SHA-256 of a message.
pub uninterp spec fn sha256_of(message: Seq<u8>) -> Seq<u8>;

/// PBKDF2-HMAC-SHA-256, 32 bytes of output.
pub uninterp spec fn pbkdf2_of(password: Seq<u8>, salt: Seq<u8>, rounds: u32) -> Seq<u8>;

/// Argon2id version 0x13, 32 bytes of output.
pub uninterp spec fn argon2id_of(
    password: Seq<u8>,
    salt: Seq<u8>,
    memory_kib: u32,
    iterations: u32,
    lanes: u32,
) -> Seq<u8>;

/// HKDF-SHA-256 expansion of a pseudorandom key, 32 bytes of output.
pub uninterp spec fn hkdf_of(prk: Seq<u8>, info: Seq<u8>) -> Seq<u8>;

/// A symbol of padded base64 in the standard alphabet.
pub open spec fn is_base64_symbol(c: char) -> bool {
    crate::text::is_alnum(c) || c == '+' || c == '/' || c == '='
}

/// Why Argon2 refuses these cost parameters, if it does.
pub open spec fn argon2_fault(memory_kib: u32, iterations: u32, lanes: u32) -> Option<Argon2Error> {
    if memory_kib < 8 || memory_kib < lanes * 8 {
        Some(Argon2Error::MemoryTooLittle)
    } else if iterations < 1 {
        Some(Argon2Error::TimeTooSmall)
    } else if lanes < 1 {
        Some(Argon2Error::ThreadsTooFew)
    } else if lanes > 0xFF_FFFF {
        Some(Argon2Error::ThreadsTooMany)
    } else {
        None
    }
}

/// `base64::engine::general_purpose::STANDARD.encode`: the result is the
/// named encoding; it is made of symbols of the alphabet and padding, and
/// decoding it gives the bytes back.
#[verifier::external_body]
pub(crate) fn base64_text(bytes: &[u8]) -> (out: String)
    ensures
        out@ == base64_encode(bytes@),
        forall|i: int| 0 <= i < out@.len() ==> is_base64_symbol(#[trigger] out@[i]),
        base64_decode(out@) is Ok && base64_decode(out@)->Ok_0 == bytes@,
{
    STANDARD.encode(bytes)
}

/// `base64::engine::general_purpose::STANDARD.decode`: the result, bytes or
/// error, is the named one. The engine takes canonical text alone, so bytes
/// that come out encode back to the text.
#[verifier::external_body]
pub(crate) fn base64_bytes(text: &str) -> (out: Result<Vec<u8>, Base64Error>)
    ensures
        out matches Ok(b) ==> base64_decode(text@) is Ok && base64_decode(text@)->Ok_0 == b@,
        out matches Ok(b) ==> base64_encode(b@) == text@,
        out matches Err(e) ==> base64_decode(text@) is Err && base64_decode(text@)->Err_0 == e,
{
    match STANDARD.decode(text) {
        Ok(b) => Ok(b),
        Err(base64::DecodeError::InvalidByte(i, b)) => Err(Base64Error::InvalidByte(i, b)),
        Err(base64::DecodeError::InvalidLength(n)) => Err(Base64Error::InvalidLength(n)),
        Err(base64::DecodeError::InvalidLastSymbol(i, b)) => Err(
            Base64Error::InvalidLastSymbol(i, b),
        ),
        Err(base64::DecodeError::InvalidPadding) => Err(Base64Error::InvalidPadding),
    }
}

/// `hmac::Hmac<Sha1>`, keyed by `new_from_slice` (which takes any length) and
/// fed the message: the named tag.
#[verifier::external_body]
pub(crate) fn hmac_sha1(key: &[u8], message: &[u8]) -> (tag: [u8; 20])
    ensures
        tag@ == hmac_sha1_of(key@, message@),
{
    let mut mac = <Hmac<Sha1> as Mac>::new_from_slice(key).expect("any key length");
    mac.update(message);
    mac.finalize().into_bytes().into()
}

/// `hmac::Hmac<Sha256>`, keyed by `new_from_slice` (which takes any length)
/// and fed the message: the named tag.
#[verifier::external_body]
pub(crate) fn hmac_sha256(key: &[u8], message: &[u8]) -> (tag: [u8; 32])
    ensures
        tag@ == hmac_sha256_of(key@, message@),
{
    let mut mac = <Hmac<Sha256> as Mac>::new_from_slice(key).expect("any key length");
    mac.update(message);
    mac.finalize().into_bytes().into()
}

/// `hmac::Hmac<Sha512>`, keyed by `new_from_slice` (which takes any length)
/// and fed the message: the named tag.
#[verifier::external_body]
pub(crate) fn hmac_sha512(key: &[u8], message: &[u8]) -> (tag: [u8; 64])
    ensures
        tag@ == hmac_sha512_of(key@, message@),
{
    let mut mac = <Hmac<Sha512> as Mac>::new_from_slice(key).expect("any key length");
    mac.update(message);
    mac.finalize().into_bytes().into()
}

/// `subtle::ConstantTimeEq::ct_eq` on byte slices: true exactly when the
/// slices have the same length and contents.
#[verifier::external_body]
pub(crate) fn constant_time_eq(a: &[u8], b: &[u8]) -> (r: bool)
    ensures
        r == (a@ == b@),
{
    a.ct_eq(b).into()
}

/// `cbc::Encryptor<Aes256>::encrypt_padded_vec_mut::<Pkcs7>`: the named
/// ciphertext, and decrypting it under the same key and initialization vector
/// gives the plaintext back.
#[verifier::external_body]
pub(crate) fn cbc_encrypt(key: &[u8; 32], iv: &[u8; 16], plain: &[u8]) -> (cipher: Vec<u8>)
    ensures
        cipher@ == cbc_encrypted(key@, iv@, plain@),
        cbc_decrypted(key@, iv@, cipher@) == Some(plain@),
{
    cbc::Encryptor::<Aes256>::new(key.into(), iv.into()).encrypt_padded_vec_mut::<Pkcs7>(plain)
}

/// `cbc::Decryptor<Aes256>::decrypt_padded_vec_mut::<Pkcs7>`: the named
/// plaintext, or nothing where the length or the padding is wrong.
#[verifier::external_body]
pub(crate) fn cbc_decrypt(key: &[u8; 32], iv: &[u8; 16], cipher: &[u8]) -> (plain: Option<Vec<u8>>)
    ensures
        plain matches Some(p) ==> cbc_decrypted(key@, iv@, cipher@) == Some(p@),
        plain is None ==> cbc_decrypted(key@, iv@, cipher@) is None,
{
    let cbc = cbc::Decryptor::<Aes256>::new(key.into(), iv.into());
    cbc.decrypt_padded_vec_mut::<Pkcs7>(cipher).ok()
}

/// `sha2::Sha256::digest`: the named digest.
#[verifier::external_body]
pub(crate) fn sha256(message: &[u8]) -> (digest: [u8; 32])
    ensures
        digest@ == sha256_of(message@),
{
    Sha256::digest(message).into()
}

/// `pbkdf2::pbkdf2::<Hmac<Sha256>>` into 32 bytes: the named key. The call
/// reports an error only for a key that HMAC refuses, and HMAC takes any.
#[verifier::external_body]
pub(crate) fn pbkdf2_sha256(password: &[u8], salt: &[u8], rounds: u32) -> (out: [u8; 32])
    ensures
        out@ == pbkdf2_of(password@, salt@, rounds),
{
    let mut out: [u8; 32] = [0u8; 32];
    pbkdf2::pbkdf2::<Hmac<Sha256>>(password, salt, rounds, &mut out).expect("any key length");
    out
}

/// `argon2::Params::new` with an output of 32 bytes: whether the costs are
/// accepted, and the first objection otherwise. The crate multiplies the
/// number of lanes by eight in 32 bits, so more lanes than that can hold are
/// left out.
#[verifier::external_body]
pub(crate) fn argon2_params(memory_kib: u32, iterations: u32, lanes: u32) -> (out: Result<(), Argon2Error>)
    requires
        lanes * 8 <= u32::MAX,
    ensures
        out is Ok <==> argon2_fault(memory_kib, iterations, lanes) is None,
        out matches Err(e) ==> argon2_fault(memory_kib, iterations, lanes) == Some(e),
{
    match argon2::Params::new(memory_kib, iterations, lanes, Some(32)) {
        Ok(_) => Ok(()),
        Err(argon2::Error::MemoryTooLittle) => Err(Argon2Error::MemoryTooLittle),
        Err(argon2::Error::TimeTooSmall) => Err(Argon2Error::TimeTooSmall),
        Err(argon2::Error::ThreadsTooFew) => Err(Argon2Error::ThreadsTooFew),
        Err(argon2::Error::ThreadsTooMany) => Err(Argon2Error::ThreadsTooMany),
        Err(_) => Err(Argon2Error::Other),
    }
}

/// `argon2::Argon2::hash_password_into` for Argon2id version 0x13 with an
/// output of 32 bytes and costs that `argon2::Params::new` accepts: the named
/// key, or `PwdTooLong` for a password of more than 2^32 - 1 bytes. The
/// memory for the blocks is taken to be available.
#[verifier::external_body]
pub(crate) fn argon2id(
    password: &[u8],
    salt: &[u8; 32],
    memory_kib: u32,
    iterations: u32,
    lanes: u32,
) -> (out: Result<[u8; 32], Argon2Error>)
    requires
        lanes * 8 <= u32::MAX,
        argon2_fault(memory_kib, iterations, lanes) is None,
    ensures
        out is Ok <==> password@.len() <= 0xFFFF_FFFF,
        out matches Ok(k) ==> k@ == argon2id_of(password@, salt@, memory_kib, iterations, lanes),
        out matches Err(e) ==> e == Argon2Error::PwdTooLong,
{
    let params = argon2::Params::new(memory_kib, iterations, lanes, Some(32))
        .map_err(|_| Argon2Error::Other)?;
    let argon = argon2::Argon2::new(argon2::Algorithm::Argon2id, argon2::Version::V0x13, params);
    let mut out: [u8; 32] = [0u8; 32];
    match argon.hash_password_into(password, salt, &mut out) {
        Ok(()) => Ok(out),
        Err(argon2::Error::PwdTooLong) => Err(Argon2Error::PwdTooLong),
        Err(_) => Err(Argon2Error::Other),
    }
}

/// `hkdf::Hkdf::<Sha256>::from_prk` and `expand` into 32 bytes: the named
/// bytes. A pseudorandom key of 32 bytes and an output of 32 bytes are within
/// the lengths that the two accept.
#[verifier::external_body]
pub(crate) fn hkdf_expand(prk: &[u8; 32], info: &[u8]) -> (out: Option<[u8; 32]>)
    ensures
        out is Some && out->Some_0@ == hkdf_of(prk@, info@),
{
    let mut out: [u8; 32] = [0u8; 32];
    let hk = hkdf::Hkdf::<Sha256>::from_prk(prk).ok()?;
    hk.expand(info, &mut out).ok()?;
    Some(out)
}

/// `getrandom::getrandom`: `n` bytes of the operating system's randomness, or
/// nothing where it has none to give. Nothing is said of the bytes.
#[verifier::external_body]
pub(crate) fn random_bytes(n: usize) -> (out: Option<Vec<u8>>)
    ensures
        out matches Some(b) ==> b@.len() == n,
{
    let mut out: Vec<u8> = vec![0u8; n];
    getrandom::getrandom(&mut out).ok()?;
    Some(out)
}

/// `zeroize::Zeroize::zeroize` on a vector of bytes: overwrites its contents
/// and leaves it empty.
#[verifier::external_body]
pub(crate) fn wipe(bytes: &mut Vec<u8>)
    ensures
        final(bytes)@.len() == 0,
    opens_invariants none
    no_unwind
{
    bytes.zeroize();
}

/// `zeroize::Zeroize::zeroize` on a text: overwrites its contents and leaves
/// it empty.
#[verifier::external_body]
pub(crate) fn wipe_text(text: &mut String)
    ensures
        final(text)@.len() == 0,
    opens_invariants none
    no_unwind
{
    text.zeroize();
}

/// Wipes a text where there is one.
pub(crate) fn wipe_option(text: &mut Option<String>)
    ensures
        *old(text) is None ==> *final(text) is None,
        *old(text) is Some ==> *final(text) is Some && (*final(text))->Some_0@.len() == 0,
    opens_invariants none
    no_unwind
{
    if let Some(s) = text {
        wipe_text(s);
    }
}

/// `zeroize::Zeroize::zeroize` on an array of bytes: every byte is zero
/// afterwards.
#[verifier::external_body]
pub(crate) fn wipe_key<const N: usize>(key: &mut [u8; N])
    ensures
        forall|i: int| 0 <= i < N ==> final(key)@[i] == 0,
    opens_invariants none
    no_unwind
{
    key.zeroize();
}

/// The hexadecimal digit for `d`, in lower case.
pub open spec fn hex_digit(d: int) -> char {
    if d < 10 {
        (48 + d) as u8 as char
    } else {
        (87 + d) as u8 as char
    }
}

/// Two hexadecimal digits for each byte.
pub open spec fn hex_of(bytes: Seq<u8>) -> Seq<char> {
    Seq::new(
        bytes.len() * 2,
        |i: int|
            if i % 2 == 0 {
                hex_digit((bytes[i / 2] / 16) as int)
            } else {
                hex_digit((bytes[i / 2] % 16) as int)
            },
    )
}

/// The hexadecimal digit for `d`.
fn hex_char(d: u8) -> (c: char)
    requires
        d < 16,
    ensures
        c == hex_digit(d as int),
{
    if d < 10 {
        (48 + d) as char
    } else {
        (87 + d) as char
    }
}

/// Two hexadecimal digits for each byte, in lower case.
pub fn hex_text(bytes: &[u8]) -> (out: String)
    ensures
        out@ == hex_of(bytes@),
{
    let mut out: Vec<char> = Vec::new();
    let mut i: usize = 0;
    while i < bytes.len()
        invariant
            i <= bytes.len(),
            out@ == hex_of(bytes@.take(i as int)),
        decreases bytes.len() - i,
    {
        out.push(hex_char(bytes[i] / 16));
        out.push(hex_char(bytes[i] % 16));
        assert(out@ =~= hex_of(bytes@.take(i + 1)));
        i += 1;
    }
    assert(bytes@.take(bytes@.len() as int) =~= bytes@);
    crate::text::string_of(out.as_slice())
}

/// The sixteen bytes of `bytes`.
pub fn array16(bytes: &[u8]) -> (out: [u8; 16])
    requires
        bytes@.len() == 16,
    ensures
        out@ == bytes@,
{
    let mut out: [u8; 16] = [0u8; 16];
    let mut i: usize = 0;
    while i < 16
        invariant
            i <= 16,
            bytes@.len() == 16,
            forall|k: int| 0 <= k < i ==> out@[k] == bytes@[k],
        decreases 16 - i,
    {
        out[i] = bytes[i];
        i += 1;
    }
    assert(out@ =~= bytes@);
    out
}

/// The thirty-two bytes of `bytes` from `from` on.
pub fn array32(bytes: &[u8], from: usize) -> (out: [u8; 32])
    requires
        from + 32 <= bytes@.len(),
    ensures
        out@ == bytes@.subrange(from as int, from + 32),
{
    let len: usize = bytes.len();
    let mut out: [u8; 32] = [0u8; 32];
    let mut i: usize = 0;
    while i < 32
        invariant
            i <= 32,
            len == bytes@.len(),
            from + 32 <= len,
            forall|k: int| 0 <= k < i ==> out@[k] == bytes@[from + k],
        decreases 32 - i,
    {
        out[i] = bytes[from + i];
        i += 1;
    }
    assert(out@ =~= bytes@.subrange(from as int, from + 32));
    out
}

/// `a` followed by `b`.
pub fn concat(a: &[u8], b: &[u8]) -> (out: Vec<u8>)
    ensures
        out@ == a@ + b@,
{
    let mut out: Vec<u8> = Vec::new();
    out.extend_from_slice(a);
    out.extend_from_slice(b);
    assert(out@ =~= a@ + b@);
    out
}

/// The value of a hexadecimal digit in lower case.
pub open spec fn hex_value(c: char) -> Option<int> {
    if '0' <= c <= '9' {
        Some(c as int - '0' as int)
    } else if 'a' <= c <= 'f' {
        Some(c as int - 'a' as int + 10)
    } else {
        None
    }
}

/// Hexadecimal text gives each byte back: two digits for each, the first worth
/// sixteen times the second.
pub proof fn hex_gives_each_byte_back(bytes: Seq<u8>, i: int)
    requires
        0 <= i < bytes.len(),
    ensures
        hex_of(bytes).len() == 2 * bytes.len(),
        hex_value(hex_of(bytes)[2 * i]) is Some,
        hex_value(hex_of(bytes)[2 * i + 1]) is Some,
        hex_value(hex_of(bytes)[2 * i])->Some_0 * 16 + hex_value(
            hex_of(bytes)[2 * i + 1],
        )->Some_0 == bytes[i],
{
    let h = hex_of(bytes);
    assert((2 * i) / 2 == i && (2 * i + 1) / 2 == i);
    assert(h[2 * i] == hex_digit((bytes[i] / 16) as int));
    assert(h[2 * i + 1] == hex_digit((bytes[i] % 16) as int));
}

} // verus!
