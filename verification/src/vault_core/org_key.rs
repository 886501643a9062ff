//! Organization keys, wrapped with RSA-OAEP under the account's key.
use vstd::prelude::*;
use vstd::string::*;
use rsa::pkcs8::DecodePrivateKey;
use crate::crypto::{array32, base64_bytes, base64_decode, wipe};
use crate::text::{begins_with, chars_of, has_prefix, string_of, tail_from};
use crate::vault_core::enc_string::{open_text, opened_text};
use crate::vault_core::error::{Error, Result};

verus! {

/// Whether bytes are the PKCS#8 DER encoding of an RSA private key.
pub uninterp spec fn is_rsa_key(pkcs8: Seq<u8>) -> bool;

/// What RSA-OAEP decryption with SHA-1 under a private key gives, if the
/// ciphertext is one for that key.
pub uninterp spec fn rsa_oaep_opened(pkcs8: Seq<u8>, cipher: Seq<u8>) -> Option<Seq<u8>>;

/// `rsa::RsaPrivateKey::from_pkcs8_der`: whether it accepts the bytes, which
/// the bytes alone decide.
#[verifier::external_body]
pub(crate) fn rsa_key_accepted(pkcs8: &[u8]) -> (ok: bool)
    ensures
        ok == is_rsa_key(pkcs8@),
{
    rsa::RsaPrivateKey::from_pkcs8_der(pkcs8).is_ok()
}

/// `rsa::RsaPrivateKey::decrypt` with `Oaep::new::<Sha1>()`, which draws no
/// randomness: the named plaintext, or nothing where the crate reports an
/// error. `clear_precomputed` has the crate compute with the modulus as a
/// whole: its shortcut by the two primes does not come to an end for a key
/// whose second prime is much longer than its first.
#[verifier::external_body]
pub(crate) fn rsa_oaep_decrypt(pkcs8: &[u8], cipher: &[u8]) -> (plain: Option<Vec<u8>>)
    requires
        is_rsa_key(pkcs8@),
    ensures
        plain matches Some(p) ==> rsa_oaep_opened(pkcs8@, cipher@) == Some(p@),
        plain is None ==> rsa_oaep_opened(pkcs8@, cipher@) is None,
{
    let mut key = rsa::RsaPrivateKey::from_pkcs8_der(pkcs8).ok()?;
    key.clear_precomputed();
    key.decrypt(rsa::Oaep::new::<sha1::Sha1>(), cipher).ok()
}

/// The RSA private key of an account.
pub struct AccountKey {
    pkcs8: SecretBytes,
}

impl View for AccountKey {
    type V = Seq<u8>;

    closed spec fn view(&self) -> Seq<u8> {
        self.pkcs8.bytes@
    }
}

/// Bytes that are wiped in the end.
struct SecretBytes {
    bytes: Vec<u8>,
}

impl Drop for SecretBytes {
    /// Wipes the bytes.
    fn drop(&mut self)
        opens_invariants none
        no_unwind
    {
        wipe(&mut self.bytes);
    }
}

/// The ciphertext in an envelope `4.<base64>`.
pub open spec fn type4_body(s: Seq<char>) -> Result<Seq<char>> {
    if has_prefix(s, seq!['4', '.']) {
        Ok(s.skip(2))
    } else {
        Err(Error::EncString("not a type-4 (RSA) EncString"))
    }
}

/// The two halves of an organization key, or what is wrong with it.
pub open spec fn org_key_halves(plain: Option<Seq<u8>>) -> Result<(Seq<u8>, Seq<u8>)> {
    match plain {
        None => Err(Error::Rsa("RSA-OAEP decryption failed")),
        Some(p) => if p.len() != 64 {
            Err(Error::EncString("organization key must be 64 bytes"))
        } else {
            Ok((p.take(32), p.skip(32)))
        },
    }
}

/// The organization key in an envelope, opened under an account key.
pub open spec fn org_key_opened(pkcs8: Seq<u8>, s: Seq<char>) -> Result<(Seq<u8>, Seq<u8>)> {
    match type4_body(s) {
        Err(e) => Err(e),
        Ok(body) => match base64_decode(body) {
            Err(e) => Err(Error::Base64(e)),
            Ok(cipher) => org_key_halves(rsa_oaep_opened(pkcs8, cipher)),
        },
    }
}

/// The account key in an envelope, as PKCS#8 bytes.
pub open spec fn account_key_opened(s: Seq<char>, enc: Seq<u8>, mac: Seq<u8>) -> Result<Seq<u8>> {
    match opened_text(s, enc, mac) {
        Err(e) => Err(e),
        Ok(der) => if is_rsa_key(der) {
            Ok(der)
        } else {
            Err(Error::Rsa("invalid PKCS#8 RSA private key"))
        },
    }
}

/// The base64 text in an envelope `4.<base64>`.
pub fn parse_type4(s: &str) -> (r: Result<String>)
    ensures
        r matches Ok(t) ==> type4_body(s@) == Ok::<Seq<char>, Error>(t@),
        r matches Err(e) ==> type4_body(s@) == Err::<Seq<char>, Error>(e),
{
    let chars: Vec<char> = chars_of(s);
    proof {
        reveal_strlit("4.");
        assert("4."@ =~= seq!['4', '.']);
    }
    if begins_with(chars.as_slice(), "4.") {
        Ok(string_of(tail_from(chars.as_slice(), 2)))
    } else {
        Err(Error::EncString("not a type-4 (RSA) EncString"))
    }
}

/// The two halves of a decrypted organization key.
pub fn split_org_key(plain: &Option<Vec<u8>>) -> (r: Result<([u8; 32], [u8; 32])>)
    ensures
        r matches Ok((k, m)) ==> org_key_halves(plain.deep_view()) == Ok::<
            (Seq<u8>, Seq<u8>),
            Error,
        >((k@, m@)),
        r matches Err(e) ==> org_key_halves(plain.deep_view()) == Err::<(Seq<u8>, Seq<u8>), Error>(
            e,
        ),
{
    match plain {
        None => Err(Error::Rsa("RSA-OAEP decryption failed")),
        Some(p) => {
            assert(p.deep_view() =~= p@);
            if p.len() != 64 {
                return Err(Error::EncString("organization key must be 64 bytes"));
            }
            let enc: [u8; 32] = array32(p.as_slice(), 0);
            let mac: [u8; 32] = array32(p.as_slice(), 32);
            assert(enc@ =~= p@.take(32));
            assert(mac@ =~= p@.skip(32));
            Ok((enc, mac))
        },
    }
}

impl AccountKey {
    /// The bytes are an RSA private key.
    #[verifier::type_invariant]
    closed spec fn holds_a_key(self) -> bool {
        is_rsa_key(self.pkcs8.bytes@)
    }

    /// Opens the envelope around an account's private key.
    pub fn from_protected(private_key_enc: &str, user_enc: &[u8; 32], user_mac: &[u8; 32]) -> (r:
        Result<AccountKey>)
        ensures
            r matches Ok(k) ==> account_key_opened(private_key_enc@, user_enc@, user_mac@) == Ok::<
                Seq<u8>,
                Error,
            >(k@),
            r matches Err(e) ==> account_key_opened(private_key_enc@, user_enc@, user_mac@)
                == Err::<Seq<u8>, Error>(e),
    {
        let pkcs8: SecretBytes = SecretBytes {
            bytes: open_text(private_key_enc, user_enc, user_mac)?,
        };
        if !rsa_key_accepted(pkcs8.bytes.as_slice()) {
            return Err(Error::Rsa("invalid PKCS#8 RSA private key"));
        }
        Ok(AccountKey { pkcs8 })
    }

    /// Unwraps an organization key.
    pub fn decrypt_org_key(&self, org_key_enc: &str) -> (r: Result<([u8; 32], [u8; 32])>)
        ensures
            r matches Ok((k, m)) ==> org_key_opened(self@, org_key_enc@) == Ok::<
                (Seq<u8>, Seq<u8>),
                Error,
            >((k@, m@)),
            r matches Err(e) ==> org_key_opened(self@, org_key_enc@) == Err::<
                (Seq<u8>, Seq<u8>),
                Error,
            >(e),
    {
        proof {
            use_type_invariant(self);
        }
        let body: String = parse_type4(org_key_enc)?;
        let cipher: Vec<u8> = match base64_bytes(body.as_str()) {
            Ok(b) => b,
            Err(e) => return Err(Error::Base64(e)),
        };
        let mut plain: Option<Vec<u8>> = rsa_oaep_decrypt(
            self.pkcs8.bytes.as_slice(),
            cipher.as_slice(),
        );
        assert(plain matches Some(p) ==> p.deep_view() =~= p@);
        let halves: Result<([u8; 32], [u8; 32])> = split_org_key(&plain);
        if let Some(p) = &mut plain {
            wipe(p);
        }
        halves
    }
}

/// An organization key unwraps to the two halves, encryption first, of what
/// RSA-OAEP takes out of its envelope `4.<base64>` under the account key.
pub proof fn organization_key_unwraps_to_its_halves(
    pkcs8: Seq<u8>,
    body: Seq<char>,
    cipher: Seq<u8>,
    enc: Seq<u8>,
    mac: Seq<u8>,
)
    requires
        base64_decode(body) == Ok::<Seq<u8>, crate::crypto::Base64Error>(cipher),
        rsa_oaep_opened(pkcs8, cipher) == Some(enc + mac),
        enc.len() == 32,
    ensures
        mac.len() == 32 ==> org_key_opened(pkcs8, seq!['4', '.'] + body) == Ok::<
            (Seq<u8>, Seq<u8>),
            Error,
        >((enc, mac)),
        mac.len() != 32 ==> org_key_opened(pkcs8, seq!['4', '.'] + body) is Err,
{
    let s = seq!['4', '.'] + body;
    assert(s.take(2) =~= seq!['4', '.']);
    assert(s.skip(2) =~= body);
    assert((enc + mac).take(32) =~= enc);
    assert((enc + mac).skip(32) =~= mac);
}

/// An organization key in an envelope of another type, or one that RSA-OAEP does
/// not open under the account key, does not unwrap.
pub proof fn other_envelopes_hold_no_organization_key(pkcs8: Seq<u8>, s: Seq<char>)
    ensures
        !(s.len() >= 2 && s[0] == '4' && s[1] == '.') ==> org_key_opened(pkcs8, s) is Err,
        org_key_opened(pkcs8, s) matches Ok((k, m)) ==> {
            let cipher = base64_decode(s.skip(2));
            &&& cipher is Ok
            &&& rsa_oaep_opened(pkcs8, cipher->Ok_0) == Some(k + m)
            &&& k.len() == 32
            &&& m.len() == 32
        },
{
    if has_prefix(s, seq!['4', '.']) {
        assert(s.take(2)[0] == s[0] && s.take(2)[1] == s[1]);
    }
    if let Ok((k, m)) = org_key_opened(pkcs8, s) {
        let plain = rsa_oaep_opened(pkcs8, base64_decode(s.skip(2))->Ok_0)->Some_0;
        assert(k + m =~= plain);
    }
}

/// The account key is what its envelope holds, where that is an RSA key.
pub proof fn account_key_is_what_its_envelope_holds(
    s: Seq<char>,
    enc: Seq<u8>,
    mac: Seq<u8>,
    der: Seq<u8>,
)
    requires
        opened_text(s, enc, mac) == Ok::<Seq<u8>, Error>(der),
    ensures
        is_rsa_key(der) ==> account_key_opened(s, enc, mac) == Ok::<Seq<u8>, Error>(der),
        !is_rsa_key(der) ==> account_key_opened(s, enc, mac) is Err,
{
}

} // verus!
