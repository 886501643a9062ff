//! The envelope `2.<iv>|<ciphertext>|<mac>`: AES-256-CBC with PKCS#7 padding,
//! authenticated by HMAC-SHA-256 over the initialization vector and the
//! ciphertext, each part in base64. Envelopes of the unauthenticated types
//! are refused.
use vstd::prelude::*;
use vstd::string::*;
use crate::crypto::{
    array16, array32, base64_bytes, base64_decode, base64_encode, base64_text, cbc_decrypt,
    cbc_decrypted, cbc_encrypt, cbc_encrypted, concat, constant_time_eq, hmac_sha256,
    hmac_sha256_of, is_base64_symbol, random_bytes, wipe, wipe_key, Base64Error,
};
use crate::text::{
    chars_are, chars_of, find_char, head_to, split_once, split_once_is, split_once_joins, string_of,
    tail_from,
};
use crate::vault_core::error::{Error, Result};

verus! {

/// Length of a symmetric key in bytes.
pub const KEY_LEN: usize = 32;

/// Length of an initialization vector in bytes.
pub const IV_LEN: usize = 16;

/// Length of an authentication tag in bytes.
pub const MAC_LEN: usize = 32;

/// An authenticated ciphertext.
#[derive(Clone, Debug, PartialEq, Eq)]
pub struct EncString {
    iv: [u8; 16],
    ct: Vec<u8>,
    mac: [u8; 32],
}

/// What an [`EncString`] holds.
pub struct EncStringView {
    /// Initialization vector.
    pub iv: Seq<u8>,
    /// Ciphertext.
    pub ct: Seq<u8>,
    /// Authentication tag.
    pub mac: Seq<u8>,
}

impl Drop for EncString {
    /// Wipes the parts.
    fn drop(&mut self)
        opens_invariants none
        no_unwind
    {
        wipe(&mut self.ct);
        wipe_key(&mut self.iv);
        wipe_key(&mut self.mac);
    }
}

impl View for EncString {
    type V = EncStringView;

    closed spec fn view(&self) -> EncStringView {
        EncStringView { iv: self.iv@, ct: self.ct@, mac: self.mac@ }
    }
}

/// The envelope made of three decoded parts, or what is wrong with them.
pub open spec fn envelope_of(iv: Seq<u8>, ct: Seq<u8>, mac: Seq<u8>) -> Result<EncStringView> {
    if iv.len() != 16 {
        Err(Error::EncString("iv length must be 16"))
    } else if mac.len() != 32 {
        Err(Error::EncString("mac length must be 32"))
    } else {
        Ok(EncStringView { iv, ct, mac })
    }
}

/// The envelope made of three base64 parts, decoded from left to right.
pub open spec fn decoded_envelope(
    iv: core::result::Result<Seq<u8>, Base64Error>,
    ct: core::result::Result<Seq<u8>, Base64Error>,
    mac: core::result::Result<Seq<u8>, Base64Error>,
) -> Result<EncStringView> {
    match (iv, ct, mac) {
        (Err(e), _, _) => Err(Error::Base64(e)),
        (_, Err(e), _) => Err(Error::Base64(e)),
        (_, _, Err(e)) => Err(Error::Base64(e)),
        (Ok(iv), Ok(ct), Ok(mac)) => envelope_of(iv, ct, mac),
    }
}

/// The three parts of an envelope's text, still in base64.
pub open spec fn envelope_parts(s: Seq<char>) -> Result<(Seq<char>, Seq<char>, Seq<char>)> {
    match split_once(s, '.') {
        None => Err(Error::EncString("missing type prefix")),
        Some((kind, body)) => {
            if kind == seq!['0'] || kind == seq!['1'] {
                Err(Error::EncString("legacy unauthenticated type rejected"))
            } else if kind != seq!['2'] {
                Err(Error::EncString("unknown EncString type"))
            } else {
                match split_once(body, '|') {
                    None => Err(Error::EncString("missing ciphertext")),
                    Some((iv, tail)) => match split_once(tail, '|') {
                        None => Err(Error::EncString("missing mac")),
                        Some((ct, mac)) => Ok((iv, ct, mac)),
                    },
                }
            }
        },
    }
}

/// The envelope that a text stands for.
pub open spec fn parsed(s: Seq<char>) -> Result<EncStringView> {
    match envelope_parts(s) {
        Err(e) => Err(e),
        Ok((iv, ct, mac)) => decoded_envelope(
            base64_decode(iv),
            base64_decode(ct),
            base64_decode(mac),
        ),
    }
}

/// The text of an envelope.
pub open spec fn serialized(e: EncStringView) -> Seq<char> {
    seq!['2', '.'] + base64_encode(e.iv) + seq!['|'] + base64_encode(e.ct) + seq!['|']
        + base64_encode(e.mac)
}

/// The envelope of a plaintext under two keys and an initialization vector.
pub open spec fn sealed(enc: Seq<u8>, mac: Seq<u8>, iv: Seq<u8>, plain: Seq<u8>) -> EncStringView {
    let ct = cbc_encrypted(enc, iv, plain);
    EncStringView { iv, ct, mac: hmac_sha256_of(mac, iv + ct) }
}

/// What opening an envelope under two keys gives.
pub open spec fn opened(e: EncStringView, enc: Seq<u8>, mac: Seq<u8>) -> Result<Seq<u8>> {
    if hmac_sha256_of(mac, e.iv + e.ct) != e.mac {
        Err(Error::MacMismatch)
    } else {
        match cbc_decrypted(enc, e.iv, e.ct) {
            Some(plain) => Ok(plain),
            None => Err(Error::Unpad),
        }
    }
}

/// What opening the envelope that a text stands for gives.
pub open spec fn opened_text(s: Seq<char>, enc: Seq<u8>, mac: Seq<u8>) -> Result<Seq<u8>> {
    match parsed(s) {
        Err(e) => Err(e),
        Ok(e) => opened(e, enc, mac),
    }
}

/// An envelope whose tag was changed is refused, and no plaintext comes out.
pub proof fn changed_tag_is_refused(
    e: EncStringView,
    tag: Seq<u8>,
    enc: Seq<u8>,
    mac: Seq<u8>,
    plain: Seq<u8>,
)
    requires
        e == sealed(enc, mac, e.iv, plain),
        tag != e.mac,
    ensures
        opened(EncStringView { mac: tag, ..e }, enc, mac) == Err::<Seq<u8>, Error>(
            Error::MacMismatch,
        ),
{
}

/// An envelope whose initialization vector or ciphertext was changed is refused,
/// and no plaintext comes out, where what it now holds has another tag. That
/// different contents have different tags is what the authentication rests on.
pub proof fn changed_contents_are_refused(
    e: EncStringView,
    iv: Seq<u8>,
    ct: Seq<u8>,
    enc: Seq<u8>,
    mac: Seq<u8>,
    plain: Seq<u8>,
)
    requires
        e == sealed(enc, mac, e.iv, plain),
        hmac_sha256_of(mac, iv + ct) != hmac_sha256_of(mac, e.iv + e.ct),
    ensures
        opened(EncStringView { iv, ct, ..e }, enc, mac) == Err::<Seq<u8>, Error>(
            Error::MacMismatch,
        ),
{
}

/// A text that opens under one authentication key is refused under another,
/// whatever the encryption key, where the other gives its contents another tag.
pub proof fn other_key_is_refused(
    s: Seq<char>,
    e: EncStringView,
    enc: Seq<u8>,
    mac: Seq<u8>,
    other_enc: Seq<u8>,
    other_mac: Seq<u8>,
)
    requires
        parsed(s) == Ok::<EncStringView, Error>(e),
        opened_text(s, enc, mac) is Ok,
        hmac_sha256_of(other_mac, e.iv + e.ct) != hmac_sha256_of(mac, e.iv + e.ct),
    ensures
        opened_text(s, other_enc, other_mac) == Err::<Seq<u8>, Error>(Error::MacMismatch),
{
}

impl EncString {
    /// The envelope made of three decoded parts.
    pub fn from_parts(iv: Vec<u8>, ct: Vec<u8>, mac: Vec<u8>) -> (r: Result<EncString>)
        ensures
            r matches Ok(e) ==> envelope_of(iv@, ct@, mac@) == Ok::<EncStringView, Error>(e@),
            r matches Err(e) ==> envelope_of(iv@, ct@, mac@) == Err::<EncStringView, Error>(e),
    {
        if iv.len() != IV_LEN {
            return Err(Error::EncString("iv length must be 16"));
        }
        if mac.len() != MAC_LEN {
            return Err(Error::EncString("mac length must be 32"));
        }
        let tag: [u8; 32] = array32(mac.as_slice(), 0);
        assert(tag@ =~= mac@);
        Ok(EncString { iv: array16(iv.as_slice()), ct, mac: tag })
    }

    /// The three base64 parts of an envelope's text.
    pub fn split_parts(s: &str) -> (r: Result<(String, String, String)>)
        ensures
            r matches Ok((iv, ct, mac)) ==> envelope_parts(s@) == Ok::<
                (Seq<char>, Seq<char>, Seq<char>),
                Error,
            >((iv@, ct@, mac@)),
            r matches Err(e) ==> envelope_parts(s@) == Err::<
                (Seq<char>, Seq<char>, Seq<char>),
                Error,
            >(e),
    {
        let chars: Vec<char> = chars_of(s);
        let text: &[char] = chars.as_slice();
        let dot: usize = find_char(text, '.', 0);
        if dot == text.len() {
            return Err(Error::EncString("missing type prefix"));
        }
        let kind: &[char] = head_to(text, dot);
        proof {
            reveal_strlit("0");
            reveal_strlit("1");
            reveal_strlit("2");
            assert("0"@ =~= seq!['0']);
            assert("1"@ =~= seq!['1']);
            assert("2"@ =~= seq!['2']);
        }
        if chars_are(kind, "0") || chars_are(kind, "1") {
            return Err(Error::EncString("legacy unauthenticated type rejected"));
        }
        if !chars_are(kind, "2") {
            return Err(Error::EncString("unknown EncString type"));
        }
        let body: &[char] = tail_from(text, dot + 1);
        let first: usize = find_char(body, '|', 0);
        if first == body.len() {
            return Err(Error::EncString("missing ciphertext"));
        }
        let tail: &[char] = tail_from(body, first + 1);
        let second: usize = find_char(tail, '|', 0);
        if second == tail.len() {
            return Err(Error::EncString("missing mac"));
        }
        Ok(
            (
                string_of(head_to(body, first)),
                string_of(head_to(tail, second)),
                string_of(tail_from(tail, second + 1)),
            ),
        )
    }

    /// Reads an envelope from its text. A text that is accepted is the one that
    /// the envelope is written as.
    pub fn parse(s: &str) -> (r: Result<EncString>)
        ensures
            r matches Ok(e) ==> parsed(s@) == Ok::<EncStringView, Error>(e@),
            r matches Ok(e) ==> serialized(e@) == s@,
            r matches Err(e) ==> parsed(s@) == Err::<EncStringView, Error>(e),
    {
        let (iv_text, ct_text, mac_text) = Self::split_parts(s)?;
        let iv: Vec<u8> = match base64_bytes(iv_text.as_str()) {
            Ok(b) => b,
            Err(e) => return Err(Error::Base64(e)),
        };
        let ct: Vec<u8> = match base64_bytes(ct_text.as_str()) {
            Ok(b) => b,
            Err(e) => return Err(Error::Base64(e)),
        };
        let mac: Vec<u8> = match base64_bytes(mac_text.as_str()) {
            Ok(b) => b,
            Err(e) => return Err(Error::Base64(e)),
        };
        proof {
            split_once_joins(s@, '.');
            let body = split_once(s@, '.')->Some_0.1;
            split_once_joins(body, '|');
            let tail = split_once(body, '|')->Some_0.1;
            split_once_joins(tail, '|');
            assert(s@ =~= seq!['2', '.'] + iv_text@ + seq!['|'] + ct_text@ + seq!['|']
                + mac_text@);
        }
        Self::from_parts(iv, ct, mac)
    }

    /// The text of the envelope. Parsing it gives the envelope back.
    pub fn serialize(&self) -> (out: String)
        ensures
            out@ == serialized(self@),
            parsed(out@) == Ok::<EncStringView, Error>(self@),
    {
        let iv: String = base64_text(self.iv.as_slice());
        let ct: String = base64_text(self.ct.as_slice());
        let mac: String = base64_text(self.mac.as_slice());
        let mut out: String = String::new();
        out.push('2');
        out.push('.');
        out.append(iv.as_str());
        out.push('|');
        out.append(ct.as_str());
        out.push('|');
        out.append(mac.as_str());
        proof {
            assert(out@ =~= serialized(self@));
            let tail = ct@.push('|') + mac@;
            let body = iv@.push('|') + tail;
            assert(out@ =~= seq!['2'].push('.') + body);
            split_once_is(seq!['2'], '.', body);
            assert(forall|k: int| 0 <= k < iv@.len() ==> is_base64_symbol(#[trigger] iv@[k]));
            split_once_is(iv@, '|', tail);
            assert(forall|k: int| 0 <= k < ct@.len() ==> is_base64_symbol(#[trigger] ct@[k]));
            split_once_is(ct@, '|', mac@);
            assert(seq!['2'][0] == '2' && seq!['0'][0] == '0' && seq!['1'][0] == '1');
        }
        out
    }

    /// Encrypts and authenticates `plaintext` under a chosen initialization
    /// vector. Opening the result under the same keys gives it back.
    pub fn encrypt_with_iv(
        enc_key: &[u8; 32],
        mac_key: &[u8; 32],
        iv: [u8; 16],
        plaintext: &[u8],
    ) -> (r: EncString)
        ensures
            r@ == sealed(enc_key@, mac_key@, iv@, plaintext@),
            opened(r@, enc_key@, mac_key@) == Ok::<Seq<u8>, Error>(plaintext@),
            r@.iv == iv@,
            r@.ct == cbc_encrypted(enc_key@, iv@, plaintext@),
            r@.mac == hmac_sha256_of(mac_key@, iv@ + r@.ct),
    {
        let ct: Vec<u8> = cbc_encrypt(enc_key, &iv, plaintext);
        let message: Vec<u8> = concat(iv.as_slice(), ct.as_slice());
        let mac: [u8; 32] = hmac_sha256(mac_key.as_slice(), message.as_slice());
        EncString { iv, ct, mac }
    }

    /// Encrypts and authenticates `plaintext` under a fresh random
    /// initialization vector. Fails only where the operating system has no
    /// randomness to give.
    pub fn encrypt(enc_key: &[u8; 32], mac_key: &[u8; 32], plaintext: &[u8]) -> (r: Result<
        EncString,
    >)
        ensures
            r matches Ok(e) ==> e@ == sealed(enc_key@, mac_key@, e@.iv, plaintext@) && opened(
                e@,
                enc_key@,
                mac_key@,
            ) == Ok::<Seq<u8>, Error>(plaintext@),
            r matches Err(e) ==> e == Error::Random,
    {
        match random_bytes(IV_LEN) {
            None => Err(Error::Random),
            Some(bytes) => Ok(
                Self::encrypt_with_iv(enc_key, mac_key, array16(bytes.as_slice()), plaintext),
            ),
        }
    }

    /// Whether `computed` is the tag that the envelope carries.
    pub fn check_mac(&self, computed: &[u8; 32]) -> (r: Result<()>)
        ensures
            computed@ == self@.mac ==> r == Ok::<(), Error>(()),
            computed@ != self@.mac ==> r == Err::<(), Error>(Error::MacMismatch),
    {
        if constant_time_eq(computed.as_slice(), self.mac.as_slice()) {
            Ok(())
        } else {
            Err(Error::MacMismatch)
        }
    }

    /// Checks the tag, then decrypts.
    pub fn decrypt(&self, enc_key: &[u8; 32], mac_key: &[u8; 32]) -> (r: Result<Vec<u8>>)
        ensures
            r matches Ok(p) ==> opened(self@, enc_key@, mac_key@) == Ok::<Seq<u8>, Error>(p@),
            r matches Err(e) ==> opened(self@, enc_key@, mac_key@) == Err::<Seq<u8>, Error>(e),
    {
        let message: Vec<u8> = concat(self.iv.as_slice(), self.ct.as_slice());
        let computed: [u8; 32] = hmac_sha256(mac_key.as_slice(), message.as_slice());
        self.check_mac(&computed)?;
        match cbc_decrypt(enc_key, &self.iv, self.ct.as_slice()) {
            Some(plain) => Ok(plain),
            None => Err(Error::Unpad),
        }
    }

    /// The initialization vector.
    pub fn iv(&self) -> (r: &[u8; 16])
        ensures
            r@ == self@.iv,
    {
        &self.iv
    }

    /// The ciphertext.
    pub fn ciphertext(&self) -> (r: &[u8])
        ensures
            r@ == self@.ct,
    {
        self.ct.as_slice()
    }

    /// The authentication tag.
    pub fn mac(&self) -> (r: &[u8; 32])
        ensures
            r@ == self@.mac,
    {
        &self.mac
    }
}

/// Opens the envelope that `s` stands for.
pub fn open_text(s: &str, enc_key: &[u8; 32], mac_key: &[u8; 32]) -> (r: Result<Vec<u8>>)
    ensures
        r matches Ok(p) ==> opened_text(s@, enc_key@, mac_key@) == Ok::<Seq<u8>, Error>(p@),
        r matches Err(e) ==> opened_text(s@, enc_key@, mac_key@) == Err::<Seq<u8>, Error>(e),
{
    EncString::parse(s)?.decrypt(enc_key, mac_key)
}

/// The text of the envelope around `plain` under an initialization vector.
/// Opening it under the same keys gives `plain` back.
pub fn seal_text(plain: &[u8], enc_key: &[u8; 32], mac_key: &[u8; 32], iv: [u8; 16]) -> (s: String)
    ensures
        s@ == serialized(sealed(enc_key@, mac_key@, iv@, plain@)),
        s@.len() > 0,
        opened_text(s@, enc_key@, mac_key@) == Ok::<Seq<u8>, Error>(plain@),
{
    EncString::encrypt_with_iv(enc_key, mac_key, iv, plain).serialize()
}

/// The initialization vector that drawn bytes are, none where none were drawn.
pub fn iv_of(bytes: Option<Vec<u8>>) -> (r: Option<[u8; 16]>)
    requires
        bytes matches Some(b) ==> b@.len() == IV_LEN,
    ensures
        match bytes {
            Some(b) => r matches Some(iv) && iv@ == b@,
            None => r is None,
        },
{
    match bytes {
        None => None,
        Some(b) => Some(array16(b.as_slice())),
    }
}

/// A fresh initialization vector, where the operating system has randomness to
/// give. Which one is left to chance.
pub fn draw_iv() -> (r: Option<[u8; 16]>) {
    iv_of(random_bytes(IV_LEN))
}

/// An envelope opens exactly where its tag is that of its initialization vector
/// and ciphertext under the authentication key and the ciphertext decrypts
/// under the encryption key; the plaintext is what it decrypts to.
pub proof fn envelope_opens_to_its_plaintext(
    e: EncStringView,
    enc: Seq<u8>,
    mac: Seq<u8>,
    plain: Seq<u8>,
)
    ensures
        opened(e, enc, mac) == Ok::<Seq<u8>, Error>(plain) <==> (e.mac == hmac_sha256_of(
            mac,
            e.iv + e.ct,
        ) && cbc_decrypted(enc, e.iv, e.ct) == Some(plain)),
        opened(e, enc, mac) == Err::<Seq<u8>, Error>(Error::MacMismatch) <==> e.mac
            != hmac_sha256_of(mac, e.iv + e.ct),
{
}

/// A sealed plaintext is its ciphertext under the encryption key with the tag
/// under the authentication key.
pub proof fn sealed_plaintext_is_encrypted_and_tagged(
    enc: Seq<u8>,
    mac: Seq<u8>,
    iv: Seq<u8>,
    plain: Seq<u8>,
)
    ensures
        sealed(enc, mac, iv, plain).iv == iv,
        sealed(enc, mac, iv, plain).ct == cbc_encrypted(enc, iv, plain),
        sealed(enc, mac, iv, plain).mac == hmac_sha256_of(
            mac,
            iv + cbc_encrypted(enc, iv, plain),
        ),
{
}

/// The text of an envelope is read part by part: `2.`, then the initialization
/// vector, the ciphertext and the tag in base64, with `|` between them.
pub proof fn text_is_read_part_by_part(
    iv_text: Seq<char>,
    ct_text: Seq<char>,
    mac_text: Seq<char>,
    e: EncStringView,
)
    requires
        !iv_text.contains('|'),
        !ct_text.contains('|'),
        base64_decode(iv_text) == Ok::<Seq<u8>, Base64Error>(e.iv),
        base64_decode(ct_text) == Ok::<Seq<u8>, Base64Error>(e.ct),
        base64_decode(mac_text) == Ok::<Seq<u8>, Base64Error>(e.mac),
        e.iv.len() == 16,
        e.mac.len() == 32,
    ensures
        parsed(
            seq!['2', '.'] + iv_text + seq!['|'] + ct_text + seq!['|'] + mac_text,
        ) == Ok::<EncStringView, Error>(e),
{
    let tail = ct_text.push('|') + mac_text;
    let body = iv_text.push('|') + tail;
    let s = seq!['2', '.'] + iv_text + seq!['|'] + ct_text + seq!['|'] + mac_text;
    assert(s =~= seq!['2'].push('.') + body);
    split_once_is(seq!['2'], '.', body);
    assert(forall|k: int| 0 <= k < iv_text.len() ==> iv_text.contains(#[trigger] iv_text[k]));
    split_once_is(iv_text, '|', tail);
    assert(forall|k: int| 0 <= k < ct_text.len() ==> ct_text.contains(#[trigger] ct_text[k]));
    split_once_is(ct_text, '|', mac_text);
    assert(seq!['2'][0] == '2' && seq!['0'][0] == '0' && seq!['1'][0] == '1');
}

/// Only envelopes of the authenticated type are read, and only with an
/// initialization vector of 16 bytes and a tag of 32.
pub proof fn only_the_authenticated_type_is_read(s: Seq<char>)
    ensures
        parsed(s) matches Ok(e) ==> s.len() >= 2 && s[0] == '2' && s[1] == '.' && e.iv.len() == 16
            && e.mac.len() == 32,
{
    if parsed(s) is Ok {
        split_once_joins(s, '.');
        let kind = split_once(s, '.')->Some_0.0;
        assert(kind =~= seq!['2']);
    }
}

/// The text of an envelope opens to the plaintext of the envelope it stands for,
/// where the tag is right under the authentication key; a text that stands for
/// none opens to nothing.
pub proof fn text_opens_to_its_plaintext(
    s: Seq<char>,
    enc: Seq<u8>,
    mac: Seq<u8>,
    plain: Seq<u8>,
)
    ensures
        parsed(s) matches Ok(e) ==> (opened_text(s, enc, mac) == Ok::<Seq<u8>, Error>(plain)
            <==> e.mac == hmac_sha256_of(mac, e.iv + e.ct) && cbc_decrypted(enc, e.iv, e.ct)
            == Some(plain)),
        parsed(s) matches Err(x) ==> opened_text(s, enc, mac) == Err::<Seq<u8>, Error>(x),
{
}

} // verus!
