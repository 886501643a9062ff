//! Unlocking: from a login at the server, from the cache with the master
//! password, or from the cache with a PIN.
use vstd::prelude::*;
use vstd::string::*;
use vstd::utf8::{decode_utf8, encode_utf8, valid_utf8};
use crate::crypto::{concat, hkdf_of, wipe, wipe_key};
use crate::text::{
    begins_with, chars_of, contains_text, copy_text, decimal, decimal_text, has_part, has_prefix,
    is_alnum, lowercase, string_of, tail_from, to_lower, trim_trailing, trimmed, utf8_text,
    without_trailing,
};
use crate::text_map::{insert_then_lookup, inserted, key_index, lookup, unique_keys, TextMap};
use crate::vault_agent::sealed::SealedKey;
use crate::vault_agent::vault::{
    folder_index, folder_view, key_view, org_index, Vault, VaultView,
};
use crate::vault_api::client::account_email;
use crate::vault_api::sync::{keyed_organizations, pair_texts, SyncFolder, SyncResponse};
use crate::vault_core::cipher::{
    decrypt_user_key, text_of_bytes, unwrapped_key, Cipher, CipherView,
};
use crate::vault_core::enc_string::{
    draw_iv, open_text, opened_text, seal_text, sealed, serialized,
};
use crate::vault_core::error::{error_text, prefixed};
use crate::vault_core::kdf::{
    derive_master_key, master_key, stretch_master_key, stretched, KdfParams,
};
use crate::vault_core::org_key::{account_key_opened, org_key_opened, AccountKey};
use crate::vault_ipc::proto::{ApiKeyStatus, Error, ErrorView, PinStatus};
use crate::vault_ipc::socket::{join_path, joined_path};
use crate::vault_store::{
    payload_opened, store_error_text, ApiKeyCreds, VaultCache, VaultCacheView,
};

verus! {

/// Wrong PINs in a row after which the PIN is disabled.
pub const MAX_PIN_ATTEMPTS: u32 = 5;

/// The encryption and the authentication half of a user key.
pub type UserKey = ([u8; 32], [u8; 32]);

/// Why a user key could not be recovered.
#[derive(Clone, Debug)]
pub enum KeyRecover {
    /// The password or the PIN is wrong.
    WrongSecret,
    /// Anything else.
    Internal(String),
}

/// What a [`KeyRecover`] holds.
pub enum KeyRecoverView {
    /// The password or the PIN is wrong.
    WrongSecret,
    /// Anything else.
    Internal(Seq<char>),
}

impl DeepView for KeyRecover {
    type V = KeyRecoverView;

    open spec fn deep_view(&self) -> KeyRecoverView {
        match *self {
            KeyRecover::WrongSecret => KeyRecoverView::WrongSecret,
            KeyRecover::Internal(s) => KeyRecoverView::Internal(s@),
        }
    }
}

impl KeyRecover {
    /// The error for the client: `wrong` for a wrong password or PIN.
    pub fn into_ipc(self, wrong: Error) -> (e: Error)
        ensures
            self is WrongSecret ==> e == wrong,
            self matches KeyRecover::Internal(s) ==> e == Error::Internal(s),
    {
        match self {
            KeyRecover::WrongSecret => wrong,
            KeyRecover::Internal(s) => Error::Internal(s),
        }
    }
}

/// The error of a failed cryptographic step.
pub open spec fn crypto_failure(e: crate::vault_core::error::Error) -> ErrorView {
    ErrorView::Internal("crypto: "@ + error_text(e))
}

/// The error of a failed cryptographic step.
pub fn crypto_err(e: crate::vault_core::error::Error) -> (r: Error)
    ensures
        r.deep_view() == crypto_failure(e),
{
    Error::Internal(prefixed("crypto: ", e.message().as_str()))
}

/// The email of an account as the server knows it.
pub fn normal_email(email: &str) -> (r: String)
    ensures
        r@ == account_email(email@),
{
    to_lower(trimmed(email).as_str())
}

/// The keys that a password or a PIN gives for an account whose email is
/// already as the server knows it.
pub open spec fn keys_for(email: Seq<char>, secret: Seq<u8>, kdf: KdfParams) -> Result<
    (Seq<u8>, Seq<u8>),
    crate::vault_core::error::Error,
> {
    match master_key(secret, encode_utf8(email), kdf) {
        Err(e) => Err(e),
        Ok(master) => Ok(stretched(master)),
    }
}

/// The keys that a password or a PIN unlocks an account's user key with.
pub open spec fn secret_keys(email: Seq<char>, secret: Seq<u8>, kdf: KdfParams) -> Result<
    (Seq<u8>, Seq<u8>),
    crate::vault_core::error::Error,
> {
    keys_for(account_email(email), secret, kdf)
}

/// Derives the keys that a password or a PIN gives for an account whose email
/// is already as the server knows it.
pub fn derive_keys_for(email: &str, secret: &[u8], kdf: KdfParams) -> (r: Result<
    UserKey,
    crate::vault_core::error::Error,
>)
    ensures
        r matches Ok((k, m)) ==> keys_for(email@, secret@, kdf) == Ok::<
            (Seq<u8>, Seq<u8>),
            crate::vault_core::error::Error,
        >((k@, m@)),
        r matches Err(e) ==> keys_for(email@, secret@, kdf) == Err::<
            (Seq<u8>, Seq<u8>),
            crate::vault_core::error::Error,
        >(e),
{
    let mut master: [u8; 32] = derive_master_key(secret, email.as_bytes(), kdf)?;
    let keys: Result<UserKey, crate::vault_core::error::Error> = stretch_master_key(&master);
    wipe_key(&mut master);
    keys
}

/// Derives the keys that a password or a PIN unlocks an account's user key
/// with.
pub fn derive_secret_keys(email: &str, secret: &[u8], kdf: KdfParams) -> (r: Result<
    UserKey,
    crate::vault_core::error::Error,
>)
    ensures
        r matches Ok((k, m)) ==> secret_keys(email@, secret@, kdf) == Ok::<
            (Seq<u8>, Seq<u8>),
            crate::vault_core::error::Error,
        >((k@, m@)),
        r matches Err(e) ==> secret_keys(email@, secret@, kdf) == Err::<
            (Seq<u8>, Seq<u8>),
            crate::vault_core::error::Error,
        >(e),
{
    derive_keys_for(normal_email(email).as_str(), secret, kdf)
}

/// The user key that a password or a PIN recovers from an envelope. The secret
/// is wrong exactly where the envelope's tag does not match; an envelope that
/// is damaged in another way is an error of its own.
pub open spec fn recovered(
    kdf: Option<KdfParams>,
    email: Seq<char>,
    secret: Seq<u8>,
    protected: Seq<char>,
) -> Result<(Seq<u8>, Seq<u8>), KeyRecoverView> {
    match kdf {
        None => Err(KeyRecoverView::Internal("cached account has no KDF params"@)),
        Some(kdf) => match secret_keys(email, secret, kdf) {
            Err(e) => Err(KeyRecoverView::Internal("crypto: "@ + error_text(e))),
            Ok((enc, mac)) => match unwrapped_key(protected, enc, mac) {
                Err(crate::vault_core::error::Error::MacMismatch) => Err(
                    KeyRecoverView::WrongSecret,
                ),
                Err(e) => Err(KeyRecoverView::Internal("crypto: "@ + error_text(e))),
                Ok(keys) => Ok(keys),
            },
        },
    }
}

/// Recovers the user key from an envelope with a password or a PIN.
pub fn recover_user_key(cache: &VaultCache, email: &str, secret: &[u8], protected: &str) -> (r:
    Result<UserKey, KeyRecover>)
    ensures
        r matches Ok((k, m)) ==> recovered(cache.kdf, email@, secret@, protected@) == Ok::<
            (Seq<u8>, Seq<u8>),
            KeyRecoverView,
        >((k@, m@)),
        r matches Err(e) ==> recovered(cache.kdf, email@, secret@, protected@) == Err::<
            (Seq<u8>, Seq<u8>),
            KeyRecoverView,
        >(e.deep_view()),
{
    let kdf: KdfParams = match cache.kdf {
        Some(k) => k,
        None => return Err(KeyRecover::Internal("cached account has no KDF params".to_owned())),
    };
    let (mut enc, mut mac) = match derive_secret_keys(email, secret, kdf) {
        Ok(k) => k,
        Err(e) => return Err(KeyRecover::Internal(prefixed("crypto: ", e.message().as_str()))),
    };
    let keys: Result<UserKey, crate::vault_core::error::Error> = decrypt_user_key(
        protected,
        &enc,
        &mac,
    );
    wipe_key(&mut enc);
    wipe_key(&mut mac);
    match keys {
        Ok(k) => Ok(k),
        Err(crate::vault_core::error::Error::MacMismatch) => Err(KeyRecover::WrongSecret),
        Err(e) => Err(KeyRecover::Internal(prefixed("crypto: ", e.message().as_str()))),
    }
}

/// Puts the user key into an envelope that a PIN opens, under an
/// initialization vector where there is one.
///
/// The PIN recovers exactly this key from the result.
pub fn pin_protect_with(
    email: &str,
    kdf: KdfParams,
    user_enc: &[u8; 32],
    user_mac: &[u8; 32],
    pin: &[u8],
    iv: Option<[u8; 16]>,
) -> (r: Result<String, Error>)
    ensures
        match (secret_keys(email@, pin@, kdf), iv) {
            (Err(x), _) => r matches Err(e) && e.deep_view() == crypto_failure(x),
            (Ok(_), None) => r matches Err(e) && e.deep_view() == crypto_failure(
                crate::vault_core::error::Error::Random,
            ),
            (Ok((k, m)), Some(v)) => r matches Ok(s) && {
                &&& s@ == serialized(sealed(k, m, v@, user_enc@ + user_mac@))
                &&& recovered(Some(kdf), email@, pin@, s@) == Ok::<
                    (Seq<u8>, Seq<u8>),
                    KeyRecoverView,
                >((user_enc@, user_mac@))
            },
        },
{
    let (mut enc, mut mac) = match derive_secret_keys(email, pin, kdf) {
        Ok(k) => k,
        Err(e) => return Err(crypto_err(e)),
    };
    let mut user_key: Vec<u8> = concat(user_enc.as_slice(), user_mac.as_slice());
    proof {
        assert(user_key@.take(32) =~= user_enc@);
        assert(user_key@.skip(32) =~= user_mac@);
    }
    let sealed: Option<String> = match iv {
        Some(v) => Some(seal_text(user_key.as_slice(), &enc, &mac, v)),
        None => None,
    };
    wipe(&mut user_key);
    wipe_key(&mut enc);
    wipe_key(&mut mac);
    match sealed {
        Some(s) => Ok(s),
        None => Err(crypto_err(crate::vault_core::error::Error::Random)),
    }
}

/// Puts the user key into an envelope that a PIN opens, under a fresh
/// initialization vector.
///
/// The PIN recovers exactly this key from the result.
pub fn pin_protect_user_key(
    email: &str,
    kdf: KdfParams,
    user_enc: &[u8; 32],
    user_mac: &[u8; 32],
    pin: &[u8],
) -> (r: Result<String, Error>)
    ensures
        r matches Ok(s) ==> recovered(Some(kdf), email@, pin@, s@) == Ok::<
            (Seq<u8>, Seq<u8>),
            KeyRecoverView,
        >((user_enc@, user_mac@)),
        secret_keys(email@, pin@, kdf) matches Err(e) ==> r is Err,
        r matches Err(e) ==> e.deep_view() == (match secret_keys(email@, pin@, kdf) {
            Err(x) => crypto_failure(x),
            Ok(_) => crypto_failure(crate::vault_core::error::Error::Random),
        }),
{
    pin_protect_with(email, kdf, user_enc, user_mac, pin, draw_iv())
}

/// What a PIN does to a cache: the user key or the error, and the cache
/// afterwards.
///
/// The right PIN clears the count of wrong ones. A wrong one adds to it, and
/// the last that is allowed removes the envelope. Once the count is full the
/// cache stays as it is.
pub open spec fn pin_tried(c: VaultCacheView, email: Seq<char>, pin: Seq<u8>) -> (
    Result<(Seq<u8>, Seq<u8>), ErrorView>,
    VaultCacheView,
) {
    if c.pin_failures >= MAX_PIN_ATTEMPTS {
        (Err(ErrorView::PinLockedOut), c)
    } else {
        match c.pin_protected_user_key {
            None => (Err(ErrorView::PinNotSet), c),
            Some(protected) => match recovered(c.kdf, email, pin, protected) {
                Ok(keys) => (Ok(keys), VaultCacheView { pin_failures: 0, ..c }),
                Err(KeyRecoverView::Internal(s)) => (Err(ErrorView::Internal(s)), c),
                Err(KeyRecoverView::WrongSecret) => if c.pin_failures + 1 >= MAX_PIN_ATTEMPTS {
                    (
                        Err(ErrorView::PinLockedOut),
                        VaultCacheView {
                            pin_failures: MAX_PIN_ATTEMPTS,
                            pin_protected_user_key: None,
                            ..c
                        },
                    )
                } else {
                    (
                        Err(
                            ErrorView::BadPin {
                                attempts_remaining: (MAX_PIN_ATTEMPTS - c.pin_failures - 1) as u32,
                            },
                        ),
                        VaultCacheView { pin_failures: (c.pin_failures + 1) as u32, ..c },
                    )
                },
            },
        }
    }
}

/// The cache after wrong PINs, one after the other.
pub open spec fn after_pins(c: VaultCacheView, email: Seq<char>, pins: Seq<Seq<u8>>) -> VaultCacheView
    decreases pins.len(),
{
    if pins.len() == 0 {
        c
    } else {
        pin_tried(after_pins(c, email, pins.drop_last()), email, pins.last()).1
    }
}

/// All the PINs are wrong for the envelope.
pub open spec fn all_wrong(
    c: VaultCacheView,
    email: Seq<char>,
    pins: Seq<Seq<u8>>,
    protected: Seq<char>,
) -> bool {
    forall|i: int|
        0 <= i < pins.len() ==> recovered(c.kdf, email, #[trigger] pins[i], protected) == Err::<
            (Seq<u8>, Seq<u8>),
            KeyRecoverView,
        >(KeyRecoverView::WrongSecret)
}

/// Fewer wrong PINs than allowed keep the envelope and are counted; as many as
/// allowed, or more, remove it for good.
pub proof fn wrong_pins_lock_out(
    c: VaultCacheView,
    email: Seq<char>,
    pins: Seq<Seq<u8>>,
    protected: Seq<char>,
)
    requires
        c.pin_failures == 0,
        c.pin_protected_user_key == Some(protected),
        all_wrong(c, email, pins, protected),
    ensures
        pins.len() < MAX_PIN_ATTEMPTS ==> after_pins(c, email, pins) == (VaultCacheView {
            pin_failures: pins.len() as u32,
            ..c
        }),
        pins.len() >= MAX_PIN_ATTEMPTS ==> after_pins(c, email, pins) == (VaultCacheView {
            pin_failures: MAX_PIN_ATTEMPTS,
            pin_protected_user_key: None,
            ..c
        }),
    decreases pins.len(),
{
    if pins.len() > 0 {
        let front = pins.drop_last();
        assert(all_wrong(c, email, front, protected)) by {
            assert forall|i: int| 0 <= i < front.len() implies recovered(
                c.kdf,
                email,
                #[trigger] front[i],
                protected,
            ) == Err::<(Seq<u8>, Seq<u8>), KeyRecoverView>(KeyRecoverView::WrongSecret) by {
                assert(front[i] == pins[i]);
            }
        }
        wrong_pins_lock_out(c, email, front, protected);
        assert(pins[pins.len() - 1] == pins.last());
    }
}

/// A cache that is locked out stays so, whatever the PIN.
pub proof fn lockout_is_final(c: VaultCacheView, email: Seq<char>, pin: Seq<u8>)
    requires
        c.pin_failures >= MAX_PIN_ATTEMPTS,
    ensures
        pin_tried(c, email, pin) == (
            Err::<(Seq<u8>, Seq<u8>), ErrorView>(ErrorView::PinLockedOut),
            c,
        ),
{
}

/// The right PIN gives the user key and clears the count, unless the cache is
/// locked out.
pub proof fn right_pin_unlocks(
    c: VaultCacheView,
    email: Seq<char>,
    pin: Seq<u8>,
    protected: Seq<char>,
    keys: (Seq<u8>, Seq<u8>),
)
    requires
        c.pin_failures < MAX_PIN_ATTEMPTS,
        c.pin_protected_user_key == Some(protected),
        recovered(c.kdf, email, pin, protected) == Ok::<(Seq<u8>, Seq<u8>), KeyRecoverView>(keys),
    ensures
        pin_tried(c, email, pin) == (
            Ok::<(Seq<u8>, Seq<u8>), ErrorView>(keys),
            VaultCacheView { pin_failures: 0, ..c },
        ),
{
}

/// Five wrong PINs in a row disable the PIN: the right one is then refused, and
/// the cache stays as it is, without the envelope. After fewer wrong ones the
/// right one gives the user key and clears the count.
pub proof fn right_pin_after_wrong_ones(
    c: VaultCacheView,
    email: Seq<char>,
    pins: Seq<Seq<u8>>,
    pin: Seq<u8>,
    protected: Seq<char>,
    keys: (Seq<u8>, Seq<u8>),
)
    requires
        c.pin_failures == 0,
        c.pin_protected_user_key == Some(protected),
        all_wrong(c, email, pins, protected),
        recovered(c.kdf, email, pin, protected) == Ok::<(Seq<u8>, Seq<u8>), KeyRecoverView>(keys),
    ensures
        ({
            let after = after_pins(c, email, pins);
            &&& pins.len() >= 5 ==> after.pin_failures == 5 && after.pin_protected_user_key is None
                && pin_tried(after, email, pin) == (
                Err::<(Seq<u8>, Seq<u8>), ErrorView>(ErrorView::PinLockedOut),
                after,
            )
            &&& pins.len() < 5 ==> pin_tried(after, email, pin) == (
                Ok::<(Seq<u8>, Seq<u8>), ErrorView>(keys),
                c,
            )
        }),
{
    wrong_pins_lock_out(c, email, pins, protected);
}

/// A damaged envelope is no wrong PIN: where it does not open for another reason
/// than its tag, that is the error, and the cache stays as it is.
pub proof fn damaged_envelope_is_no_wrong_pin(
    c: VaultCacheView,
    email: Seq<char>,
    pin: Seq<u8>,
    protected: Seq<char>,
    kdf: KdfParams,
    keys: (Seq<u8>, Seq<u8>),
    e: crate::vault_core::error::Error,
)
    requires
        c.pin_failures < MAX_PIN_ATTEMPTS,
        c.pin_protected_user_key == Some(protected),
        c.kdf == Some(kdf),
        secret_keys(email, pin, kdf) == Ok::<
            (Seq<u8>, Seq<u8>),
            crate::vault_core::error::Error,
        >(keys),
        unwrapped_key(protected, keys.0, keys.1) == Err::<
            (Seq<u8>, Seq<u8>),
            crate::vault_core::error::Error,
        >(e),
        !(e is MacMismatch),
    ensures
        pin_tried(c, email, pin) == (
            Err::<(Seq<u8>, Seq<u8>), ErrorView>(crypto_failure(e)),
            c,
        ),
{
}

/// Tries a PIN on a cache.
pub fn pin_attempt(cache: &mut VaultCache, email: &str, pin: &[u8]) -> (r: Result<UserKey, Error>)
    ensures
        final(cache).deep_view() == pin_tried(old(cache).deep_view(), email@, pin@).1,
        r matches Ok((k, m)) ==> pin_tried(old(cache).deep_view(), email@, pin@).0 == Ok::<
            (Seq<u8>, Seq<u8>),
            ErrorView,
        >((k@, m@)),
        r matches Err(e) ==> pin_tried(old(cache).deep_view(), email@, pin@).0 == Err::<
            (Seq<u8>, Seq<u8>),
            ErrorView,
        >(e.deep_view()),
{
    if cache.pin_failures >= MAX_PIN_ATTEMPTS {
        return Err(Error::PinLockedOut);
    }
    let protected: String = match &cache.pin_protected_user_key {
        Some(p) => p.clone(),
        None => return Err(Error::PinNotSet),
    };
    match recover_user_key(cache, email, pin, protected.as_str()) {
        Ok(keys) => {
            cache.pin_failures = 0;
            Ok(keys)
        },
        Err(KeyRecover::Internal(s)) => Err(Error::Internal(s)),
        Err(KeyRecover::WrongSecret) => {
            cache.pin_failures = cache.pin_failures + 1;
            let remaining: u32 = MAX_PIN_ATTEMPTS - cache.pin_failures;
            if remaining == 0 {
                cache.pin_protected_user_key = None;
                Err(Error::PinLockedOut)
            } else {
                Err(Error::BadPin { attempts_remaining: remaining })
            }
        },
    }
}

/// Tries a PIN on the cache of an account, if there is one. The cache as it is
/// to be stored comes with the outcome.
pub fn unlock_pin(cache: Option<VaultCache>, email: &str, pin: &[u8]) -> (r: (
    Option<VaultCache>,
    Result<UserKey, Error>,
))
    ensures
        cache is None ==> r.0 is None && r.1 == Err::<UserKey, Error>(Error::PinNotSet),
        cache matches Some(c) ==> {
            &&& r.0 matches Some(d) && d.deep_view() == pin_tried(c.deep_view(), email@, pin@).1
            &&& r.1 matches Ok((k, m)) ==> pin_tried(c.deep_view(), email@, pin@).0 == Ok::<
                (Seq<u8>, Seq<u8>),
                ErrorView,
            >((k@, m@))
            &&& r.1 matches Err(e) ==> pin_tried(c.deep_view(), email@, pin@).0 == Err::<
                (Seq<u8>, Seq<u8>),
                ErrorView,
            >(e.deep_view())
        },
{
    match cache {
        None => (None, Err(Error::PinNotSet)),
        Some(c) => {
            let mut c: VaultCache = c;
            let keys: Result<UserKey, Error> = pin_attempt(&mut c, email, pin);
            (Some(c), keys)
        },
    }
}

/// The cache with a new PIN's envelope, its count cleared.
pub fn enroll_pin(cache: VaultCache, envelope: String) -> (r: VaultCache)
    ensures
        r.deep_view() == (VaultCacheView {
            pin_protected_user_key: Some(envelope@),
            pin_failures: 0,
            ..cache.deep_view()
        }),
{
    let mut cache: VaultCache = cache;
    cache.pin_protected_user_key = Some(envelope);
    cache.pin_failures = 0;
    cache
}

/// A cache without a PIN, its count cleared.
pub open spec fn pin_disabled(c: VaultCacheView) -> VaultCacheView {
    VaultCacheView { pin_protected_user_key: None, pin_failures: 0, ..c }
}

/// The cache without a PIN, as it is to be stored. Where there is no cache
/// there is nothing to store.
pub fn pin_disable(cache: Option<VaultCache>) -> (r: Option<VaultCache>)
    ensures
        match cache {
            None => r is None,
            Some(c) => r matches Some(d) && d.deep_view() == pin_disabled(c.deep_view()),
        },
{
    match cache {
        None => None,
        Some(c) => {
            let mut c: VaultCache = c;
            c.pin_protected_user_key = None;
            c.pin_failures = 0;
            Some(c)
        },
    }
}

/// Once the PIN is disabled none is set and all attempts are left, and to
/// disable it again changes nothing.
pub proof fn disabled_pin_is_gone(c: VaultCacheView)
    ensures
        pin_state(Some(pin_disabled(c))) == (PinStatus { enabled: false, attempts_remaining: 5 }),
        pin_disabled(pin_disabled(c)) == pin_disabled(c),
        pin_state(None) == (PinStatus { enabled: false, attempts_remaining: 5 }),
{
}

/// Whether a PIN is set in a cache, and how many wrong ones are left.
pub open spec fn pin_state(cache: Option<VaultCacheView>) -> PinStatus {
    match cache {
        None => PinStatus { enabled: false, attempts_remaining: MAX_PIN_ATTEMPTS },
        Some(c) => PinStatus {
            enabled: c.pin_protected_user_key is Some,
            attempts_remaining: if c.pin_failures >= MAX_PIN_ATTEMPTS {
                0
            } else {
                (MAX_PIN_ATTEMPTS - c.pin_failures) as u32
            },
        },
    }
}

/// Whether a PIN is set in a cache, and how many wrong ones are left.
pub fn pin_status(cache: &Option<VaultCache>) -> (r: PinStatus)
    ensures
        r == pin_state(cache.deep_view()),
{
    match cache {
        None => PinStatus { enabled: false, attempts_remaining: MAX_PIN_ATTEMPTS },
        Some(c) => PinStatus {
            enabled: c.pin_protected_user_key.is_some(),
            attempts_remaining: if c.pin_failures >= MAX_PIN_ATTEMPTS {
                0
            } else {
                MAX_PIN_ATTEMPTS - c.pin_failures
            },
        },
    }
}

/// Whether an API key is stored.
pub fn apikey_status(creds: &Option<ApiKeyCreds>) -> (r: ApiKeyStatus)
    ensures
        r.configured == (creds is Some),
        r.client_id.deep_view() == (match *creds {
            Some(c) => Some(c.client_id@),
            None => None,
        }),
{
    match creds {
        None => ApiKeyStatus { configured: false, client_id: None },
        Some(c) => ApiKeyStatus { configured: true, client_id: Some(c.client_id.clone()) },
    }
}

/// An API key in the form in which it is stored; its secret must be UTF-8.
pub fn apikey_to_store(creds: &crate::vault_ipc::proto::ApiKeyCreds) -> (r: Result<
    ApiKeyCreds,
    Error,
>)
    ensures
        valid_utf8(creds.client_secret@) ==> (r matches Ok(c) && c.client_id@ == creds.client_id@
            && c.client_secret@ == decode_utf8(creds.client_secret@)),
        !valid_utf8(creds.client_secret@) ==> (r matches Err(e) && e.deep_view()
            == ErrorView::Internal("api-key client_secret is not valid UTF-8"@)),
{
    let mut bytes: Vec<u8> = Vec::new();
    bytes.extend_from_slice(creds.client_secret.as_slice());
    assert(bytes@ =~= creds.client_secret@);
    match utf8_text(bytes) {
        Some(client_secret) => Ok(
            ApiKeyCreds { client_id: creds.client_id.clone(), client_secret },
        ),
        None => Err(Error::Internal("api-key client_secret is not valid UTF-8".to_owned())),
    }
}

/// The user key that the master password recovers from a cache.
pub open spec fn cache_unlocked(c: VaultCacheView, email: Seq<char>, password: Seq<u8>) -> Result<
    (Seq<u8>, Seq<u8>),
    ErrorView,
> {
    match c.protected_user_key {
        None => Err(ErrorView::Internal("cached account has no protected user key"@)),
        Some(protected) => match recovered(c.kdf, email, password, protected) {
            Ok(keys) => Ok(keys),
            Err(KeyRecoverView::WrongSecret) => Err(ErrorView::BadPassword),
            Err(KeyRecoverView::Internal(s)) => Err(ErrorView::Internal(s)),
        },
    }
}

/// Recovers the user key from a cache with the master password.
pub fn unlock_from_cache(cache: &VaultCache, email: &str, password: &[u8]) -> (r: Result<
    UserKey,
    Error,
>)
    ensures
        r matches Ok((k, m)) ==> cache_unlocked(cache.deep_view(), email@, password@) == Ok::<
            (Seq<u8>, Seq<u8>),
            ErrorView,
        >((k@, m@)),
        r matches Err(e) ==> cache_unlocked(cache.deep_view(), email@, password@) == Err::<
            (Seq<u8>, Seq<u8>),
            ErrorView,
        >(e.deep_view()),
{
    match &cache.protected_user_key {
        None => Err(Error::Internal("cached account has no protected user key".to_owned())),
        Some(p) => match recover_user_key(cache, email, password, p.as_str()) {
            Ok(keys) => Ok(keys),
            Err(e) => Err(e.into_ipc(Error::BadPassword)),
        },
    }
}

/// What the payload of a cache holds, or the error for the client.
pub open spec fn cached_answer(c: VaultCacheView, enc: Seq<u8>, mac: Seq<u8>) -> Result<
    Seq<u8>,
    ErrorView,
> {
    match payload_opened(c.payload, enc, mac) {
        Ok(p) => Ok(p),
        Err(e) => Err(ErrorView::Internal("decrypt cached vault: "@ + store_error_text(e))),
    }
}

/// Opens the payload of a cache.
pub fn cached_payload(cache: &VaultCache, enc: &[u8; 32], mac: &[u8; 32]) -> (r: Result<
    Vec<u8>,
    Error,
>)
    ensures
        r matches Ok(p) ==> cached_answer(cache.deep_view(), enc@, mac@) == Ok::<
            Seq<u8>,
            ErrorView,
        >(p@),
        r matches Err(e) ==> cached_answer(cache.deep_view(), enc@, mac@) == Err::<
            Seq<u8>,
            ErrorView,
        >(e.deep_view()),
{
    match cache.load_payload(enc, mac) {
        Ok(p) => Ok(p),
        Err(e) => Err(
            Error::Internal(prefixed("decrypt cached vault: ", e.message().as_str())),
        ),
    }
}

/// The items of a sync that have the expected form, in order.
pub open spec fn sync_items(list: Seq<Option<Cipher>>) -> Seq<CipherView>
    decreases list.len(),
{
    if list.len() == 0 {
        Seq::empty()
    } else {
        match list.last() {
            Some(c) => sync_items(list.drop_last()).push(c.deep_view()),
            None => sync_items(list.drop_last()),
        }
    }
}

/// The decrypted name of a folder of a sync, where it has an identifier and a
/// name that decrypts to text.
pub open spec fn opened_folder(f: SyncFolder, enc: Seq<u8>, mac: Seq<u8>) -> Option<
    (Seq<char>, Seq<char>),
> {
    match (f.id, f.name) {
        (Some(id), Some(name)) => match opened_text(name@, enc, mac) {
            Err(_) => None,
            Ok(plain) => match text_of_bytes(plain) {
                Err(_) => None,
                Ok(t) => Some((id@, t)),
            },
        },
        _ => None,
    }
}

/// The names of a sync's folders by identifier. Folders that do not open are
/// left out; of two with the same identifier the later one counts.
pub open spec fn sync_folders(list: Seq<SyncFolder>, enc: Seq<u8>, mac: Seq<u8>) -> Seq<
    (Seq<char>, Seq<char>),
>
    decreases list.len(),
{
    if list.len() == 0 {
        Seq::empty()
    } else {
        let front = sync_folders(list.drop_last(), enc, mac);
        match opened_folder(list.last(), enc, mac) {
            Some((id, name)) => inserted(front, id, name),
            None => front,
        }
    }
}

/// The keys of organizations that unwrap under an account key, by identifier.
pub open spec fn unwrapped_orgs(list: Seq<(Seq<char>, Seq<char>)>, pkcs8: Seq<u8>) -> Seq<
    (Seq<char>, (Seq<u8>, Seq<u8>)),
>
    decreases list.len(),
{
    if list.len() == 0 {
        Seq::empty()
    } else {
        let front = unwrapped_orgs(list.drop_last(), pkcs8);
        match org_key_opened(pkcs8, list.last().1) {
            Ok(keys) => inserted(front, list.last().0, keys),
            Err(_) => front,
        }
    }
}

/// The keys of a sync's organizations: none without an account key that opens.
pub open spec fn sync_org_keys(sync: SyncResponse, enc: Seq<u8>, mac: Seq<u8>) -> Seq<
    (Seq<char>, (Seq<u8>, Seq<u8>)),
> {
    match sync.private_key {
        None => Seq::empty(),
        Some(p) => match account_key_opened(p@, enc, mac) {
            Err(_) => Seq::empty(),
            Ok(pkcs8) => unwrapped_orgs(keyed_organizations(sync.organizations@), pkcs8),
        },
    }
}

proof fn folder_view_inserted(m: Seq<(Seq<char>, String)>, k: Seq<char>, v: String)
    ensures
        folder_view(inserted(m, k, v)) == inserted(folder_view(m), k, v@),
{
    folder_index(m, k, 0);
    assert(folder_view(inserted(m, k, v)) =~= inserted(folder_view(m), k, v@));
}

proof fn key_view_inserted(m: Seq<(Seq<char>, UserKey)>, k: Seq<char>, v: UserKey)
    ensures
        key_view(inserted(m, k, v)) == inserted(key_view(m), k, (v.0@, v.1@)),
{
    org_index(m, k, 0);
    assert(key_view(inserted(m, k, v)) =~= inserted(key_view(m), k, (v.0@, v.1@)));
}

fn open_folder(f: &SyncFolder, enc: &[u8; 32], mac: &[u8; 32]) -> (r: Option<(String, String)>)
    ensures
        (match r {
            Some((id, name)) => Some((id@, name@)),
            None => None,
        }) == opened_folder(*f, enc@, mac@),
{
    let id: &String = match &f.id {
        Some(i) => i,
        None => return None,
    };
    let name: &String = match &f.name {
        Some(n) => n,
        None => return None,
    };
    let plain: Vec<u8> = match open_text(name.as_str(), enc, mac) {
        Ok(p) => p,
        Err(_) => return None,
    };
    match utf8_text(plain) {
        Some(t) => Some((id.clone(), t)),
        None => None,
    }
}

/// The items and the folders of a sync.
pub fn ciphers_and_folders(sync: &SyncResponse, enc: &[u8; 32], mac: &[u8; 32]) -> (r: (
    Vec<Cipher>,
    TextMap<String>,
))
    ensures
        r.0.deep_view() == sync_items(sync.ciphers@),
        folder_view(r.1@) == sync_folders(sync.folders@, enc@, mac@),
{
    let mut ciphers: Vec<Cipher> = Vec::new();
    let mut i: usize = 0;
    assert(ciphers.deep_view() =~= Seq::empty());
    while i < sync.ciphers.len()
        invariant
            i <= sync.ciphers@.len(),
            ciphers.deep_view() == sync_items(sync.ciphers@.take(i as int)),
        decreases sync.ciphers.len() - i,
    {
        let ghost before = ciphers.deep_view();
        assert(sync.ciphers@.take(i + 1).drop_last() =~= sync.ciphers@.take(i as int));
        assert(sync.ciphers@.take(i + 1).last() == sync.ciphers@[i as int]);
        if let Some(c) = &sync.ciphers[i] {
            ciphers.push(c.clone());
            assert(ciphers.deep_view() =~= before.push(c.deep_view()));
        }
        i += 1;
    }
    assert(sync.ciphers@.take(sync.ciphers@.len() as int) =~= sync.ciphers@);
    let mut folders: TextMap<String> = TextMap::new();
    let mut j: usize = 0;
    assert(folder_view(folders@) =~= Seq::empty());
    while j < sync.folders.len()
        invariant
            j <= sync.folders@.len(),
            folder_view(folders@) == sync_folders(sync.folders@.take(j as int), enc@, mac@),
        decreases sync.folders.len() - j,
    {
        assert(sync.folders@.take(j + 1).drop_last() =~= sync.folders@.take(j as int));
        assert(sync.folders@.take(j + 1).last() == sync.folders@[j as int]);
        if let Some((id, name)) = open_folder(&sync.folders[j], enc, mac) {
            proof {
                folder_view_inserted(folders@, id@, name);
            }
            folders.insert(id, name);
        }
        j += 1;
    }
    assert(sync.folders@.take(sync.folders@.len() as int) =~= sync.folders@);
    (ciphers, folders)
}

/// The keys of a sync's organizations. Those that do not unwrap are left out.
pub fn build_org_keys(sync: &SyncResponse, enc: &[u8; 32], mac: &[u8; 32]) -> (r: TextMap<UserKey>)
    ensures
        key_view(r@) == sync_org_keys(*sync, enc@, mac@),
{
    let mut out: TextMap<UserKey> = TextMap::new();
    assert(key_view(out@) =~= Seq::empty());
    let envelope: &String = match &sync.private_key {
        Some(p) => p,
        None => return out,
    };
    let account: AccountKey = match AccountKey::from_protected(envelope.as_str(), enc, mac) {
        Ok(a) => a,
        Err(_) => return out,
    };
    let wrapped: Vec<(String, String)> = sync.organization_keys();
    let ghost list = keyed_organizations(sync.organizations@);
    assert(list.len() == wrapped@.len());
    let mut i: usize = 0;
    assert(list.take(0) =~= Seq::empty());
    while i < wrapped.len()
        invariant
            i <= wrapped@.len(),
            list == pair_texts(wrapped@),
            key_view(out@) == unwrapped_orgs(list.take(i as int), account@),
        decreases wrapped.len() - i,
    {
        assert(list.take(i + 1).drop_last() =~= list.take(i as int));
        assert(list.take(i + 1).last() == (wrapped@[i as int].0@, wrapped@[i as int].1@));
        if let Ok(keys) = account.decrypt_org_key(wrapped[i].1.as_str()) {
            proof {
                key_view_inserted(out@, wrapped@[i as int].0@, keys);
            }
            out.insert(wrapped[i].0.clone(), keys);
        }
        i += 1;
    }
    assert(list.take(list.len() as int) =~= list);
    out
}

/// The refresh token in a cache, where there is one that opens to text.
pub open spec fn cached_token(token: Option<Seq<char>>, enc: Seq<u8>, mac: Seq<u8>) -> Option<
    Seq<char>,
> {
    match token {
        None => None,
        Some(s) => match opened_text(s, enc, mac) {
            Err(_) => None,
            Ok(plain) => match text_of_bytes(plain) {
                Err(_) => None,
                Ok(t) => Some(t),
            },
        },
    }
}

fn open_token(token: &Option<String>, enc: &[u8; 32], mac: &[u8; 32]) -> (r: Option<String>)
    ensures
        r.deep_view() == cached_token(token.deep_view(), enc@, mac@),
{
    match token {
        None => None,
        Some(s) => match open_text(s.as_str(), enc, mac) {
            Err(_) => None,
            Ok(plain) => utf8_text(plain),
        },
    }
}

/// The vault of a session without access to the server, from the cache, the
/// user key and the server's answer in the cache, or the text of the error
/// where that answer could not be read.
pub open spec fn cached_vault(
    c: VaultCacheView,
    server: Seq<char>,
    email: Seq<char>,
    enc: Seq<u8>,
    mac: Seq<u8>,
    sync: Result<SyncResponse, String>,
) -> Result<VaultView, ErrorView> {
    match (sync, c.kdf) {
        (Err(m), _) => Err(ErrorView::Internal("parse cached vault: "@ + m@)),
        (_, None) => Err(ErrorView::Internal("cached account has no KDF params"@)),
        (Ok(sync), Some(kdf)) => Ok(
            VaultView {
                server,
                email: account_email(email),
                user_enc: enc,
                user_mac: mac,
                ciphers: sync_items(sync.ciphers@),
                folders: sync_folders(sync.folders@, enc, mac),
                org_keys: sync_org_keys(sync, enc, mac),
                client: None,
                protected_user_key: match c.protected_user_key {
                    Some(p) => p,
                    None => Seq::empty(),
                },
                kdf,
                refresh_token: cached_token(c.refresh_token, enc, mac),
                device_id: c.device_id,
                last_sync: c.last_sync,
            },
        ),
    }
}

/// The vault of a session without access to the server.
pub fn vault_from_user_key(
    cache: &VaultCache,
    server: &str,
    email: &str,
    keys: UserKey,
    sync: Result<SyncResponse, String>,
) -> (r: Result<Vault, Error>)
    ensures
        r matches Ok(v) ==> cached_vault(
            cache.deep_view(),
            server@,
            email@,
            keys.0@,
            keys.1@,
            sync,
        ) == Ok::<VaultView, ErrorView>(v.deep_view()),
        r matches Err(e) ==> cached_vault(
            cache.deep_view(),
            server@,
            email@,
            keys.0@,
            keys.1@,
            sync,
        ) == Err::<VaultView, ErrorView>(e.deep_view()),
{
    let sync: SyncResponse = match sync {
        Ok(s) => s,
        Err(m) => return Err(
            Error::Internal(prefixed("parse cached vault: ", m.as_str())),
        ),
    };
    let kdf: KdfParams = match cache.kdf {
        Some(k) => k,
        None => return Err(Error::Internal("cached account has no KDF params".to_owned())),
    };
    let (enc, mac) = keys;
    let (ciphers, folders) = ciphers_and_folders(&sync, &enc, &mac);
    let org_keys: TextMap<UserKey> = build_org_keys(&sync, &enc, &mac);
    let protected_user_key: String = match &cache.protected_user_key {
        Some(p) => p.clone(),
        None => String::new(),
    };
    assert(cache.protected_user_key is None ==> protected_user_key@ =~= Seq::empty());
    Ok(
        Vault {
            server: server.to_owned(),
            email: normal_email(email),
            user_enc: SealedKey::new(enc),
            user_mac: SealedKey::new(mac),
            ciphers,
            folders,
            org_keys,
            client: None,
            protected_user_key,
            kdf,
            refresh_token: open_token(&cache.refresh_token, &enc, &mac),
            device_id: cache.device_id.clone(),
            last_sync: copy_text(&cache.last_sync),
        },
    )
}

/// The error for the client that an error of the server's client stands for.
pub open spec fn api_failure(e: crate::vault_api::error::ErrorView) -> ErrorView {
    match e {
        crate::vault_api::error::ErrorView::ServerStatus { status, message } => if status == 400
            && (has_part(message, "invalid_grant"@) || has_part(lowercase(message), "username"@)) {
            ErrorView::BadPassword
        } else {
            ErrorView::Network("HTTP "@ + decimal(status as nat) + ": "@ + message)
        },
        crate::vault_api::error::ErrorView::TwoFactorRequired(_) => ErrorView::TwoFactorRequired,
        other => ErrorView::Network(crate::vault_api::error::api_error_text(other)),
    }
}

/// The error for the client that an error of the server's client stands for: a
/// refused password, a challenge for a second factor, or the network.
pub fn api_err(e: crate::vault_api::error::Error) -> (r: Error)
    ensures
        r.deep_view() == api_failure(e.deep_view()),
{
    match &e {
        crate::vault_api::error::Error::ServerStatus { status, message } => {
            if *status == 400 && (contains_text(message.as_str(), "invalid_grant") || contains_text(
                to_lower(message.as_str()).as_str(),
                "username",
            )) {
                Error::BadPassword
            } else {
                let mut text: String = prefixed("HTTP ", decimal_text(*status as u64).as_str());
                text.append(": ");
                text.append(message.as_str());
                Error::Network(text)
            }
        },
        crate::vault_api::error::Error::TwoFactorRequired(_) => Error::TwoFactorRequired,
        _ => Error::Network(e.message()),
    }
}

/// The error for the client that an error of a call in an open session stands
/// for: the network, whatever it says.
pub fn network_err(e: crate::vault_api::error::Error) -> (r: Error)
    ensures
        r.deep_view() == ErrorView::Network(crate::vault_api::error::api_error_text(e.deep_view())),
{
    Error::Network(e.message())
}

/// A character that is safe in the name of a directory.
pub open spec fn is_dir_char(c: char) -> bool {
    is_alnum(c) || c == '.' || c == '_' || c == '-'
}

/// The host part of a server origin: without the scheme and without slashes at
/// the end.
pub open spec fn origin_host(server: Seq<char>) -> Seq<char> {
    let rest = if has_prefix(server, "https://"@) {
        server.skip(8)
    } else if has_prefix(server, "http://"@) {
        server.skip(7)
    } else {
        server
    };
    without_trailing(rest, '/')
}

/// The name of an account's directory: the host and the email in lower case,
/// every other character than letters, digits, `.`, `_` and `-` as `_`.
pub open spec fn dir_name(server: Seq<char>, email: Seq<char>) -> Seq<char> {
    let raw = origin_host(server).push('_') + lowercase(email);
    raw.map_values(|c: char| if is_dir_char(c) { c } else { '_' })
}

/// The name of an account's directory holds safe characters alone.
pub proof fn dir_name_is_safe(server: Seq<char>, email: Seq<char>)
    ensures
        forall|i: int|
            0 <= i < dir_name(server, email).len() ==> is_dir_char(
                #[trigger] dir_name(server, email)[i],
            ),
{
}

/// A letter, a digit, `.` or `-`.
pub open spec fn is_plain_char(c: char) -> bool {
    is_alnum(c) || c == '.' || c == '-'
}

/// Accounts whose hosts are made of letters, digits, `.` and `-`, and whose
/// emails in lower case are made of these and `@`, have directories of their
/// own: only the same host and the same email share one.
pub proof fn plain_accounts_do_not_collide(
    server1: Seq<char>,
    email1: Seq<char>,
    server2: Seq<char>,
    email2: Seq<char>,
)
    requires
        forall|i: int|
            0 <= i < origin_host(server1).len() ==> is_plain_char(
                #[trigger] origin_host(server1)[i],
            ),
        forall|i: int|
            0 <= i < origin_host(server2).len() ==> is_plain_char(
                #[trigger] origin_host(server2)[i],
            ),
        forall|i: int|
            0 <= i < lowercase(email1).len() ==> is_plain_char(#[trigger] lowercase(email1)[i])
                || lowercase(email1)[i] == '@',
        forall|i: int|
            0 <= i < lowercase(email2).len() ==> is_plain_char(#[trigger] lowercase(email2)[i])
                || lowercase(email2)[i] == '@',
        dir_name(server1, email1) == dir_name(server2, email2),
    ensures
        origin_host(server1) == origin_host(server2),
        lowercase(email1) == lowercase(email2),
{
    let h1 = origin_host(server1);
    let h2 = origin_host(server2);
    let e1 = lowercase(email1);
    let e2 = lowercase(email2);
    let d = dir_name(server1, email1);
    let d2 = dir_name(server2, email2);
    assert(d.len() == h1.len() + 1 + e1.len());
    assert(d2.len() == h2.len() + 1 + e2.len());
    assert(d[h1.len() as int] == '_');
    assert(d2[h2.len() as int] == '_');
    if h1.len() < h2.len() {
        assert(d2[h1.len() as int] == h2[h1.len() as int]);
        assert(is_plain_char(h2[h1.len() as int]));
    }
    if h2.len() < h1.len() {
        assert(d[h2.len() as int] == h1[h2.len() as int]);
        assert(is_plain_char(h1[h2.len() as int]));
    }
    assert forall|i: int| 0 <= i < h1.len() implies h1[i] == h2[i] by {
        assert(is_plain_char(h1[i]) && is_plain_char(h2[i]));
        assert(d[i] == h1[i] && d2[i] == h2[i]);
    }
    assert(h1 =~= h2);
    assert forall|i: int| 0 <= i < e1.len() implies e1[i] == e2[i] by {
        let k = h1.len() + 1 + i;
        assert(is_plain_char(e1[i]) || e1[i] == '@');
        assert(is_plain_char(e2[i]) || e2[i] == '@');
        assert(d[k] == (if is_dir_char(e1[i]) { e1[i] } else { '_' }));
        assert(d2[k] == (if is_dir_char(e2[i]) { e2[i] } else { '_' }));
    }
    assert(e1 =~= e2);
}

/// The name of an account's directory.
pub fn account_dir_name(server: &str, email: &str) -> (out: String)
    ensures
        out@ == dir_name(server@, email@),
{
    let chars: Vec<char> = chars_of(server);
    let all: &[char] = chars.as_slice();
    proof {
        reveal_strlit("https://");
        reveal_strlit("http://");
    }
    let rest: &[char] = if begins_with(all, "https://") {
        tail_from(all, 8)
    } else if begins_with(all, "http://") {
        tail_from(all, 7)
    } else {
        all
    };
    let mut raw: Vec<char> = Vec::new();
    raw.extend_from_slice(trim_trailing(rest, '/'));
    raw.push('_');
    let lower: Vec<char> = chars_of(to_lower(email).as_str());
    raw.extend_from_slice(lower.as_slice());
    let ghost want = origin_host(server@).push('_') + lowercase(email@);
    assert(raw@ =~= want);
    let mut out: Vec<char> = Vec::new();
    let mut i: usize = 0;
    while i < raw.len()
        invariant
            i <= raw@.len(),
            raw@ == want,
            out@ =~= want.take(i as int).map_values(|c: char| if is_dir_char(c) { c } else { '_' }),
        decreases raw.len() - i,
    {
        let c: char = raw[i];
        let safe: bool = ('a' <= c && c <= 'z') || ('A' <= c && c <= 'Z') || ('0' <= c && c <= '9')
            || c == '.' || c == '_' || c == '-';
        assert(safe == is_dir_char(c));
        out.push(
            if safe {
                c
            } else {
                '_'
            },
        );
        assert(want.take(i + 1) =~= want.take(i as int).push(c));
        i += 1;
    }
    assert(want.take(want.len() as int) =~= want);
    string_of(out.as_slice())
}

/// The directory of an account below the directory for data, where there is
/// one.
pub fn cache_dir(data_dir: &Option<String>, server: &str, email: &str) -> (r: Option<String>)
    ensures
        data_dir is None ==> r is None,
        data_dir matches Some(d) ==> (r matches Some(p) && p@ == joined_path(
            d@,
            dir_name(server@, email@),
        )),
{
    match data_dir {
        None => None,
        Some(d) => Some(join_path(d.as_str(), account_dir_name(server, email).as_str())),
    }
}

/// How many items of a list have the expected form.
pub open spec fn present_items(list: Seq<Option<Cipher>>) -> nat
    decreases list.len(),
{
    if list.len() == 0 {
        0
    } else if list.last() is Some {
        present_items(list.drop_last()) + 1
    } else {
        present_items(list.drop_last())
    }
}

proof fn kept_items_count(list: Seq<Option<Cipher>>)
    ensures
        sync_items(list).len() == present_items(list),
    decreases list.len(),
{
    if list.len() > 0 {
        kept_items_count(list.drop_last());
    }
}

proof fn kept_items_extend(list: Seq<Option<Cipher>>, n: int, k: int)
    requires
        0 <= n <= list.len(),
        0 <= k < sync_items(list.take(n)).len(),
    ensures
        k < sync_items(list).len(),
        sync_items(list)[k] == sync_items(list.take(n))[k],
    decreases list.len() - n,
{
    if n < list.len() {
        let next = list.take(n + 1);
        assert(next.drop_last() =~= list.take(n));
        assert(sync_items(next)[k] == sync_items(list.take(n))[k]);
        kept_items_extend(list, n + 1, k);
    } else {
        assert(list.take(n) =~= list);
    }
}

/// A sync keeps every item that has the expected form, as it is and whoever owns
/// it, in the order of the answer, and nothing else: the item at a place comes
/// after as many as there are such items before it.
pub proof fn sync_keeps_every_item(list: Seq<Option<Cipher>>, i: int)
    requires
        0 <= i < list.len(),
    ensures
        sync_items(list).len() == present_items(list),
        list[i] matches Some(c) ==> present_items(list.take(i)) < sync_items(list).len()
            && sync_items(list)[present_items(list.take(i)) as int] == c.deep_view(),
{
    kept_items_count(list);
    if let Some(c) = list[i] {
        let upto = list.take(i + 1);
        assert(upto.drop_last() =~= list.take(i));
        assert(upto.last() == list[i]);
        kept_items_count(list.take(i));
        let k = sync_items(list.take(i)).len() as int;
        assert(sync_items(upto)[k] == c.deep_view());
        kept_items_extend(list, i + 1, k);
    }
}

proof fn all_present_count(list: Seq<Option<Cipher>>)
    requires
        forall|i: int| 0 <= i < list.len() ==> (#[trigger] list[i]) is Some,
    ensures
        present_items(list) == list.len(),
    decreases list.len(),
{
    if list.len() > 0 {
        assert(list[list.len() - 1] is Some);
        all_present_count(list.drop_last());
    }
}

/// Where every item of an answer has the expected form, the vault has them all,
/// each in its place.
pub proof fn sound_sync_is_kept_whole(list: Seq<Option<Cipher>>, i: int)
    requires
        forall|k: int| 0 <= k < list.len() ==> (#[trigger] list[k]) is Some,
        0 <= i < list.len(),
    ensures
        sync_items(list).len() == list.len(),
        sync_items(list)[i] == list[i]->Some_0.deep_view(),
{
    all_present_count(list);
    sync_keeps_every_item(list, i);
    let front = list.take(i);
    assert forall|k: int| 0 <= k < front.len() implies (#[trigger] front[k]) is Some by {
        assert(front[k] == list[k]);
    }
    all_present_count(front);
}

/// A folder in a sync opens to its identifier and the text that the envelope
/// around its name holds.
pub proof fn folder_opens_to_its_name(
    f: SyncFolder,
    id: String,
    envelope: String,
    name: Seq<char>,
    enc: Seq<u8>,
    mac: Seq<u8>,
)
    requires
        f.id == Some(id),
        f.name == Some(envelope),
        opened_text(envelope@, enc, mac) == Ok::<Seq<u8>, crate::vault_core::error::Error>(
            encode_utf8(name),
        ),
    ensures
        opened_folder(f, enc, mac) == Some((id@, name)),
{
    vstd::utf8::encode_utf8_valid_utf8(name);
    vstd::utf8::encode_utf8_decode_utf8(name);
}

/// A sync keeps the name of every folder that opens, under its identifier; of
/// two with the same identifier the later one counts. What no folder opens to
/// is not kept.
pub proof fn sync_keeps_every_folder(
    list: Seq<SyncFolder>,
    enc: Seq<u8>,
    mac: Seq<u8>,
    i: int,
    id: Seq<char>,
    name: Seq<char>,
)
    ensures
        unique_keys(sync_folders(list, enc, mac)),
        0 <= i < list.len() && opened_folder(list[i], enc, mac) == Some((id, name)) && (forall|
            k: int,
        |
            i < k < list.len() ==> !(opened_folder(#[trigger] list[k], enc, mac) matches Some(x)
                && x.0 == id)) ==> lookup(sync_folders(list, enc, mac), id) == Some(name),
        (forall|k: int|
            0 <= k < list.len() ==> !(opened_folder(#[trigger] list[k], enc, mac) matches Some(x)
                && x.0 == id)) ==> lookup(sync_folders(list, enc, mac), id) is None,
    decreases list.len(),
{
    if list.len() > 0 {
        let front = list.drop_last();
        sync_keeps_every_folder(front, enc, mac, i, id, name);
        let before = sync_folders(front, enc, mac);
        assert(list[list.len() - 1] == list.last());
        if let Some((own, n)) = opened_folder(list.last(), enc, mac) {
            insert_then_lookup(before, own, n, id);
        }
        if 0 <= i && (forall|k: int|
            i < k < list.len() ==> !(opened_folder(#[trigger] list[k], enc, mac) matches Some(x)
                && x.0 == id)) {
            assert forall|k: int| i < k < front.len() implies !(opened_folder(
                #[trigger] front[k],
                enc,
                mac,
            ) matches Some(x) && x.0 == id) by {
                assert(front[k] == list[k]);
            }
            if 0 <= i < front.len() {
                assert(front[i] == list[i]);
                assert(!(opened_folder(list[list.len() - 1], enc, mac) matches Some(x) && x.0
                    == id));
            }
        }
        if (forall|k: int|
            0 <= k < list.len() ==> !(opened_folder(#[trigger] list[k], enc, mac) matches Some(x)
                && x.0 == id)) {
            assert forall|k: int| 0 <= k < front.len() implies !(opened_folder(
                #[trigger] front[k],
                enc,
                mac,
            ) matches Some(x) && x.0 == id) by {
                assert(front[k] == list[k]);
            }
            assert(!(opened_folder(list[list.len() - 1], enc, mac) matches Some(x) && x.0 == id));
        }
    } else {
        assert(key_index(sync_folders(list, enc, mac), id, 0) == 0);
    }
}

proof fn unwrapped_keys_are_held(
    list: Seq<(Seq<char>, Seq<char>)>,
    pkcs8: Seq<u8>,
    i: int,
    id: Seq<char>,
    keys: (Seq<u8>, Seq<u8>),
)
    ensures
        unique_keys(unwrapped_orgs(list, pkcs8)),
        0 <= i < list.len() && list[i].0 == id && org_key_opened(pkcs8, list[i].1) == Ok::<
            (Seq<u8>, Seq<u8>),
            crate::vault_core::error::Error,
        >(keys) && (forall|k: int|
            i < k < list.len() ==> (#[trigger] list[k]).0 != id) ==> lookup(
            unwrapped_orgs(list, pkcs8),
            id,
        ) == Some(keys),
        (forall|k: int| 0 <= k < list.len() ==> (#[trigger] list[k]).0 != id) ==> lookup(
            unwrapped_orgs(list, pkcs8),
            id,
        ) is None,
    decreases list.len(),
{
    if list.len() > 0 {
        let front = list.drop_last();
        unwrapped_keys_are_held(front, pkcs8, i, id, keys);
        let before = unwrapped_orgs(front, pkcs8);
        assert(list[list.len() - 1] == list.last());
        if let Ok(own) = org_key_opened(pkcs8, list.last().1) {
            insert_then_lookup(before, list.last().0, own, id);
        }
        if 0 <= i && (forall|k: int| i < k < list.len() ==> (#[trigger] list[k]).0 != id) {
            assert forall|k: int| i < k < front.len() implies (#[trigger] front[k]).0 != id by {
                assert(front[k] == list[k]);
            }
            if 0 <= i < front.len() {
                assert(front[i] == list[i]);
                assert(list[list.len() - 1].0 != id);
            }
        }
        if forall|k: int| 0 <= k < list.len() ==> (#[trigger] list[k]).0 != id {
            assert forall|k: int| 0 <= k < front.len() implies (#[trigger] front[k]).0 != id by {
                assert(front[k] == list[k]);
            }
            assert(list[list.len() - 1].0 != id);
        }
    } else {
        assert(key_index(unwrapped_orgs(list, pkcs8), id, 0) == 0);
    }
}

/// A sync holds the key of every organization that unwraps under the account's
/// key, under the organization's identifier; an account without a key that
/// opens has none.
pub proof fn sync_holds_every_organization_key(
    sync: SyncResponse,
    enc: Seq<u8>,
    mac: Seq<u8>,
    pkcs8: Seq<u8>,
    i: int,
    id: Seq<char>,
    keys: (Seq<u8>, Seq<u8>),
)
    ensures
        sync.private_key is None ==> sync_org_keys(sync, enc, mac).len() == 0,
        sync.private_key matches Some(p) ==> account_key_opened(p@, enc, mac) is Err
            ==> sync_org_keys(sync, enc, mac).len() == 0,
        sync.private_key matches Some(p) ==> account_key_opened(p@, enc, mac) == Ok::<
            Seq<u8>,
            crate::vault_core::error::Error,
        >(pkcs8) ==> {
            let orgs = keyed_organizations(sync.organizations@);
            &&& unique_keys(sync_org_keys(sync, enc, mac))
            &&& 0 <= i < orgs.len() && orgs[i].0 == id && org_key_opened(pkcs8, orgs[i].1) == Ok::<
                (Seq<u8>, Seq<u8>),
                crate::vault_core::error::Error,
            >(keys) && (forall|k: int|
                i < k < orgs.len() ==> (#[trigger] orgs[k]).0 != id) ==> lookup(
                sync_org_keys(sync, enc, mac),
                id,
            ) == Some(keys)
        },
{
    if sync.private_key is Some {
        unwrapped_keys_are_held(
            keyed_organizations(sync.organizations@),
            pkcs8,
            i,
            id,
            keys,
        );
    }
}

/// A password or a PIN gives an account's keys by the key derivation with the
/// costs of the account and the email as the server knows it for the salt, and
/// the expansion of what comes out.
pub proof fn secret_gives_the_accounts_keys(
    email: Seq<char>,
    secret: Seq<u8>,
    kdf: KdfParams,
    master: Seq<u8>,
)
    requires
        master_key(secret, encode_utf8(lowercase(crate::text::trim(email))), kdf) == Ok::<
            Seq<u8>,
            crate::vault_core::error::Error,
        >(master),
    ensures
        secret_keys(email, secret, kdf) == Ok::<
            (Seq<u8>, Seq<u8>),
            crate::vault_core::error::Error,
        >((hkdf_of(master, encode_utf8("enc"@)), hkdf_of(master, encode_utf8("mac"@)))),
{
}

/// The right secret recovers the user key that the envelope holds; one whose
/// keys give the envelope another tag is a wrong one.
pub proof fn right_secret_recovers_the_user_key(
    email: Seq<char>,
    secret: Seq<u8>,
    kdf: KdfParams,
    master: Seq<u8>,
    protected: Seq<char>,
    user_enc: Seq<u8>,
    user_mac: Seq<u8>,
)
    requires
        master_key(secret, encode_utf8(lowercase(crate::text::trim(email))), kdf) == Ok::<
            Seq<u8>,
            crate::vault_core::error::Error,
        >(master),
        user_enc.len() == 32,
        user_mac.len() == 32,
    ensures
        ({
            let opened = opened_text(
                protected,
                hkdf_of(master, encode_utf8("enc"@)),
                hkdf_of(master, encode_utf8("mac"@)),
            );
            &&& opened == Ok::<Seq<u8>, crate::vault_core::error::Error>(user_enc + user_mac)
                ==> recovered(Some(kdf), email, secret, protected) == Ok::<
                (Seq<u8>, Seq<u8>),
                KeyRecoverView,
            >((user_enc, user_mac))
            &&& opened == Err::<Seq<u8>, crate::vault_core::error::Error>(
                crate::vault_core::error::Error::MacMismatch,
            ) ==> recovered(Some(kdf), email, secret, protected) == Err::<
                (Seq<u8>, Seq<u8>),
                KeyRecoverView,
            >(KeyRecoverView::WrongSecret)
        }),
        recovered(None, email, secret, protected) is Err,
{
    let whole = user_enc + user_mac;
    assert(whole.take(32) =~= user_enc);
    assert(whole.skip(32) =~= user_mac);
}

/// The master password unlocks a cache: where it recovers the user key that is
/// the key, where it is wrong it is told to be, and a cache without a user key
/// cannot be unlocked.
pub proof fn master_password_unlocks_the_cache(
    c: VaultCacheView,
    email: Seq<char>,
    password: Seq<u8>,
    protected: Seq<char>,
    keys: (Seq<u8>, Seq<u8>),
)
    ensures
        c.protected_user_key == Some(protected) && recovered(c.kdf, email, password, protected)
            == Ok::<(Seq<u8>, Seq<u8>), KeyRecoverView>(keys) ==> cache_unlocked(
            c,
            email,
            password,
        ) == Ok::<(Seq<u8>, Seq<u8>), ErrorView>(keys),
        c.protected_user_key == Some(protected) && recovered(c.kdf, email, password, protected)
            == Err::<(Seq<u8>, Seq<u8>), KeyRecoverView>(KeyRecoverView::WrongSecret)
            ==> cache_unlocked(c, email, password) == Err::<(Seq<u8>, Seq<u8>), ErrorView>(
            ErrorView::BadPassword,
        ),
        c.protected_user_key is None ==> cache_unlocked(c, email, password) is Err,
{
}

/// A wrong PIN is told with how many are left, of five in all; the last one
/// takes the PIN away. Without a PIN there is none to try.
pub proof fn wrong_pin_is_counted(
    c: VaultCacheView,
    email: Seq<char>,
    pin: Seq<u8>,
    protected: Seq<char>,
)
    ensures
        c.pin_protected_user_key is None && c.pin_failures < 5 ==> pin_tried(c, email, pin).0
            == Err::<(Seq<u8>, Seq<u8>), ErrorView>(ErrorView::PinNotSet),
        c.pin_protected_user_key == Some(protected) && recovered(c.kdf, email, pin, protected)
            == Err::<(Seq<u8>, Seq<u8>), KeyRecoverView>(KeyRecoverView::WrongSecret)
            && c.pin_failures < 4 ==> pin_tried(c, email, pin) == (
            Err::<(Seq<u8>, Seq<u8>), ErrorView>(
                ErrorView::BadPin { attempts_remaining: (4 - c.pin_failures) as u32 },
            ),
            VaultCacheView { pin_failures: (c.pin_failures + 1) as u32, ..c },
        ),
        c.pin_protected_user_key == Some(protected) && recovered(c.kdf, email, pin, protected)
            == Err::<(Seq<u8>, Seq<u8>), KeyRecoverView>(KeyRecoverView::WrongSecret)
            && c.pin_failures == 4 ==> pin_tried(c, email, pin) == (
            Err::<(Seq<u8>, Seq<u8>), ErrorView>(ErrorView::PinLockedOut),
            VaultCacheView { pin_failures: 5, pin_protected_user_key: None, ..c },
        ),
        c.pin_failures >= 5 ==> pin_tried(c, email, pin).0 == Err::<
            (Seq<u8>, Seq<u8>),
            ErrorView,
        >(ErrorView::PinLockedOut),
{
}

/// Whether a PIN is set is told, and how many wrong ones of five are left.
pub proof fn pin_state_is_told(c: VaultCacheView)
    ensures
        pin_state(Some(c)).enabled == (c.pin_protected_user_key is Some),
        c.pin_failures <= 5 ==> pin_state(Some(c)).attempts_remaining == 5 - c.pin_failures,
        c.pin_failures > 5 ==> pin_state(Some(c)).attempts_remaining == 0,
{
}

/// A vault that is unlocked from the cache has the account's keys and
/// parameters, the items, the folders and the organization keys of the answer
/// in the cache, and no access to the server.
pub proof fn cached_vault_has_what_the_cache_holds(
    c: VaultCacheView,
    server: Seq<char>,
    email: Seq<char>,
    enc: Seq<u8>,
    mac: Seq<u8>,
    sync: SyncResponse,
    kdf: KdfParams,
)
    requires
        c.kdf == Some(kdf),
    ensures
        cached_vault(c, server, email, enc, mac, Ok(sync)) matches Ok(v) && {
            &&& v.server == server
            &&& v.email == lowercase(crate::text::trim(email))
            &&& v.user_enc == enc
            &&& v.user_mac == mac
            &&& v.kdf == kdf
            &&& v.ciphers == sync_items(sync.ciphers@)
            &&& v.folders == sync_folders(sync.folders@, enc, mac)
            &&& v.org_keys == sync_org_keys(sync, enc, mac)
            &&& v.client is None
            &&& c.protected_user_key matches Some(p) ==> v.protected_user_key == p
            &&& v.device_id == c.device_id
            &&& v.last_sync == c.last_sync
        },
{
}

/// The refresh token in a cache is the text that its envelope holds, and none
/// where it does not open.
pub proof fn cached_token_is_what_its_envelope_holds(
    s: Seq<char>,
    t: Seq<char>,
    enc: Seq<u8>,
    mac: Seq<u8>,
)
    ensures
        cached_token(None, enc, mac) is None,
        opened_text(s, enc, mac) == Ok::<Seq<u8>, crate::vault_core::error::Error>(encode_utf8(t))
            ==> cached_token(Some(s), enc, mac) == Some(t),
        opened_text(s, enc, mac) is Err ==> cached_token(Some(s), enc, mac) is None,
{
    vstd::utf8::encode_utf8_valid_utf8(t);
    vstd::utf8::encode_utf8_decode_utf8(t);
}

/// A login that the server refuses for its credentials is a wrong password, a
/// challenge asks for a second factor, and everything else is the network.
pub proof fn refusals_are_told_apart(status: u16, message: Seq<char>, providers: Seq<u32>)
    ensures
        status == 400 && has_part(message, "invalid_grant"@) ==> api_failure(
            crate::vault_api::error::ErrorView::ServerStatus { status, message },
        ) == ErrorView::BadPassword,
        status == 400 && has_part(lowercase(message), "username"@) ==> api_failure(
            crate::vault_api::error::ErrorView::ServerStatus { status, message },
        ) == ErrorView::BadPassword,
        status != 400 || (!has_part(message, "invalid_grant"@) && !has_part(
            lowercase(message),
            "username"@,
        )) ==> api_failure(
            crate::vault_api::error::ErrorView::ServerStatus { status, message },
        ) == ErrorView::Network("HTTP "@ + decimal(status as nat) + ": "@ + message),
        api_failure(crate::vault_api::error::ErrorView::TwoFactorRequired(providers))
            == ErrorView::TwoFactorRequired,
{
}

/// The part of an origin that names the host is what is between the scheme and
/// the slashes at the end.
pub proof fn host_is_between_scheme_and_slashes(host: Seq<char>, n: nat)
    requires
        host.len() > 0 ==> host.last() != '/',
        !has_prefix(host, "https://"@),
        !has_prefix(host, "http://"@),
    ensures
        origin_host("https://"@ + host + Seq::new(n, |i: int| '/')) == host,
        origin_host("http://"@ + host + Seq::new(n, |i: int| '/')) == host,
{
    let z = Seq::new(n, |i: int| '/');
    reveal_strlit("https://");
    reveal_strlit("http://");
    let a = "https://"@ + host + z;
    let b = "http://"@ + host + z;
    assert(a.take(8) =~= "https://"@);
    assert(a.skip(8) =~= host + z);
    assert(b.take(7) =~= "http://"@);
    assert(b.skip(7) =~= host + z);
    assert(b.len() >= 8 ==> b.take(8)[4] == ':' && "https://"@[4] == 's');
    crate::text::only_the_trailing_ones_go(host, n, '/');
}

} // verus!
