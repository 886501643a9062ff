//! The encrypted cache of a synced vault.
//!
//! The payload is an envelope around the last answer of the server; the rest
//! is plain, so that the state of the cache can be told without the master
//! key.
use vstd::prelude::*;
use vstd::string::*;
use crate::crypto::{cbc_decrypted, hmac_sha256_of};
use crate::text::{lowercase, to_lower};
use crate::vault_core::enc_string::{
    draw_iv, envelope_opens_to_its_plaintext, open_text, opened_text, other_key_is_refused, parsed,
    seal_text, sealed, serialized,
    EncStringView,
};
use crate::vault_core::error::{error_text, prefixed};
use crate::vault_core::kdf::KdfParams;

verus! {

/// Version of the layout of a cache.
pub const SCHEMA_VERSION: u32 = 2;

/// What can go wrong with a cache.
#[derive(Clone, Debug)]
pub enum Error {
    /// Reading or writing failed.
    Io(String),
    /// The file is not the expected JSON.
    Json(String),
    /// There is no cache at the path.
    NotFound(String),
    /// The vault was never synced.
    NoPayload,
    /// The payload does not open.
    Crypto(crate::vault_core::error::Error),
    /// The path is unusable.
    Path(&'static str),
    /// The current time cannot be written down.
    Time(String),
}

/// The text that describes an error.
pub open spec fn store_error_text(e: Error) -> Seq<char> {
    match e {
        Error::Io(s) => "io: "@ + s@,
        Error::Json(s) => "json: "@ + s@,
        Error::NotFound(s) => "cache not found at "@ + s@,
        Error::NoPayload => "no payload — never synced"@,
        Error::Crypto(c) => "crypto: "@ + error_text(c),
        Error::Path(s) => "path: "@ + s@,
        Error::Time(s) => "time: "@ + s@,
    }
}

impl Error {
    /// The text that describes the error.
    pub fn message(&self) -> (out: String)
        ensures
            out@ == store_error_text(*self),
    {
        match self {
            Error::Io(s) => prefixed("io: ", s.as_str()),
            Error::Json(s) => prefixed("json: ", s.as_str()),
            Error::NotFound(s) => prefixed("cache not found at ", s.as_str()),
            Error::NoPayload => "no payload — never synced".to_owned(),
            Error::Crypto(c) => prefixed("crypto: ", c.message().as_str()),
            Error::Path(s) => prefixed("path: ", s),
            Error::Time(s) => prefixed("time: ", s.as_str()),
        }
    }
}

/// A personal API key as it is stored for an account.
#[derive(Clone, Debug)]
pub struct ApiKeyCreds {
    /// Client identifier.
    pub client_id: String,
    /// Client secret.
    pub client_secret: String,
}

/// The cache of one account.
#[derive(Clone, Debug)]
pub struct VaultCache {
    /// Version of the layout.
    pub schema_version: u32,
    /// Stable identifier of this device.
    pub device_id: String,
    /// Server origin.
    pub server: String,
    /// Account email, in lower case.
    pub email: String,
    /// Time of the last sync.
    pub last_sync: Option<String>,
    /// Envelope around the last answer of the server, under the user key.
    pub payload: Option<String>,
    /// Envelope around the user key, under the stretched master key.
    pub protected_user_key: Option<String>,
    /// Key-derivation parameters of the account.
    pub kdf: Option<KdfParams>,
    /// Envelope around the user key, under a key derived from the PIN.
    pub pin_protected_user_key: Option<String>,
    /// Wrong PINs in a row.
    pub pin_failures: u32,
    /// Envelope around the refresh token, under the user key.
    pub refresh_token: Option<String>,
}

/// What a [`VaultCache`] holds.
pub struct VaultCacheView {
    /// Version of the layout.
    pub schema_version: u32,
    /// Stable identifier of this device.
    pub device_id: Seq<char>,
    /// Server origin.
    pub server: Seq<char>,
    /// Account email.
    pub email: Seq<char>,
    /// Time of the last sync.
    pub last_sync: Option<Seq<char>>,
    /// Envelope around the last answer of the server.
    pub payload: Option<Seq<char>>,
    /// Envelope around the user key, under the stretched master key.
    pub protected_user_key: Option<Seq<char>>,
    /// Key-derivation parameters of the account.
    pub kdf: Option<KdfParams>,
    /// Envelope around the user key, under a key derived from the PIN.
    pub pin_protected_user_key: Option<Seq<char>>,
    /// Wrong PINs in a row.
    pub pin_failures: u32,
    /// Envelope around the refresh token.
    pub refresh_token: Option<Seq<char>>,
}

impl DeepView for VaultCache {
    type V = VaultCacheView;

    open spec fn deep_view(&self) -> VaultCacheView {
        VaultCacheView {
            schema_version: self.schema_version,
            device_id: self.device_id@,
            server: self.server@,
            email: self.email@,
            last_sync: self.last_sync.deep_view(),
            payload: self.payload.deep_view(),
            protected_user_key: self.protected_user_key.deep_view(),
            kdf: self.kdf,
            pin_protected_user_key: self.pin_protected_user_key.deep_view(),
            pin_failures: self.pin_failures,
            refresh_token: self.refresh_token.deep_view(),
        }
    }
}

/// What the payload of a cache holds.
pub open spec fn payload_opened(payload: Option<Seq<char>>, enc: Seq<u8>, mac: Seq<u8>) -> Result<
    Seq<u8>,
    Error,
> {
    match payload {
        None => Err(Error::NoPayload),
        Some(s) => match opened_text(s, enc, mac) {
            Ok(p) => Ok(p),
            Err(e) => Err(Error::Crypto(e)),
        },
    }
}

/// A cache has no payload to open exactly where it holds none.
pub proof fn payload_is_missing_where_there_is_none(
    payload: Option<Seq<char>>,
    enc: Seq<u8>,
    mac: Seq<u8>,
)
    ensures
        payload_opened(payload, enc, mac) == Err::<Seq<u8>, Error>(Error::NoPayload) <==> payload
            is None,
{
}

/// A payload that opens under one authentication key is refused under another
/// that gives its contents another tag.
pub proof fn payload_is_refused_under_another_key(
    s: Seq<char>,
    e: EncStringView,
    enc: Seq<u8>,
    mac: Seq<u8>,
    other_enc: Seq<u8>,
    other_mac: Seq<u8>,
)
    requires
        parsed(s) == Ok::<EncStringView, crate::vault_core::error::Error>(e),
        payload_opened(Some(s), enc, mac) is Ok,
        hmac_sha256_of(other_mac, e.iv + e.ct) != hmac_sha256_of(mac, e.iv + e.ct),
    ensures
        payload_opened(Some(s), other_enc, other_mac) == Err::<Seq<u8>, Error>(
            Error::Crypto(crate::vault_core::error::Error::MacMismatch),
        ),
{
    other_key_is_refused(s, e, enc, mac, other_enc, other_mac);
}

/// `time::OffsetDateTime::now_utc` in the format `Rfc3339`: the current time,
/// or the text of the error where it cannot be written so. Nothing is said of
/// the time.
#[verifier::external_body]
pub(crate) fn rfc3339_now() -> (stamp: Result<String, String>) {
    time::OffsetDateTime::now_utc()
        .format(&time::format_description::well_known::Rfc3339)
        .map_err(|e| e.to_string())
}

impl VaultCache {
    /// An empty cache for an account.
    pub fn new(device_id: String, server: String, email: &str) -> (r: VaultCache)
        ensures
            r.deep_view() == (VaultCacheView {
                schema_version: SCHEMA_VERSION,
                device_id: device_id@,
                server: server@,
                email: lowercase(email@),
                last_sync: None,
                payload: None,
                protected_user_key: None,
                kdf: None,
                pin_protected_user_key: None,
                pin_failures: 0,
                refresh_token: None,
            }),
    {
        VaultCache {
            schema_version: SCHEMA_VERSION,
            device_id,
            server,
            email: to_lower(email),
            last_sync: None,
            payload: None,
            protected_user_key: None,
            kdf: None,
            pin_protected_user_key: None,
            pin_failures: 0,
            refresh_token: None,
        }
    }

    /// Encrypts the server's answer into the payload, under an initialization
    /// vector where there is one, and notes the time where it can be told.
    ///
    /// Loading the payload under the same keys gives the answer back. The
    /// cache stays as it was where there is no initialization vector.
    pub fn set_payload_with(
        &mut self,
        enc_key: &[u8; 32],
        mac_key: &[u8; 32],
        sync_bytes: &[u8],
        iv: Option<[u8; 16]>,
        stamp: Result<String, String>,
    ) -> (r: Result<(), Error>)
        ensures
            match iv {
                None => r == Err::<(), Error>(Error::Crypto(crate::vault_core::error::Error::Random))
                    && *final(self) == *old(self),
                Some(v) => {
                    let envelope = serialized(sealed(enc_key@, mac_key@, v@, sync_bytes@));
                    &&& payload_opened(Some(envelope), enc_key@, mac_key@) == Ok::<
                        Seq<u8>,
                        Error,
                    >(sync_bytes@)
                    &&& match stamp {
                        Ok(t) => r is Ok && final(self).deep_view() == (VaultCacheView {
                            payload: Some(envelope),
                            last_sync: Some(t@),
                            ..old(self).deep_view()
                        }),
                        Err(m) => r == Err::<(), Error>(Error::Time(m)) && final(self).deep_view()
                            == (VaultCacheView {
                            payload: Some(envelope),
                            ..old(self).deep_view()
                        }),
                    }
                },
            },
    {
        let envelope: String = match iv {
            None => return Err(Error::Crypto(crate::vault_core::error::Error::Random)),
            Some(v) => seal_text(sync_bytes, enc_key, mac_key, v),
        };
        self.payload = Some(envelope);
        match stamp {
            Ok(t) => {
                self.last_sync = Some(t);
                Ok(())
            },
            Err(m) => Err(Error::Time(m)),
        }
    }

    /// Encrypts the server's answer into the payload, under a fresh
    /// initialization vector, and notes the time.
    ///
    /// Loading the payload under the same keys gives the answer back. The
    /// cache stays as it was where there is no randomness for the envelope.
    pub fn set_payload(&mut self, enc_key: &[u8; 32], mac_key: &[u8; 32], sync_bytes: &[u8]) -> (r:
        Result<(), Error>)
        ensures
            r is Ok ==> payload_opened(final(self).payload.deep_view(), enc_key@, mac_key@) == Ok::<
                Seq<u8>,
                Error,
            >(sync_bytes@) && final(self).last_sync is Some && final(self).deep_view() == (
            VaultCacheView {
                payload: final(self).payload.deep_view(),
                last_sync: final(self).last_sync.deep_view(),
                ..old(self).deep_view()
            }),
            r matches Err(e) ==> match e {
                Error::Time(_) => payload_opened(
                    final(self).payload.deep_view(),
                    enc_key@,
                    mac_key@,
                ) == Ok::<Seq<u8>, Error>(sync_bytes@) && final(self).deep_view() == (
                VaultCacheView {
                    payload: final(self).payload.deep_view(),
                    ..old(self).deep_view()
                }),
                _ => e == Error::Crypto(crate::vault_core::error::Error::Random) && *final(self)
                    == *old(self),
            },
    {
        self.set_payload_with(enc_key, mac_key, sync_bytes, draw_iv(), rfc3339_now())
    }

    /// Opens the payload.
    pub fn load_payload(&self, enc_key: &[u8; 32], mac_key: &[u8; 32]) -> (r: Result<
        Vec<u8>,
        Error,
    >)
        ensures
            r matches Ok(p) ==> payload_opened(self.payload.deep_view(), enc_key@, mac_key@)
                == Ok::<Seq<u8>, Error>(p@),
            r matches Err(e) ==> payload_opened(self.payload.deep_view(), enc_key@, mac_key@)
                == Err::<Seq<u8>, Error>(e),
    {
        match &self.payload {
            None => Err(Error::NoPayload),
            Some(s) => match open_text(s.as_str(), enc_key, mac_key) {
                Ok(p) => Ok(p),
                Err(e) => Err(Error::Crypto(e)),
            },
        }
    }
}

/// A payload opens to the plaintext of its envelope exactly where the tag is
/// that of the contents under the authentication key.
pub proof fn payload_opens_to_its_plaintext(
    s: Seq<char>,
    e: EncStringView,
    enc: Seq<u8>,
    mac: Seq<u8>,
    plain: Seq<u8>,
)
    requires
        parsed(s) == Ok::<EncStringView, crate::vault_core::error::Error>(e),
    ensures
        payload_opened(Some(s), enc, mac) == Ok::<Seq<u8>, Error>(plain) <==> (e.mac
            == hmac_sha256_of(mac, e.iv + e.ct) && cbc_decrypted(enc, e.iv, e.ct) == Some(plain)),
        e.mac != hmac_sha256_of(mac, e.iv + e.ct) ==> payload_opened(Some(s), enc, mac) == Err::<
            Seq<u8>,
            Error,
        >(Error::Crypto(crate::vault_core::error::Error::MacMismatch)),
{
    envelope_opens_to_its_plaintext(e, enc, mac, plain);
}

/// An error tells what it is about, and one that wraps another tells the other
/// too.
pub proof fn error_tells_what_it_is_about(
    s: String,
    fixed: &'static str,
    e: crate::vault_core::error::Error,
)
    ensures
        store_error_text(Error::Io(s)) == "io: "@ + s@,
        store_error_text(Error::Json(s)) == "json: "@ + s@,
        store_error_text(Error::NotFound(s)) == "cache not found at "@ + s@,
        store_error_text(Error::Crypto(e)) == "crypto: "@ + error_text(e),
        store_error_text(Error::Path(fixed)) == "path: "@ + fixed@,
        store_error_text(Error::Time(s)) == "time: "@ + s@,
{
}

} // verus!
