//! Going online: the steps of a login at the server, and of getting a session
//! from the cache access to the server again.
use vstd::prelude::*;
use vstd::string::*;
use crate::text::copy_text;
use crate::text_map::TextMap;
use crate::vault_agent::sealed::SealedKey;
use crate::vault_agent::unlock::{
    api_err, api_failure, build_org_keys, cache_unlocked, cached_vault, ciphers_and_folders,
    crypto_err, crypto_failure, derive_keys_for, keys_for, normal_email, pin_state, pin_tried,
    sync_folders, sync_items, sync_org_keys, UserKey,
};
use crate::vault_agent::vault::{Vault, VaultView};
use crate::vault_api::client::{
    account_email, api_key_login, fresh_client, password_login, prelogin_request, vault_request,
    BitwardenClient, BodyView, ClientView, HttpRequest, HttpRequestView, Method, TwoFactor,
    TwoFactorView,
};
use crate::vault_api::device::{device_for, draw_id, id_bytes, session_device_with, uuid_of};
use crate::vault_api::identity::{prelogin_params, PreloginResponse, TokenResponse};
use crate::vault_api::sync::SyncResponse;
use crate::vault_api::urls::{inferred_urls, BaseUrls, BaseUrlsView};
use crate::vault_core::cipher::{decrypt_user_key, unwrapped_key};
use crate::vault_core::enc_string::{draw_iv, opened_text, seal_text, sealed, serialized};
use crate::vault_core::error::{error_text, prefixed};
use crate::vault_core::kdf::KdfParams;
use crate::vault_ipc::proto::{ApiKeyCreds, Error, ErrorView, TwoFactorCode};
use crate::vault_store::{payload_opened, rfc3339_now, VaultCache, VaultCacheView};

verus! {

/// The name under which the agent registers as a device.
pub const DEVICE_NAME: &'static str = "vault-agent";

/// How a login authenticates.
pub enum Grant {
    /// With an API key, which is to be stored where it came with the request.
    ApiKey {
        /// The key.
        creds: ApiKeyCreds,
        /// Whether it is to be stored.
        store: bool,
    },
    /// With the master password.
    Password,
}

/// What a [`Grant`] holds.
pub enum GrantView {
    /// With an API key.
    ApiKey {
        /// Client identifier.
        client_id: Seq<char>,
        /// Client secret.
        client_secret: Seq<u8>,
        /// Whether it is to be stored.
        store: bool,
    },
    /// With the master password.
    Password,
}

impl DeepView for Grant {
    type V = GrantView;

    open spec fn deep_view(&self) -> GrantView {
        match *self {
            Grant::ApiKey { creds, store } => GrantView::ApiKey {
                client_id: creds.client_id@,
                client_secret: creds.client_secret@,
                store,
            },
            Grant::Password => GrantView::Password,
        }
    }
}

/// How a login authenticates: with the API key of the request, else with the
/// stored one, else with the master password.
pub open spec fn grant_for(
    given: Option<ApiKeyCreds>,
    stored: Option<crate::vault_store::ApiKeyCreds>,
) -> GrantView {
    match (given, stored) {
        (Some(k), _) => GrantView::ApiKey {
            client_id: k.client_id@,
            client_secret: k.client_secret@,
            store: true,
        },
        (None, Some(k)) => GrantView::ApiKey {
            client_id: k.client_id@,
            client_secret: vstd::utf8::encode_utf8(k.client_secret@),
            store: false,
        },
        (None, None) => GrantView::Password,
    }
}

/// How a login authenticates.
pub fn choose_grant(
    given: Option<ApiKeyCreds>,
    stored: Option<crate::vault_store::ApiKeyCreds>,
) -> (r: Grant)
    ensures
        r.deep_view() == grant_for(given, stored),
{
    match given {
        Some(creds) => Grant::ApiKey { creds, store: true },
        None => match stored {
            Some(k) => {
                let mut client_secret: Vec<u8> = Vec::new();
                client_secret.extend_from_slice(k.client_secret.as_str().as_bytes());
                assert(client_secret@ =~= vstd::utf8::encode_utf8(k.client_secret@));
                Grant::ApiKey {
                    creds: ApiKeyCreds { client_id: k.client_id, client_secret },
                    store: false,
                }
            },
            None => Grant::Password,
        },
    }
}

/// A code of an authenticator as an answer to a challenge.
pub open spec fn authenticator(code: Option<TwoFactorCode>) -> Option<TwoFactorView> {
    match code {
        None => None,
        Some(c) => Some(TwoFactorView { provider: 0, token: c.token@, remember: false }),
    }
}

/// A code of an authenticator as an answer to a challenge.
pub fn authenticator_answer(code: Option<TwoFactorCode>) -> (r: Option<TwoFactor>)
    ensures
        r.deep_view() == authenticator(code),
{
    match code {
        None => None,
        Some(c) => Some(TwoFactor { provider: 0, token: c.token, remember: false }),
    }
}

/// A login that has been started.
pub struct UnlockStart {
    /// Server origin.
    pub server: String,
    /// Account email, in lower case.
    pub email: String,
    /// Master password.
    pub password: Vec<u8>,
    /// Client of the server.
    pub client: BitwardenClient,
    /// How the login authenticates.
    pub grant: Grant,
    /// Answer to a two-factor challenge.
    pub two_factor: Option<TwoFactor>,
}

/// A login whose key-derivation parameters are known.
pub struct UnlockKeyed {
    /// What the login was started with.
    pub start: UnlockStart,
    /// Key-derivation parameters of the account.
    pub params: KdfParams,
    /// Keys that open the user key.
    pub keys: UserKey,
}

/// A login whose user key is open.
pub struct UnlockOpened {
    /// What the login was started with.
    pub start: UnlockStart,
    /// Key-derivation parameters of the account.
    pub params: KdfParams,
    /// The user key.
    pub user: UserKey,
    /// Envelope around the user key.
    pub protected_user_key: String,
}

/// `r` is the request `v`, or the error that `v` stands for.
pub open spec fn request_or_failure(
    r: Result<HttpRequest, Error>,
    v: Result<HttpRequestView, crate::vault_api::error::ErrorView>,
) -> bool {
    match (r, v) {
        (Ok(q), Ok(w)) => q.deep_view() == w,
        (Err(e), Err(w)) => e.deep_view() == api_failure(w),
        _ => false,
    }
}

fn as_ipc(r: crate::vault_api::error::Result<HttpRequest>) -> (out: Result<HttpRequest, Error>)
    ensures
        match (r, out) {
            (Ok(q), Ok(w)) => q == w,
            (Err(e), Err(w)) => w.deep_view() == api_failure(e.deep_view()),
            _ => false,
        },
{
    match r {
        Ok(q) => Ok(q),
        Err(e) => Err(api_err(e)),
    }
}

/// `u` is a login to a server that has just been started on a device.
pub open spec fn started(
    u: UnlockStart,
    urls: BaseUrlsView,
    device: Seq<char>,
    server: Seq<char>,
    email: Seq<char>,
    password: Vec<u8>,
    grant: Grant,
    two_factor: Option<TwoFactorCode>,
) -> bool {
    &&& u.server@ == server
    &&& u.email@ == account_email(email)
    &&& u.password == password
    &&& u.grant == grant
    &&& u.two_factor.deep_view() == authenticator(two_factor)
    &&& u.client@ == fresh_client(urls, device, DEVICE_NAME@)
}

/// Starts a login, on the device that `device_id` denotes or on one made of
/// drawn bytes. Fails where the server's address is unusable, and where there
/// is no identifier of the device.
pub fn begin_unlock_with(
    server: &str,
    email: &str,
    password: Vec<u8>,
    device_id: &Option<String>,
    grant: Grant,
    two_factor: Option<TwoFactorCode>,
    drawn: Option<[u8; 16]>,
) -> (r: Result<UnlockStart, Error>)
    ensures
        match (inferred_urls(server@), device_for(device_id.deep_view(), id_bytes(drawn))) {
            (Err(m), _) => r matches Err(e) && e.deep_view() == ErrorView::Internal(
                "invalid base URL: "@ + m@,
            ),
            (Ok(_), None) => r matches Err(e) && e.deep_view() == crypto_failure(
                crate::vault_core::error::Error::Random,
            ),
            (Ok(urls), Some(device)) => r matches Ok(u) && started(
                u,
                urls,
                device,
                server@,
                email@,
                password,
                grant,
                two_factor,
            ) && uuid_of(device) == Some(device),
        },
{
    let urls: BaseUrls = match BaseUrls::infer_from(server) {
        Ok(u) => u,
        Err(e) => return Err(Error::Internal(e.message())),
    };
    let device: String = match session_device_with(device_id, drawn) {
        Some(d) => d,
        None => return Err(crypto_err(crate::vault_core::error::Error::Random)),
    };
    Ok(
        UnlockStart {
            server: server.to_owned(),
            email: normal_email(email),
            password,
            client: BitwardenClient::new(urls, device, DEVICE_NAME),
            grant,
            two_factor: authenticator_answer(two_factor),
        },
    )
}

/// Starts a login, on the device that `device_id` denotes or on a fresh one.
/// Fails where the server's address is unusable, and where a fresh identifier
/// is needed and the operating system has no randomness to give.
pub fn begin_unlock(
    server: &str,
    email: &str,
    password: Vec<u8>,
    device_id: &Option<String>,
    grant: Grant,
    two_factor: Option<TwoFactorCode>,
) -> (r: Result<UnlockStart, Error>)
    ensures
        inferred_urls(server@) matches Err(m) ==> (r matches Err(e) && e.deep_view()
            == ErrorView::Internal("invalid base URL: "@ + m@)),
        inferred_urls(server@) matches Ok(urls) ==> exists|drawn: Option<Seq<u8>>|
            match #[trigger] device_for(device_id.deep_view(), drawn) {
                None => r matches Err(e) && e.deep_view() == crypto_failure(
                    crate::vault_core::error::Error::Random,
                ),
                Some(device) => r matches Ok(u) && started(
                    u,
                    urls,
                    device,
                    server@,
                    email@,
                    password,
                    grant,
                    two_factor,
                ) && uuid_of(device) == Some(device),
            },
{
    let drawn: Option<[u8; 16]> = draw_id();
    let ghost device = device_for(device_id.deep_view(), id_bytes(drawn));
    begin_unlock_with(server, email, password, device_id, grant, two_factor, drawn)
}

/// The request of a login, by the way it authenticates.
pub open spec fn grant_request(
    c: ClientView,
    grant: GrantView,
    email: Seq<char>,
    password: Seq<u8>,
    params: KdfParams,
    two_factor: Option<TwoFactorView>,
) -> Result<HttpRequestView, crate::vault_api::error::ErrorView> {
    match grant {
        GrantView::ApiKey { client_id, client_secret, .. } => api_key_login(
            c,
            client_id,
            client_secret,
        ),
        GrantView::Password => password_login(c, email, password, params, two_factor),
    }
}

impl UnlockStart {
    /// The request for the account's key-derivation parameters.
    pub fn prelogin(&self) -> (r: Result<HttpRequest, Error>)
        ensures
            request_or_failure(r, prelogin_request(self.client@, self.email@)),
    {
        as_ipc(self.client.prelogin(self.email.as_str()))
    }

    /// Takes the key-derivation parameters and derives the keys that open the
    /// user key.
    pub fn after_prelogin(
        self,
        answer: Result<PreloginResponse, crate::vault_api::error::Error>,
    ) -> (r: Result<UnlockKeyed, Error>)
        ensures
            match answer {
                Err(e) => r matches Err(x) && x.deep_view() == api_failure(e.deep_view()),
                Ok(p) => match prelogin_params(p) {
                    Err(e) => r matches Err(x) && x.deep_view() == crypto_failure(e),
                    Ok(params) => match keys_for(self.email@, self.password@, params) {
                        Err(e) => r matches Err(x) && x.deep_view() == crypto_failure(e),
                        Ok(keys) => r matches Ok(k) && k.start == self && k.params == params && (
                            k.keys.0@,
                            k.keys.1@,
                        ) == keys,
                    },
                },
            },
    {
        let prelogin: PreloginResponse = match answer {
            Ok(p) => p,
            Err(e) => return Err(api_err(e)),
        };
        let params: KdfParams = match prelogin.into_kdf_params() {
            Ok(p) => p,
            Err(e) => return Err(crypto_err(e)),
        };
        match derive_keys_for(self.email.as_str(), self.password.as_slice(), params) {
            Ok(keys) => Ok(UnlockKeyed { start: self, params, keys }),
            Err(e) => Err(crypto_err(e)),
        }
    }
}

impl UnlockKeyed {
    /// The request of the login.
    pub fn login(&self) -> (r: Result<HttpRequest, Error>)
        ensures
            request_or_failure(
                r,
                grant_request(
                    self.start.client@,
                    self.start.grant.deep_view(),
                    self.start.email@,
                    self.start.password@,
                    self.params,
                    self.start.two_factor.deep_view(),
                ),
            ),
    {
        match &self.start.grant {
            Grant::ApiKey { creds, .. } => as_ipc(
                self.start.client.login_api_key(creds.client_id.as_str(), &creds.client_secret),
            ),
            Grant::Password => as_ipc(
                self.start.client.login_password(
                    self.start.email.as_str(),
                    self.start.password.as_slice(),
                    self.params,
                    &self.start.two_factor,
                ),
            ),
        }
    }

    /// Takes the tokens of the login and opens the user key that came with
    /// them.
    pub fn after_login(
        self,
        answer: Result<TokenResponse, crate::vault_api::error::Error>,
    ) -> (r: Result<UnlockOpened, Error>)
        ensures
            match answer {
                Err(e) => r matches Err(x) && x.deep_view() == api_failure(e.deep_view()),
                Ok(t) => match t.key {
                    None => r matches Err(x) && x.deep_view() == ErrorView::Internal(
                        "server omitted Key in token response"@,
                    ),
                    Some(key) => match unwrapped_key(key@, self.keys.0@, self.keys.1@) {
                        Err(e) => r matches Err(x) && x.deep_view() == crypto_failure(e),
                        Ok(user) => r matches Ok(o) && o.start == self.start && o.params
                            == self.params && (o.user.0@, o.user.1@) == user
                            && o.protected_user_key@ == key@,
                    },
                },
            },
    {
        let token: TokenResponse = match answer {
            Ok(t) => t,
            Err(e) => return Err(api_err(e)),
        };
        let key: String = match token.key {
            Some(k) => k,
            None => return Err(
                Error::Internal("server omitted Key in token response".to_owned()),
            ),
        };
        match decrypt_user_key(key.as_str(), &self.keys.0, &self.keys.1) {
            Ok(user) => Ok(
                UnlockOpened {
                    start: self.start,
                    params: self.params,
                    user,
                    protected_user_key: key,
                },
            ),
            Err(e) => Err(crypto_err(e)),
        }
    }
}

/// The vault that a login ends with.
pub open spec fn online_vault(o: UnlockOpened, sync: SyncResponse, stamp: Option<Seq<char>>)
    -> VaultView {
    VaultView {
        server: o.start.server@,
        email: o.start.email@,
        user_enc: o.user.0@,
        user_mac: o.user.1@,
        ciphers: sync_items(sync.ciphers@),
        folders: sync_folders(sync.folders@, o.user.0@, o.user.1@),
        org_keys: sync_org_keys(sync, o.user.0@, o.user.1@),
        client: Some(o.start.client@),
        protected_user_key: o.protected_user_key@,
        kdf: o.params,
        refresh_token: o.start.client@.refresh_token,
        device_id: o.start.client@.device_id,
        last_sync: stamp,
    }
}

impl UnlockOpened {
    /// The request for the vault.
    pub fn sync(&self) -> (r: Result<HttpRequest, Error>)
        ensures
            request_or_failure(
                r,
                vault_request(
                    self.start.client@,
                    Method::Get,
                    "sync"@,
                    "could not build sync URL",
                    BodyView::Empty,
                ),
            ),
    {
        as_ipc(self.start.client.sync())
    }

    /// Takes the server's answer, and the time, and ends the login.
    pub fn after_sync(
        self,
        answer: Result<SyncResponse, crate::vault_api::error::Error>,
        stamp: Option<String>,
    ) -> (r: Result<Vault, Error>)
        ensures
            match answer {
                Err(e) => r matches Err(x) && x.deep_view() == api_failure(e.deep_view()),
                Ok(sync) => r matches Ok(v) && v.deep_view() == online_vault(
                    self,
                    sync,
                    stamp.deep_view(),
                ),
            },
    {
        let sync: SyncResponse = match answer {
            Ok(s) => s,
            Err(e) => return Err(api_err(e)),
        };
        let (ciphers, folders) = ciphers_and_folders(&sync, &self.user.0, &self.user.1);
        let org_keys: TextMap<UserKey> = build_org_keys(&sync, &self.user.0, &self.user.1);
        let refresh_token: Option<String> = self.start.client.refresh_token();
        let device_id: String = self.start.client.device_id().to_owned();
        Ok(
            Vault {
                server: self.start.server,
                email: self.start.email,
                user_enc: SealedKey::new(self.user.0),
                user_mac: SealedKey::new(self.user.1),
                ciphers,
                folders,
                org_keys,
                client: Some(self.start.client),
                protected_user_key: self.protected_user_key,
                kdf: self.params,
                refresh_token,
                device_id,
                last_sync: stamp,
            },
        )
    }
}

/// What follows from a login's end.
pub enum UnlockOutcome {
    /// The vault is open.
    Done(Vault),
    /// The server cannot be reached, so the cache is to be tried.
    TryCache(String),
    /// The login failed.
    Failed(Error),
}

/// What follows from a login's end: only where the network failed is the cache
/// tried.
pub fn after_online(online: Result<Vault, Error>) -> (r: UnlockOutcome)
    ensures
        r == (match online {
            Ok(v) => UnlockOutcome::Done(v),
            Err(Error::Network(m)) => UnlockOutcome::TryCache(m),
            Err(e) => UnlockOutcome::Failed(e),
        }),
{
    match online {
        Ok(v) => UnlockOutcome::Done(v),
        Err(Error::Network(m)) => UnlockOutcome::TryCache(m),
        Err(e) => UnlockOutcome::Failed(e),
    }
}

/// How a session unlocks: by its login, or where the network failed by the
/// cache, if there is one. `cached` is what the cache gave.
pub fn perform_unlock(
    online: Result<Vault, Error>,
    cached: Option<Result<Vault, Error>>,
) -> (r: Result<Vault, Error>)
    ensures
        online is Ok ==> r == online,
        online matches Err(e) ==> !(e is Network) ==> r == online,
        online matches Err(e) ==> e is Network ==> r == (match cached {
            Some(c) => c,
            None => online,
        }),
{
    match after_online(online) {
        UnlockOutcome::Done(v) => Ok(v),
        UnlockOutcome::Failed(e) => Err(e),
        UnlockOutcome::TryCache(m) => match cached {
            Some(c) => c,
            None => Err(Error::Network(m)),
        },
    }
}

/// The next thing to do to get a session access to the server.
pub enum OnlineStep {
    /// It has access.
    Ready,
    /// Refresh the tokens of this client.
    Refresh(BitwardenClient),
    /// Log this client in with the stored API key.
    ApiKey(BitwardenClient),
    /// There is no way.
    Offline,
}

/// What an [`OnlineStep`] holds.
pub enum OnlineStepView {
    /// It has access.
    Ready,
    /// Refresh the tokens of this client.
    Refresh(ClientView),
    /// Log this client in with the stored API key.
    ApiKey(ClientView),
    /// There is no way.
    Offline,
}

impl DeepView for OnlineStep {
    type V = OnlineStepView;

    open spec fn deep_view(&self) -> OnlineStepView {
        match *self {
            OnlineStep::Ready => OnlineStepView::Ready,
            OnlineStep::Refresh(c) => OnlineStepView::Refresh(c@),
            OnlineStep::ApiKey(c) => OnlineStepView::ApiKey(c@),
            OnlineStep::Offline => OnlineStepView::Offline,
        }
    }
}

/// The next thing to do to get a session access to the server: nothing where
/// it has it; else a refresh, unless there is no token or it was tried; else a
/// login with the stored API key; else there is no way.
pub open spec fn online_step(
    v: VaultView,
    refresh_tried: bool,
    has_api_key: bool,
    device: Seq<char>,
) -> Result<OnlineStepView, ErrorView> {
    if v.client is Some {
        Ok(OnlineStepView::Ready)
    } else {
        match inferred_urls(v.server) {
            Err(m) => Err(ErrorView::Internal("invalid base URL: "@ + m@)),
            Ok(urls) => {
                let fresh = fresh_client(urls, device, DEVICE_NAME@);
                match v.refresh_token {
                    Some(t) if !refresh_tried => Ok(
                        OnlineStepView::Refresh(ClientView { refresh_token: Some(t), ..fresh }),
                    ),
                    _ => if has_api_key {
                        Ok(OnlineStepView::ApiKey(fresh))
                    } else {
                        Ok(OnlineStepView::Offline)
                    },
                }
            },
        }
    }
}

/// A session with access to the server, or without a token and without an API
/// key, needs no call to know that.
pub proof fn online_without_a_call(v: VaultView, device: Seq<char>)
    requires
        v.client is Some || (inferred_urls(v.server) is Ok && v.refresh_token is None),
    ensures
        online_step(v, false, false, device) == Ok::<OnlineStepView, ErrorView>(
            if v.client is Some { OnlineStepView::Ready } else { OnlineStepView::Offline },
        ),
{
}

/// The error that a cache could not be made.
pub open spec fn cache_failure(why: Seq<char>) -> ErrorView {
    ErrorView::Internal("encrypt cache: "@ + why)
}

/// A cache with the PIN of the one that is stored already, if any: both the
/// envelope and the count of wrong PINs.
pub open spec fn with_stored_pin(c: VaultCacheView, stored: Option<VaultCacheView>) -> VaultCacheView {
    match stored {
        None => c,
        Some(old_cache) => VaultCacheView {
            pin_protected_user_key: old_cache.pin_protected_user_key,
            pin_failures: old_cache.pin_failures,
            ..c
        },
    }
}

/// The cache with the PIN of the one that is stored already, if any. A PIN ends
/// by wrong ones or by being disabled, not by a sync or an unlock.
pub fn keep_pin(cache: VaultCache, stored: &Option<VaultCache>) -> (r: VaultCache)
    ensures
        r.deep_view() == with_stored_pin(cache.deep_view(), stored.deep_view()),
{
    let mut cache: VaultCache = cache;
    if let Some(old_cache) = stored {
        cache.pin_protected_user_key = copy_text(&old_cache.pin_protected_user_key);
        cache.pin_failures = old_cache.pin_failures;
    }
    cache
}

/// A PIN works after a sync or an unlock as it did before: trying it on the new
/// cache gives what trying it on the stored one gives, and the count and the
/// envelope end up the same.
pub proof fn pin_survives_a_new_cache(
    c: VaultCacheView,
    stored: VaultCacheView,
    email: Seq<char>,
    pin: Seq<u8>,
)
    requires
        c.kdf == stored.kdf,
    ensures
        ({
            let kept = pin_tried(with_stored_pin(c, Some(stored)), email, pin);
            let before = pin_tried(stored, email, pin);
            &&& kept.0 == before.0
            &&& kept.1.pin_protected_user_key == before.1.pin_protected_user_key
            &&& kept.1.pin_failures == before.1.pin_failures
        }),
        pin_state(Some(with_stored_pin(c, Some(stored)))) == pin_state(Some(stored)),
{
}

/// The cache of a session: the server's answer and the refresh token in
/// envelopes under the user key, with the PIN of the cache that is stored
/// already.
pub open spec fn session_cache(
    v: VaultView,
    stored: Option<VaultCacheView>,
    sync_bytes: Seq<u8>,
    iv: Seq<u8>,
    token_iv: Seq<u8>,
    stamp: Seq<char>,
) -> VaultCacheView {
    with_stored_pin(
        VaultCacheView {
            schema_version: crate::vault_store::SCHEMA_VERSION,
            device_id: v.device_id,
            server: v.server,
            email: crate::text::lowercase(v.email),
            last_sync: Some(stamp),
            payload: Some(serialized(sealed(v.user_enc, v.user_mac, iv, sync_bytes))),
            protected_user_key: Some(v.protected_user_key),
            kdf: Some(v.kdf),
            pin_protected_user_key: None,
            pin_failures: 0,
            refresh_token: match v.refresh_token {
                None => None,
                Some(t) => Some(
                    serialized(
                        sealed(v.user_enc, v.user_mac, token_iv, vstd::utf8::encode_utf8(t)),
                    ),
                ),
            },
        },
        stored,
    )
}

/// A cache gives back the server's answer and the refresh token of a session.
pub open spec fn restores(c: VaultCacheView, v: VaultView, sync_bytes: Seq<u8>) -> bool {
    &&& payload_opened(c.payload, v.user_enc, v.user_mac) == Ok::<
        Seq<u8>,
        crate::vault_store::Error,
    >(sync_bytes)
    &&& match (c.refresh_token, v.refresh_token) {
        (None, None) => true,
        (Some(s), Some(t)) => opened_text(s, v.user_enc, v.user_mac) == Ok::<
            Seq<u8>,
            crate::vault_core::error::Error,
        >(vstd::utf8::encode_utf8(t)),
        _ => false,
    }
}

/// The cache of a session gives the session back without the server: the
/// password that the login was made with recovers the user key, the payload
/// opens to the server's answer, and the vault made of the two is that of the
/// login, but for the client and the time of the sync.
pub proof fn cached_session_is_restored(
    o: UnlockOpened,
    email: Seq<char>,
    keys: (Seq<u8>, Seq<u8>),
    sync: SyncResponse,
    stamp: Option<Seq<char>>,
    stored: Option<VaultCacheView>,
    sync_bytes: Seq<u8>,
    iv: Seq<u8>,
    token_iv: Seq<u8>,
    cache_stamp: Seq<char>,
)
    requires
        o.start.email@ == account_email(email),
        keys_for(o.start.email@, o.start.password@, o.params) == Ok::<
            (Seq<u8>, Seq<u8>),
            crate::vault_core::error::Error,
        >(keys),
        unwrapped_key(o.protected_user_key@, keys.0, keys.1) == Ok::<
            (Seq<u8>, Seq<u8>),
            crate::vault_core::error::Error,
        >((o.user.0@, o.user.1@)),
        restores(
            session_cache(
                online_vault(o, sync, stamp),
                stored,
                sync_bytes,
                iv,
                token_iv,
                cache_stamp,
            ),
            online_vault(o, sync, stamp),
            sync_bytes,
        ),
    ensures
        ({
            let v = online_vault(o, sync, stamp);
            let c = session_cache(v, stored, sync_bytes, iv, token_iv, cache_stamp);
            &&& cache_unlocked(c, email, o.start.password@) == Ok::<
                (Seq<u8>, Seq<u8>),
                ErrorView,
            >((v.user_enc, v.user_mac))
            &&& payload_opened(c.payload, v.user_enc, v.user_mac) == Ok::<
                Seq<u8>,
                crate::vault_store::Error,
            >(sync_bytes)
            &&& cached_vault(c, v.server, email, v.user_enc, v.user_mac, Ok(sync)) == Ok::<
                VaultView,
                ErrorView,
            >(VaultView { client: None, last_sync: Some(cache_stamp), ..v })
        }),
{
    let v = online_vault(o, sync, stamp);
    if let Some(t) = v.refresh_token {
        vstd::utf8::encode_utf8_valid_utf8(t);
        vstd::utf8::encode_utf8_decode_utf8(t);
    }
}

impl Vault {
    /// The next thing to do to get the session access to the server.
    pub fn ensure_online(&self, refresh_tried: bool, has_api_key: bool, device: String) -> (r:
        Result<OnlineStep, Error>)
        ensures
            match (r, online_step(self.deep_view(), refresh_tried, has_api_key, device@)) {
                (Ok(a), Ok(b)) => a.deep_view() == b,
                (Err(a), Err(b)) => a.deep_view() == b,
                _ => false,
            },
    {
        if self.client.is_some() {
            return Ok(OnlineStep::Ready);
        }
        let urls: BaseUrls = match BaseUrls::infer_from(self.server.as_str()) {
            Ok(u) => u,
            Err(e) => return Err(Error::Internal(e.message())),
        };
        if !refresh_tried {
            if let Some(t) = &self.refresh_token {
                return Ok(
                    OnlineStep::Refresh(
                        BitwardenClient::with_refresh_token(urls, device, DEVICE_NAME, t.clone()),
                    ),
                );
            }
        }
        if has_api_key {
            Ok(OnlineStep::ApiKey(BitwardenClient::new(urls, device, DEVICE_NAME)))
        } else {
            Ok(OnlineStep::Offline)
        }
    }

    /// Takes a client that has access, and its refresh token where it has one.
    pub fn go_online(&mut self, client: BitwardenClient)
        ensures
            final(self).deep_view() == (VaultView {
                client: Some(client@),
                refresh_token: match client@.refresh_token {
                    Some(t) => Some(t),
                    None => old(self).deep_view().refresh_token,
                },
                ..old(self).deep_view()
            }),
    {
        if let Some(t) = client.refresh_token() {
            self.refresh_token = Some(t);
        }
        self.client = Some(client);
    }

    /// The cache of the session, from which it can be unlocked again without
    /// the server: the server's answer and the refresh token in envelopes
    /// under the user key, each under its own initialization vector where
    /// there is one. The PIN of the cache that is stored already is kept.
    ///
    /// The payload opens to the answer, and the token's envelope to the token.
    pub fn persist_cache_with(
        &self,
        stored: &Option<VaultCache>,
        sync_bytes: &[u8],
        payload_iv: Option<[u8; 16]>,
        token_iv: Option<[u8; 16]>,
        stamp: Result<String, String>,
    ) -> (r: Result<VaultCache, Error>)
        ensures
            match (payload_iv, stamp) {
                (None, _) => r matches Err(e) && e.deep_view() == cache_failure(
                    "crypto: "@ + error_text(crate::vault_core::error::Error::Random),
                ),
                (Some(_), Err(m)) => r matches Err(e) && e.deep_view() == cache_failure(
                    "time: "@ + m@,
                ),
                (Some(v), Ok(t)) => if self.refresh_token is Some && token_iv is None {
                    r matches Err(e) && e.deep_view() == cache_failure(
                        error_text(crate::vault_core::error::Error::Random),
                    )
                } else {
                    r matches Ok(c) && c.deep_view() == session_cache(
                        self.deep_view(),
                        stored.deep_view(),
                        sync_bytes@,
                        v@,
                        token_iv->Some_0@,
                        t@,
                    ) && restores(c.deep_view(), self.deep_view(), sync_bytes@)
                },
            },
    {
        let mut cache: VaultCache = VaultCache::new(
            self.device_id.clone(),
            self.server.clone(),
            self.email.as_str(),
        );
        if let Err(e) = cache.set_payload_with(
            self.user_enc.bytes(),
            self.user_mac.bytes(),
            sync_bytes,
            payload_iv,
            stamp,
        ) {
            return Err(Error::Internal(prefixed("encrypt cache: ", e.message().as_str())));
        }
        cache.protected_user_key = Some(self.protected_user_key.clone());
        cache.kdf = Some(self.kdf);
        if let Some(t) = &self.refresh_token {
            match token_iv {
                Some(v) => {
                    cache.refresh_token = Some(
                        seal_text(
                            t.as_str().as_bytes(),
                            self.user_enc.bytes(),
                            self.user_mac.bytes(),
                            v,
                        ),
                    );
                },
                None => {
                    let e: crate::vault_core::error::Error = crate::vault_core::error::Error::Random;
                    return Err(Error::Internal(prefixed("encrypt cache: ", e.message().as_str())));
                },
            }
        }
        Ok(keep_pin(cache, stored))
    }

    /// The cache of the session, under fresh initialization vectors and with
    /// the time. Fails only where there is no randomness or no time.
    pub fn persist_cache(&self, stored: &Option<VaultCache>, sync_bytes: &[u8]) -> (r: Result<
        VaultCache,
        Error,
    >)
        ensures
            r matches Ok(c) ==> restores(c.deep_view(), self.deep_view(), sync_bytes@) && (exists|
                iv: Seq<u8>,
                token_iv: Seq<u8>,
                t: Seq<char>,
            |
                c.deep_view() == #[trigger] session_cache(
                    self.deep_view(),
                    stored.deep_view(),
                    sync_bytes@,
                    iv,
                    token_iv,
                    t,
                )),
            r matches Err(e) ==> e is Internal,
    {
        let payload_iv: Option<[u8; 16]> = draw_iv();
        let token_iv: Option<[u8; 16]> = draw_iv();
        let stamp: Result<String, String> = rfc3339_now();
        let r: Result<VaultCache, Error> = self.persist_cache_with(
            stored,
            sync_bytes,
            payload_iv,
            token_iv,
            stamp,
        );
        assert(r matches Ok(c) ==> c.deep_view() == session_cache(
            self.deep_view(),
            stored.deep_view(),
            sync_bytes@,
            payload_iv->Some_0@,
            token_iv->Some_0@,
            stamp->Ok_0@,
        ));
        r
    }
}

/// An API key that comes with a login is used, and stored; one that is stored
/// already is used otherwise; and the master password without any.
pub proof fn api_key_goes_before_the_password(
    given: ApiKeyCreds,
    kept: crate::vault_store::ApiKeyCreds,
    stored: Option<crate::vault_store::ApiKeyCreds>,
)
    ensures
        grant_for(Some(given), stored) == (GrantView::ApiKey {
            client_id: given.client_id@,
            client_secret: given.client_secret@,
            store: true,
        }),
        grant_for(None, Some(kept)) == (GrantView::ApiKey {
            client_id: kept.client_id@,
            client_secret: vstd::utf8::encode_utf8(kept.client_secret@),
            store: false,
        }),
        grant_for(None, None) == GrantView::Password,
{
}

/// A code is sent as that of an authenticator, and the device is not to be
/// remembered.
pub proof fn code_is_that_of_an_authenticator(code: TwoFactorCode)
    ensures
        authenticator(Some(code)) == Some(
            TwoFactorView { provider: 0, token: code.token@, remember: false },
        ),
        authenticator(None) is None,
{
}

/// A login authenticates with what it was granted: an API key is sent as such,
/// and the password with the parameters of the account and the code.
pub proof fn login_authenticates_by_its_grant(
    c: ClientView,
    client_id: Seq<char>,
    client_secret: Seq<u8>,
    store: bool,
    email: Seq<char>,
    password: Seq<u8>,
    params: KdfParams,
    two_factor: Option<TwoFactorView>,
)
    ensures
        grant_request(
            c,
            GrantView::ApiKey { client_id, client_secret, store },
            email,
            password,
            params,
            two_factor,
        ) == api_key_login(c, client_id, client_secret),
        grant_request(c, GrantView::Password, email, password, params, two_factor)
            == password_login(c, email, password, params, two_factor),
{
}

/// A login ends with a vault that has the account, its keys and parameters, the
/// items, the folders and the organization keys that the server sent, and the
/// access to the server that it gained.
pub proof fn login_ends_with_what_the_server_sent(
    o: UnlockOpened,
    sync: SyncResponse,
    stamp: Option<Seq<char>>,
)
    ensures
        ({
            let v = online_vault(o, sync, stamp);
            &&& v.server == o.start.server@
            &&& v.email == o.start.email@
            &&& v.user_enc == o.user.0@
            &&& v.user_mac == o.user.1@
            &&& v.ciphers == sync_items(sync.ciphers@)
            &&& v.folders == sync_folders(sync.folders@, o.user.0@, o.user.1@)
            &&& v.org_keys == sync_org_keys(sync, o.user.0@, o.user.1@)
            &&& v.client == Some(o.start.client@)
            &&& v.protected_user_key == o.protected_user_key@
            &&& v.kdf == o.params
            &&& v.refresh_token == o.start.client@.refresh_token
            &&& v.device_id == o.start.client@.device_id
            &&& v.last_sync == stamp
        }),
{
}

/// A session from the cache goes online with its refresh token first, then with
/// the stored API key, on its own server and device; without either it stays
/// offline.
pub proof fn session_goes_online_by_token_then_key(
    v: VaultView,
    urls: BaseUrlsView,
    device: Seq<char>,
    token: Seq<char>,
)
    requires
        v.client is None,
        inferred_urls(v.server) == Ok::<BaseUrlsView, &'static str>(urls),
    ensures
        v.refresh_token == Some(token) ==> forall|key: bool|
            #[trigger] online_step(v, false, key, device) matches Ok(OnlineStepView::Refresh(c))
                && c.urls == urls && c.device_id == device && c.refresh_token == Some(token)
                && c.access_token is None,
        online_step(v, true, true, device) matches Ok(OnlineStepView::ApiKey(c)) && c.urls == urls
            && c.device_id == device && c.refresh_token is None,
        v.refresh_token is None ==> (online_step(v, false, true, device) matches Ok(
            OnlineStepView::ApiKey(c),
        ) && c.urls == urls && c.device_id == device),
        online_step(v, true, false, device) == Ok::<OnlineStepView, ErrorView>(
            OnlineStepView::Offline,
        ),
{
}

/// The cache of a session has the session's account, keys and parameters; its
/// payload and its refresh token are sealed under the user key.
pub proof fn cache_holds_the_session(
    v: VaultView,
    stored: Option<VaultCacheView>,
    sync_bytes: Seq<u8>,
    iv: Seq<u8>,
    token_iv: Seq<u8>,
    stamp: Seq<char>,
)
    ensures
        ({
            let c = session_cache(v, stored, sync_bytes, iv, token_iv, stamp);
            &&& c.device_id == v.device_id
            &&& c.server == v.server
            &&& c.email == crate::text::lowercase(v.email)
            &&& c.last_sync == Some(stamp)
            &&& c.protected_user_key == Some(v.protected_user_key)
            &&& c.kdf == Some(v.kdf)
            &&& c.payload == Some(serialized(sealed(v.user_enc, v.user_mac, iv, sync_bytes)))
            &&& v.refresh_token matches Some(t) ==> c.refresh_token == Some(
                serialized(
                    sealed(v.user_enc, v.user_mac, token_iv, vstd::utf8::encode_utf8(t)),
                ),
            )
            &&& v.refresh_token is None ==> c.refresh_token is None
            &&& stored is None ==> c.pin_protected_user_key is None && c.pin_failures == 0
            &&& stored matches Some(s) ==> c.pin_protected_user_key == s.pin_protected_user_key
                && c.pin_failures == s.pin_failures
        }),
{
}

} // verus!
