//! The client's side of the HTTP interface: which requests it makes, and what
//! it takes from the answers.
use vstd::prelude::*;
use vstd::string::*;
use vstd::utf8::{decode_utf8, encode_utf8, valid_utf8};
use base64::engine::general_purpose::URL_SAFE_NO_PAD;
use base64::Engine;
use crate::crypto::wipe_option;
use crate::text::{
    copy_text, decimal, decimal_text, lowercase, same_text, to_lower, trim, trimmed, utf8_text,
};
use crate::vault_api::error::{Error, ErrorView, Result};
use crate::vault_api::identity::{TokenResponse, TwoFactorErrorBody};
use crate::vault_api::sync::pair_texts;
use crate::vault_api::urls::{join_url, scheme_of, url_join, url_scheme, BaseUrls, BaseUrlsView};
use crate::vault_core::cipher::{
    Card, CardView, Cipher, CipherView, CustomField, CustomFieldView, Identity, IdentityView, Login,
    LoginView,
};
use crate::vault_core::error::prefixed;
use crate::vault_core::kdf::{derive_master_key, master_key, KdfParams};
use crate::vault_core::login::{master_password_hash, password_hash};
use crate::VERSION;

verus! {

/// OAuth client identifier.
pub const CLIENT_ID: &'static str = "cli";

/// Bitwarden's number for the kind of device.
pub const DEVICE_TYPE_CLI: u32 = 14;

/// Client name that the server is told.
pub const CLIENT_NAME: &'static str = "cli";

/// Client version that the server is told.
pub const CLIENT_VERSION: &'static str = "2024.12.1";

/// The base64 encoding of bytes, URL-safe alphabet, not padded.
pub uninterp spec fn base64_url_encode(bytes: Seq<u8>) -> Seq<char>;

/// `base64::engine::general_purpose::URL_SAFE_NO_PAD.encode`: the named
/// encoding.
#[verifier::external_body]
pub(crate) fn base64_url_no_pad(bytes: &[u8]) -> (out: String)
    ensures
        out@ == base64_url_encode(bytes@),
{
    URL_SAFE_NO_PAD.encode(bytes)
}

/// An HTTP method.
#[derive(Clone, Copy, Debug, PartialEq, Eq, Structural)]
pub enum Method {
    /// GET.
    Get,
    /// POST.
    Post,
    /// PUT.
    Put,
    /// DELETE.
    Delete,
}

/// The body of a request.
#[derive(Debug)]
pub enum Body {
    /// None.
    Empty,
    /// A form.
    Form(Vec<(String, String)>),
    /// A JSON object with one member, `email`.
    Email(String),
    /// An item as JSON.
    Item(CipherRequest),
}

/// An HTTP request.
#[derive(Debug)]
pub struct HttpRequest {
    /// Method.
    pub method: Method,
    /// Address.
    pub url: String,
    /// Headers besides those of every request.
    pub headers: Vec<(String, String)>,
    /// Body.
    pub body: Body,
}

/// What a [`Body`] holds.
pub enum BodyView {
    /// None.
    Empty,
    /// A form.
    Form(Seq<(Seq<char>, Seq<char>)>),
    /// A JSON object with one member, `email`.
    Email(Seq<char>),
    /// An item as JSON.
    Item(CipherRequestView),
}

/// What an [`HttpRequest`] holds.
pub struct HttpRequestView {
    /// Method.
    pub method: Method,
    /// Address.
    pub url: Seq<char>,
    /// Headers besides those of every request.
    pub headers: Seq<(Seq<char>, Seq<char>)>,
    /// Body.
    pub body: BodyView,
}

impl DeepView for Body {
    type V = BodyView;

    open spec fn deep_view(&self) -> BodyView {
        match *self {
            Body::Empty => BodyView::Empty,
            Body::Form(f) => BodyView::Form(pair_texts(f@)),
            Body::Email(e) => BodyView::Email(e@),
            Body::Item(c) => BodyView::Item(c.deep_view()),
        }
    }
}

impl DeepView for HttpRequest {
    type V = HttpRequestView;

    open spec fn deep_view(&self) -> HttpRequestView {
        HttpRequestView {
            method: self.method,
            url: self.url@,
            headers: pair_texts(self.headers@),
            body: self.body.deep_view(),
        }
    }
}

/// An item as it is sent to the server.
#[derive(Debug)]
pub struct CipherRequest {
    /// Kind.
    pub cipher_type: u8,
    /// Folder.
    pub folder_id: Option<String>,
    /// Organization.
    pub organization_id: Option<String>,
    /// Wrapped key of the item's own.
    pub key: Option<String>,
    /// Name; empty where the item has none.
    pub name: String,
    /// Notes.
    pub notes: Option<String>,
    /// Login fields.
    pub login: Option<Login>,
    /// Card fields.
    pub card: Option<Card>,
    /// Identity fields.
    pub identity: Option<Identity>,
    /// User-defined fields.
    pub fields: Option<Vec<CustomField>>,
    /// Kind of note, which the server wants for a secure note.
    pub secure_note: Option<u8>,
}

/// What a [`CipherRequest`] holds.
pub struct CipherRequestView {
    /// Kind.
    pub cipher_type: u8,
    /// Folder.
    pub folder_id: Option<Seq<char>>,
    /// Organization.
    pub organization_id: Option<Seq<char>>,
    /// Wrapped key of the item's own.
    pub key: Option<Seq<char>>,
    /// Name.
    pub name: Seq<char>,
    /// Notes.
    pub notes: Option<Seq<char>>,
    /// Login fields.
    pub login: Option<LoginView>,
    /// Card fields.
    pub card: Option<CardView>,
    /// Identity fields.
    pub identity: Option<IdentityView>,
    /// User-defined fields.
    pub fields: Option<Seq<CustomFieldView>>,
    /// Kind of note.
    pub secure_note: Option<u8>,
}

impl DeepView for CipherRequest {
    type V = CipherRequestView;

    open spec fn deep_view(&self) -> CipherRequestView {
        CipherRequestView {
            cipher_type: self.cipher_type,
            folder_id: self.folder_id.deep_view(),
            organization_id: self.organization_id.deep_view(),
            key: self.key.deep_view(),
            name: self.name@,
            notes: self.notes.deep_view(),
            login: self.login.deep_view(),
            card: self.card.deep_view(),
            identity: self.identity.deep_view(),
            fields: self.fields.deep_view(),
            secure_note: self.secure_note,
        }
    }
}

/// An item as it is sent to the server: everything but its identifier.
pub open spec fn cipher_request(c: CipherView) -> CipherRequestView {
    CipherRequestView {
        cipher_type: c.cipher_type,
        folder_id: c.folder_id,
        organization_id: c.organization_id,
        key: c.key,
        name: match c.name {
            Some(n) => n,
            None => Seq::empty(),
        },
        notes: c.notes,
        login: c.login,
        card: c.card,
        identity: c.identity,
        fields: c.fields,
        secure_note: if c.cipher_type == 2 { Some(0u8) } else { None },
    }
}

impl CipherRequest {
    /// The item as it is sent to the server.
    pub fn from_cipher(c: &Cipher) -> (r: CipherRequest)
        ensures
            r.deep_view() == cipher_request(c.deep_view()),
    {
        let copy: Cipher = c.clone();
        CipherRequest {
            cipher_type: copy.cipher_type,
            folder_id: copy.folder_id,
            organization_id: copy.organization_id,
            key: copy.key,
            name: match copy.name {
                Some(n) => n,
                None => String::new(),
            },
            notes: copy.notes,
            login: copy.login,
            card: copy.card,
            identity: copy.identity,
            fields: copy.fields,
            secure_note: if c.cipher_type == 2 {
                Some(0)
            } else {
                None
            },
        }
    }
}

/// An answer to a two-factor challenge.
#[derive(Clone, Debug)]
pub struct TwoFactor {
    /// Number of the provider; zero is an authenticator.
    pub provider: u32,
    /// The code.
    pub token: String,
    /// Whether the server should remember this device.
    pub remember: bool,
}

/// What a [`TwoFactor`] holds.
pub struct TwoFactorView {
    /// Number of the provider.
    pub provider: u32,
    /// The code.
    pub token: Seq<char>,
    /// Whether the server should remember this device.
    pub remember: bool,
}

impl DeepView for TwoFactor {
    type V = TwoFactorView;

    open spec fn deep_view(&self) -> TwoFactorView {
        TwoFactorView { provider: self.provider, token: self.token@, remember: self.remember }
    }
}

/// A client of one server.
#[derive(Debug)]
pub struct BitwardenClient {
    urls: BaseUrls,
    device_id: String,
    device_name: String,
    user_agent: String,
    access_token: Option<String>,
    refresh_token: Option<String>,
}

impl Drop for BitwardenClient {
    /// Wipes the tokens.
    fn drop(&mut self)
        opens_invariants none
        no_unwind
    {
        wipe_option(&mut self.access_token);
        wipe_option(&mut self.refresh_token);
    }
}

/// What a [`BitwardenClient`] holds.
pub struct ClientView {
    /// Addresses of the server.
    pub urls: BaseUrlsView,
    /// Identifier of this device.
    pub device_id: Seq<char>,
    /// Name of this device.
    pub device_name: Seq<char>,
    /// User agent.
    pub user_agent: Seq<char>,
    /// Access token.
    pub access_token: Option<Seq<char>>,
    /// Refresh token.
    pub refresh_token: Option<Seq<char>>,
}

impl View for BitwardenClient {
    type V = ClientView;

    closed spec fn view(&self) -> ClientView {
        ClientView {
            urls: self.urls.deep_view(),
            device_id: self.device_id@,
            device_name: self.device_name@,
            user_agent: self.user_agent@,
            access_token: self.access_token.deep_view(),
            refresh_token: self.refresh_token.deep_view(),
        }
    }
}

impl DeepView for BitwardenClient {
    type V = ClientView;

    open spec fn deep_view(&self) -> ClientView {
        self@
    }
}

/// A client without tokens.
pub open spec fn fresh_client(urls: BaseUrlsView, device_id: Seq<char>, device_name: Seq<char>)
    -> ClientView {
    ClientView {
        urls,
        device_id,
        device_name,
        user_agent: "vault/"@ + VERSION@ + " (Spacecraft-Software)"@,
        access_token: None,
        refresh_token: None,
    }
}

/// A status that says that a request succeeded.
pub open spec fn is_success(status: u16) -> bool {
    200 <= status <= 299
}

/// The headers of every request.
pub open spec fn identity_headers() -> Seq<(Seq<char>, Seq<char>)> {
    seq![
        ("Bitwarden-Client-Name"@, CLIENT_NAME@),
        ("Bitwarden-Client-Version"@, CLIENT_VERSION@),
        ("Device-Type"@, decimal(DEVICE_TYPE_CLI as nat)),
    ]
}

/// The form of a refresh.
pub open spec fn refresh_form(token: Seq<char>) -> Seq<(Seq<char>, Seq<char>)> {
    seq![
        ("grant_type"@, "refresh_token"@),
        ("refresh_token"@, token),
        ("client_id"@, CLIENT_ID@),
    ]
}

/// The part of a login's form that answers a two-factor challenge.
pub open spec fn two_factor_form(t: Option<TwoFactorView>) -> Seq<(Seq<char>, Seq<char>)> {
    match t {
        None => Seq::empty(),
        Some(t) => seq![
            ("twoFactorToken"@, t.token),
            ("twoFactorProvider"@, decimal(t.provider as nat)),
            ("twoFactorRemember"@, if t.remember { "1"@ } else { "0"@ }),
        ],
    }
}

/// The form of a login with the master password, which its hash stands for.
pub open spec fn password_form(
    email: Seq<char>,
    hash: Seq<char>,
    device_id: Seq<char>,
    device_name: Seq<char>,
    two_factor: Option<TwoFactorView>,
) -> Seq<(Seq<char>, Seq<char>)> {
    seq![
        ("grant_type"@, "password"@),
        ("username"@, email),
        ("password"@, hash),
        ("scope"@, "api offline_access"@),
        ("client_id"@, CLIENT_ID@),
        ("deviceType"@, "14"@),
        ("deviceIdentifier"@, device_id),
        ("deviceName"@, device_name),
    ] + two_factor_form(two_factor)
}

/// The form of a login with an API key.
pub open spec fn api_key_form(
    client_id: Seq<char>,
    client_secret: Seq<char>,
    device_id: Seq<char>,
    device_name: Seq<char>,
) -> Seq<(Seq<char>, Seq<char>)> {
    seq![
        ("grant_type"@, "client_credentials"@),
        ("scope"@, "api"@),
        ("client_id"@, client_id),
        ("client_secret"@, client_secret),
        ("deviceType"@, "14"@),
        ("deviceIdentifier"@, device_id),
        ("deviceName"@, device_name),
    ]
}

/// The address of an endpoint, or the error that there is none.
pub open spec fn endpoint(base: Seq<char>, path: Seq<char>, what: &'static str) -> core::result::Result<
    Seq<char>,
    ErrorView,
> {
    match url_join(base, path) {
        Some(u) => Ok(u),
        None => Err(ErrorView::BaseUrl(what)),
    }
}

/// `r` is the request `v`, or the error `v`.
pub open spec fn request_is(
    r: Result<HttpRequest>,
    v: core::result::Result<HttpRequestView, ErrorView>,
) -> bool {
    match (r, v) {
        (Ok(q), Ok(w)) => q.deep_view() == w,
        (Err(e), Err(w)) => e.deep_view() == w,
        _ => false,
    }
}

/// The request for the key-derivation parameters of an account.
pub open spec fn prelogin_request(c: ClientView, email: Seq<char>) -> core::result::Result<
    HttpRequestView,
    ErrorView,
> {
    match endpoint(c.urls.identity, "accounts/prelogin"@, "could not build prelogin URL") {
        Err(e) => Err(e),
        Ok(url) => Ok(
            HttpRequestView {
                method: Method::Post,
                url,
                headers: Seq::empty(),
                body: BodyView::Email(email),
            },
        ),
    }
}

/// A request for tokens.
pub open spec fn token_request(
    c: ClientView,
    headers: Seq<(Seq<char>, Seq<char>)>,
    form: Seq<(Seq<char>, Seq<char>)>,
) -> core::result::Result<HttpRequestView, ErrorView> {
    match endpoint(c.urls.identity, "connect/token"@, "could not build token URL") {
        Err(e) => Err(e),
        Ok(url) => Ok(
            HttpRequestView { method: Method::Post, url, headers, body: BodyView::Form(form) },
        ),
    }
}

/// The email of an account as the server knows it.
pub open spec fn account_email(email: Seq<char>) -> Seq<char> {
    lowercase(trim(email))
}

/// The request of a login with the master password.
pub open spec fn password_login(
    c: ClientView,
    email: Seq<char>,
    password: Seq<u8>,
    params: KdfParams,
    two_factor: Option<TwoFactorView>,
) -> core::result::Result<HttpRequestView, ErrorView> {
    let lower = account_email(email);
    match master_key(password, encode_utf8(lower), params) {
        Err(e) => Err(ErrorView::Crypto(e)),
        Ok(key) => token_request(
            c,
            seq![("Auth-Email"@, base64_url_encode(encode_utf8(lower)))],
            password_form(
                lower,
                password_hash(key, password),
                c.device_id,
                c.device_name,
                two_factor,
            ),
        ),
    }
}

/// The request of a login with an API key.
pub open spec fn api_key_login(c: ClientView, client_id: Seq<char>, client_secret: Seq<u8>)
    -> core::result::Result<HttpRequestView, ErrorView> {
    if !valid_utf8(client_secret) {
        Err(ErrorView::Credential("api-key client_secret is not valid UTF-8"))
    } else {
        token_request(
            c,
            Seq::empty(),
            api_key_form(client_id, decode_utf8(client_secret), c.device_id, c.device_name),
        )
    }
}

/// The request of a refresh.
pub open spec fn refresh_request(c: ClientView) -> core::result::Result<
    HttpRequestView,
    ErrorView,
> {
    match c.refresh_token {
        None => Err(
            ErrorView::ServerStatus { status: 401, message: "no refresh token held"@ },
        ),
        Some(t) => token_request(c, Seq::empty(), refresh_form(t)),
    }
}

/// The header value that carries the access token.
pub open spec fn bearer_of(c: ClientView) -> core::result::Result<Seq<char>, ErrorView> {
    match c.access_token {
        None => Err(
            ErrorView::ServerStatus {
                status: 401,
                message: "no access token; call login_password() first"@,
            },
        ),
        Some(t) => Ok("Bearer "@ + t),
    }
}

/// A request below the address of the vault, with the access token.
pub open spec fn vault_request(
    c: ClientView,
    method: Method,
    path: Seq<char>,
    what: &'static str,
    body: BodyView,
) -> core::result::Result<HttpRequestView, ErrorView> {
    match endpoint(c.urls.api, path, what) {
        Err(e) => Err(e),
        Ok(url) => match bearer_of(c) {
            Err(e) => Err(e),
            Ok(b) => Ok(HttpRequestView { method, url, headers: seq![("Authorization"@, b)], body }),
        },
    }
}

/// The providers that a body with status 400 asks a second factor of, if it
/// does.
pub open spec fn challenge_providers(body: Option<TwoFactorErrorBody>) -> Option<Seq<u32>> {
    match body {
        None => None,
        Some(b) => match b.two_factor_providers {
            Some(p) if p@.len() > 0 => Some(p@),
            _ => if b.two_factor_providers2 is Some {
                Some(Seq::empty())
            } else {
                None
            },
        },
    }
}

/// The error that an answer without success to a login with the master
/// password stands for.
pub open spec fn login_failure(
    status: u16,
    text: Seq<char>,
    challenge: Option<TwoFactorErrorBody>,
) -> ErrorView {
    match challenge_providers(challenge) {
        Some(p) if status == 400 => ErrorView::TwoFactorRequired(p),
        _ => ErrorView::ServerStatus { status, message: text },
    }
}

fn pair(name: &str, value: &str) -> (r: (String, String))
    ensures
        r.0@ == name@,
        r.1@ == value@,
{
    (name.to_owned(), value.to_owned())
}

/// The headers of every request.
pub fn client_headers() -> (out: Vec<(String, String)>)
    ensures
        pair_texts(out@) == identity_headers(),
{
    let mut out: Vec<(String, String)> = Vec::new();
    out.push(pair("Bitwarden-Client-Name", CLIENT_NAME));
    out.push(pair("Bitwarden-Client-Version", CLIENT_VERSION));
    out.push(pair("Device-Type", decimal_text(DEVICE_TYPE_CLI as u64).as_str()));
    assert(pair_texts(out@) =~= identity_headers());
    out
}

/// The form of a login with the master password, given its hash.
pub fn build_password_form(
    email: &str,
    hash: &str,
    device_id: &str,
    device_name: &str,
    two_factor: &Option<TwoFactor>,
) -> (out: Vec<(String, String)>)
    ensures
        pair_texts(out@) == password_form(
            email@,
            hash@,
            device_id@,
            device_name@,
            two_factor.deep_view(),
        ),
{
    let mut out: Vec<(String, String)> = Vec::new();
    out.push(pair("grant_type", "password"));
    out.push(pair("username", email));
    out.push(pair("password", hash));
    out.push(pair("scope", "api offline_access"));
    out.push(pair("client_id", CLIENT_ID));
    out.push(pair("deviceType", "14"));
    out.push(pair("deviceIdentifier", device_id));
    out.push(pair("deviceName", device_name));
    if let Some(t) = two_factor {
        out.push(pair("twoFactorToken", t.token.as_str()));
        out.push(pair("twoFactorProvider", decimal_text(t.provider as u64).as_str()));
        out.push(
            pair(
                "twoFactorRemember",
                if t.remember {
                    "1"
                } else {
                    "0"
                },
            ),
        );
    }
    assert(pair_texts(out@) =~= password_form(
        email@,
        hash@,
        device_id@,
        device_name@,
        two_factor.deep_view(),
    ));
    out
}

/// The result of a request for which only success matters.
pub fn expect_success(status: u16, text: String) -> (r: Result<()>)
    ensures
        is_success(status) ==> r == Ok::<(), Error>(()),
        !is_success(status) ==> r == Err::<(), Error>(
            Error::ServerStatus { status, message: text },
        ),
{
    if 200 <= status && status <= 299 {
        Ok(())
    } else {
        Err(Error::ServerStatus { status, message: text })
    }
}

/// The result of a request whose successful answer is read as a `T`.
pub fn handle_json<T>(
    status: u16,
    parsed: core::result::Result<T, String>,
    text: String,
) -> (r: Result<T>)
    ensures
        !is_success(status) ==> r == Err::<T, Error>(
            Error::ServerStatus { status, message: text },
        ),
        is_success(status) ==> match parsed {
            Ok(v) => r == Ok::<T, Error>(v),
            Err(m) => r == Err::<T, Error>(Error::Transport(m)),
        },
{
    if 200 <= status && status <= 299 {
        match parsed {
            Ok(v) => Ok(v),
            Err(m) => Err(Error::Transport(m)),
        }
    } else {
        Err(Error::ServerStatus { status, message: text })
    }
}

/// The error that an answer without success to a login with the master
/// password stands for: a challenge for a second factor, or a refusal.
pub fn refused_login(
    status: u16,
    text: String,
    challenge: Option<TwoFactorErrorBody>,
) -> (e: Error)
    ensures
        e.deep_view() == login_failure(status, text@, challenge),
{
    if status == 400 {
        if let Some(b) = challenge {
            if let Some(p) = b.two_factor_providers {
                if p.len() > 0 {
                    return Error::TwoFactorRequired(p);
                }
            }
            if b.two_factor_providers2.is_some() {
                let none: Vec<u32> = Vec::new();
                assert(none@ =~= Seq::empty());
                return Error::TwoFactorRequired(none);
            }
        }
    }
    Error::ServerStatus { status, message: text }
}

fn endpoint_url(base: &str, path: &str, what: &'static str) -> (r: Result<String>)
    ensures
        r matches Ok(u) ==> endpoint(base@, path@, what) == Ok::<Seq<char>, ErrorView>(u@),
        r matches Err(e) ==> endpoint(base@, path@, what) == Err::<Seq<char>, ErrorView>(
            e.deep_view(),
        ),
{
    match join_url(base, path) {
        Some(u) => Ok(u),
        None => Err(Error::BaseUrl(what)),
    }
}

impl BitwardenClient {
    /// A client without tokens.
    pub fn new(urls: BaseUrls, device_id: String, device_name: &str) -> (r: BitwardenClient)
        ensures
            r@ == fresh_client(urls.deep_view(), device_id@, device_name@),
    {
        let mut user_agent: String = prefixed("vault/", VERSION);
        user_agent.append(" (Spacecraft-Software)");
        BitwardenClient {
            urls,
            device_id,
            device_name: device_name.to_owned(),
            user_agent,
            access_token: None,
            refresh_token: None,
        }
    }

    /// A client with a refresh token alone.
    pub fn with_refresh_token(
        urls: BaseUrls,
        device_id: String,
        device_name: &str,
        refresh_token: String,
    ) -> (r: BitwardenClient)
        ensures
            r@ == (ClientView {
                refresh_token: Some(refresh_token@),
                ..fresh_client(urls.deep_view(), device_id@, device_name@)
            }),
    {
        let mut client: BitwardenClient = Self::new(urls, device_id, device_name);
        client.refresh_token = Some(refresh_token);
        client
    }

    /// Identifier of this device.
    pub fn device_id(&self) -> (r: &str)
        ensures
            r@ == self@.device_id,
    {
        self.device_id.as_str()
    }

    /// User agent of every request.
    pub fn user_agent(&self) -> (r: &str)
        ensures
            r@ == self@.user_agent,
    {
        self.user_agent.as_str()
    }

    /// Whether there is an access token.
    pub fn is_authenticated(&self) -> (b: bool)
        ensures
            b == (self@.access_token is Some),
    {
        self.access_token.is_some()
    }

    /// The refresh token.
    pub fn refresh_token(&self) -> (r: Option<String>)
        ensures
            r.deep_view() == self@.refresh_token,
    {
        copy_text(&self.refresh_token)
    }

    /// Takes a refresh token.
    pub fn set_refresh_token(&mut self, refresh_token: String)
        ensures
            final(self)@ == (ClientView { refresh_token: Some(refresh_token@), ..old(self)@ }),
    {
        self.refresh_token = Some(refresh_token);
    }

    /// Whether plain HTTP is refused: exactly where the server's address is
    /// not plain HTTP either.
    pub fn https_only(&self) -> (b: bool)
        ensures
            b == (url_scheme(self@.urls.api) == "https"@),
    {
        same_text(scheme_of(self.urls.api.as_str()).as_str(), "https")
    }

    fn token_post(
        &self,
        headers: Vec<(String, String)>,
        form: Vec<(String, String)>,
    ) -> (r: Result<HttpRequest>)
        ensures
            request_is(r, token_request(self@, pair_texts(headers@), pair_texts(form@))),
    {
        let url: String = endpoint_url(
            self.urls.identity.as_str(),
            "connect/token",
            "could not build token URL",
        )?;
        Ok(HttpRequest { method: Method::Post, url, headers, body: Body::Form(form) })
    }

    /// The request for the key-derivation parameters of an account.
    pub fn prelogin(&self, email: &str) -> (r: Result<HttpRequest>)
        ensures
            request_is(r, prelogin_request(self@, email@)),
    {
        let url: String = endpoint_url(
            self.urls.identity.as_str(),
            "accounts/prelogin",
            "could not build prelogin URL",
        )?;
        let headers: Vec<(String, String)> = Vec::new();
        assert(pair_texts(headers@) =~= Seq::empty());
        Ok(HttpRequest { method: Method::Post, url, headers, body: Body::Email(email.to_owned()) })
    }

    /// The request of a login with the master password. The password leaves as
    /// its hash alone.
    pub fn login_password(
        &self,
        email: &str,
        password: &[u8],
        params: KdfParams,
        two_factor: &Option<TwoFactor>,
    ) -> (r: Result<HttpRequest>)
        ensures
            request_is(
                r,
                password_login(self@, email@, password@, params, two_factor.deep_view()),
            ),
    {
        let lower: String = to_lower(trimmed(email).as_str());
        let key: [u8; 32] = match derive_master_key(password, lower.as_str().as_bytes(), params) {
            Ok(k) => k,
            Err(e) => return Err(Error::Crypto(e)),
        };
        let hash: String = match master_password_hash(&key, password) {
            Ok(h) => h,
            Err(e) => return Err(Error::Crypto(e)),
        };
        let form: Vec<(String, String)> = build_password_form(
            lower.as_str(),
            hash.as_str(),
            self.device_id.as_str(),
            self.device_name.as_str(),
            two_factor,
        );
        let mut headers: Vec<(String, String)> = Vec::new();
        headers.push(pair("Auth-Email", base64_url_no_pad(lower.as_str().as_bytes()).as_str()));
        assert(pair_texts(headers@) =~= seq![
            ("Auth-Email"@, base64_url_encode(encode_utf8(lower@))),
        ]);
        self.token_post(headers, form)
    }

    /// Takes the tokens of a login.
    fn keep_tokens(&mut self, token: &TokenResponse)
        ensures
            final(self)@ == (ClientView {
                access_token: Some(token.access_token@),
                refresh_token: token.refresh_token.deep_view(),
                ..old(self)@
            }),
    {
        self.access_token = Some(token.access_token.clone());
        self.refresh_token = copy_text(&token.refresh_token);
    }

    /// Takes the answer to a login with the master password.
    pub fn login_password_reply(
        &mut self,
        status: u16,
        token: core::result::Result<TokenResponse, String>,
        text: String,
        challenge: Option<TwoFactorErrorBody>,
    ) -> (r: Result<TokenResponse>)
        ensures
            !is_success(status) ==> (r matches Err(e) && e.deep_view() == login_failure(
                status,
                text@,
                challenge,
            )) && final(self)@ == old(self)@,
            is_success(status) ==> match token {
                Ok(t) => r == Ok::<TokenResponse, Error>(t) && final(self)@ == (ClientView {
                    access_token: Some(t.access_token@),
                    refresh_token: t.refresh_token.deep_view(),
                    ..old(self)@
                }),
                Err(m) => r == Err::<TokenResponse, Error>(Error::Transport(m)) && final(self)@
                    == old(self)@,
            },
    {
        if 200 <= status && status <= 299 {
            match token {
                Ok(t) => {
                    self.keep_tokens(&t);
                    Ok(t)
                },
                Err(m) => Err(Error::Transport(m)),
            }
        } else {
            Err(refused_login(status, text, challenge))
        }
    }

    /// The request of a login with an API key, which the server does not
    /// challenge for a second factor.
    pub fn login_api_key(&self, client_id: &str, client_secret: &Vec<u8>) -> (r: Result<
        HttpRequest,
    >)
        ensures
            request_is(r, api_key_login(self@, client_id@, client_secret@)),
    {
        let mut bytes: Vec<u8> = Vec::new();
        bytes.extend_from_slice(client_secret.as_slice());
        assert(bytes@ =~= client_secret@);
        let secret: String = match utf8_text(bytes) {
            Some(s) => s,
            None => return Err(Error::Credential("api-key client_secret is not valid UTF-8")),
        };
        let mut form: Vec<(String, String)> = Vec::new();
        form.push(pair("grant_type", "client_credentials"));
        form.push(pair("scope", "api"));
        form.push(pair("client_id", client_id));
        form.push(pair("client_secret", secret.as_str()));
        form.push(pair("deviceType", "14"));
        form.push(pair("deviceIdentifier", self.device_id.as_str()));
        form.push(pair("deviceName", self.device_name.as_str()));
        assert(pair_texts(form@) =~= api_key_form(
            client_id@,
            secret@,
            self@.device_id,
            self@.device_name,
        ));
        let headers: Vec<(String, String)> = Vec::new();
        assert(pair_texts(headers@) =~= Seq::empty());
        self.token_post(headers, form)
    }

    /// Takes the answer to a login with an API key.
    pub fn login_api_key_reply(
        &mut self,
        status: u16,
        token: core::result::Result<TokenResponse, String>,
        text: String,
    ) -> (r: Result<TokenResponse>)
        ensures
            !is_success(status) ==> r == Err::<TokenResponse, Error>(
                Error::ServerStatus { status, message: text },
            ) && final(self)@ == old(self)@,
            is_success(status) ==> match token {
                Ok(t) => r == Ok::<TokenResponse, Error>(t) && final(self)@ == (ClientView {
                    access_token: Some(t.access_token@),
                    refresh_token: t.refresh_token.deep_view(),
                    ..old(self)@
                }),
                Err(m) => r == Err::<TokenResponse, Error>(Error::Transport(m)) && final(self)@
                    == old(self)@,
            },
    {
        let t: TokenResponse = handle_json(status, token, text)?;
        self.keep_tokens(&t);
        Ok(t)
    }

    /// The request of a refresh.
    pub fn refresh(&self) -> (r: Result<HttpRequest>)
        ensures
            request_is(r, refresh_request(self@)),
    {
        let token: &String = match &self.refresh_token {
            Some(t) => t,
            None => return Err(
                Error::ServerStatus { status: 401, message: "no refresh token held".to_owned() },
            ),
        };
        let mut form: Vec<(String, String)> = Vec::new();
        form.push(pair("grant_type", "refresh_token"));
        form.push(pair("refresh_token", token.as_str()));
        form.push(pair("client_id", CLIENT_ID));
        assert(pair_texts(form@) =~= refresh_form(token@));
        let headers: Vec<(String, String)> = Vec::new();
        assert(pair_texts(headers@) =~= Seq::empty());
        self.token_post(headers, form)
    }

    /// Takes the answer to a refresh. The refresh token stays where the answer
    /// brings no new one.
    pub fn refresh_reply(
        &mut self,
        status: u16,
        token: core::result::Result<TokenResponse, String>,
        text: String,
    ) -> (r: Result<()>)
        ensures
            !is_success(status) ==> r == Err::<(), Error>(
                Error::ServerStatus { status, message: text },
            ) && final(self)@ == old(self)@,
            is_success(status) ==> match token {
                Ok(t) => r == Ok::<(), Error>(()) && final(self)@ == (ClientView {
                    access_token: Some(t.access_token@),
                    refresh_token: match t.refresh_token {
                        Some(n) => Some(n@),
                        None => old(self)@.refresh_token,
                    },
                    ..old(self)@
                }),
                Err(m) => r == Err::<(), Error>(Error::Transport(m)) && final(self)@ == old(self)@,
            },
    {
        let t: TokenResponse = handle_json(status, token, text)?;
        self.access_token = Some(t.access_token);
        if let Some(n) = t.refresh_token {
            self.refresh_token = Some(n);
        }
        Ok(())
    }

    /// The header value that carries the access token.
    pub fn bearer(&self) -> (r: Result<String>)
        ensures
            r matches Ok(b) ==> bearer_of(self@) == Ok::<Seq<char>, ErrorView>(b@),
            r matches Err(e) ==> bearer_of(self@) == Err::<Seq<char>, ErrorView>(e.deep_view()),
    {
        match &self.access_token {
            Some(t) => Ok(prefixed("Bearer ", t.as_str())),
            None => Err(
                Error::ServerStatus {
                    status: 401,
                    message: "no access token; call login_password() first".to_owned(),
                },
            ),
        }
    }

    /// Whether a request that was answered with `status` is to be made once
    /// more after a refresh.
    pub fn retry_after(&self, status: u16) -> (b: bool)
        ensures
            b == (status == 401 && self@.refresh_token is Some),
    {
        status == 401 && self.refresh_token.is_some()
    }

    fn vault_call(&self, method: Method, path: &str, what: &'static str, body: Body) -> (r: Result<
        HttpRequest,
    >)
        ensures
            request_is(r, vault_request(self@, method, path@, what, body.deep_view())),
    {
        let url: String = endpoint_url(self.urls.api.as_str(), path, what)?;
        let bearer: String = self.bearer()?;
        let mut headers: Vec<(String, String)> = Vec::new();
        headers.push(pair("Authorization", bearer.as_str()));
        assert(pair_texts(headers@) =~= seq![("Authorization"@, bearer@)]);
        Ok(HttpRequest { method, url, headers, body })
    }

    /// The request for the whole vault.
    pub fn sync(&self) -> (r: Result<HttpRequest>)
        ensures
            request_is(
                r,
                vault_request(
                    self@,
                    Method::Get,
                    "sync"@,
                    "could not build sync URL",
                    BodyView::Empty,
                ),
            ),
    {
        self.vault_call(Method::Get, "sync", "could not build sync URL", Body::Empty)
    }

    /// The request that deletes an item.
    pub fn delete_cipher(&self, id: &str) -> (r: Result<HttpRequest>)
        ensures
            request_is(
                r,
                vault_request(
                    self@,
                    Method::Delete,
                    "ciphers/"@ + id@,
                    "could not build delete-cipher URL",
                    BodyView::Empty,
                ),
            ),
    {
        self.vault_call(
            Method::Delete,
            prefixed("ciphers/", id).as_str(),
            "could not build delete-cipher URL",
            Body::Empty,
        )
    }

    /// The request that creates an item.
    pub fn create_cipher(&self, cipher: &Cipher) -> (r: Result<HttpRequest>)
        ensures
            request_is(
                r,
                vault_request(
                    self@,
                    Method::Post,
                    "ciphers"@,
                    "could not build create-cipher URL",
                    BodyView::Item(cipher_request(cipher.deep_view())),
                ),
            ),
    {
        self.vault_call(
            Method::Post,
            "ciphers",
            "could not build create-cipher URL",
            Body::Item(CipherRequest::from_cipher(cipher)),
        )
    }

    /// The request that replaces an item.
    pub fn update_cipher(&self, id: &str, cipher: &Cipher) -> (r: Result<HttpRequest>)
        ensures
            request_is(
                r,
                vault_request(
                    self@,
                    Method::Put,
                    "ciphers/"@ + id@,
                    "could not build update-cipher URL",
                    BodyView::Item(cipher_request(cipher.deep_view())),
                ),
            ),
    {
        self.vault_call(
            Method::Put,
            prefixed("ciphers/", id).as_str(),
            "could not build update-cipher URL",
            Body::Item(CipherRequest::from_cipher(cipher)),
        )
    }
}

/// An email is known to the server in lower case and without the white space
/// around it.
pub proof fn email_is_lowercase_and_trimmed(email: Seq<char>)
    ensures
        account_email(email) == lowercase(trim(email)),
{
}

/// A form has a value under a name.
pub open spec fn form_has(
    form: Seq<(Seq<char>, Seq<char>)>,
    name: Seq<char>,
    value: Seq<char>,
) -> bool {
    form.contains((name, value))
}

/// A login with the master password goes to the token endpoint as a form with
/// the email, the hash in place of the password, the device, and the answer to
/// a challenge where there is one; the password itself is nowhere in it.
pub proof fn password_login_sends_the_hash(
    c: ClientView,
    email: Seq<char>,
    password: Seq<u8>,
    params: KdfParams,
    two_factor: Option<TwoFactorView>,
    master: Seq<u8>,
    url: Seq<char>,
)
    requires
        url_join(c.urls.identity, "connect/token"@) == Some(url),
        master_key(password, encode_utf8(lowercase(trim(email))), params) == Ok::<
            Seq<u8>,
            crate::vault_core::error::Error,
        >(master),
    ensures
        password_login(c, email, password, params, two_factor) matches Ok(q) && {
            &&& q.method == Method::Post
            &&& q.url == url
            &&& q.headers == seq![
                ("Auth-Email"@, base64_url_encode(encode_utf8(lowercase(trim(email))))),
            ]
            &&& q.body matches BodyView::Form(f) && {
                &&& form_has(f, "grant_type"@, "password"@)
                &&& form_has(f, "username"@, lowercase(trim(email)))
                &&& form_has(
                    f,
                    "password"@,
                    crate::crypto::base64_encode(crate::crypto::pbkdf2_of(master, password, 1)),
                )
                &&& form_has(f, "scope"@, "api offline_access"@)
                &&& form_has(f, "client_id"@, "cli"@)
                &&& form_has(f, "deviceType"@, "14"@)
                &&& form_has(f, "deviceIdentifier"@, c.device_id)
                &&& form_has(f, "deviceName"@, c.device_name)
                &&& two_factor is None ==> f.len() == 8
                &&& two_factor matches Some(t) ==> {
                    &&& f.len() == 11
                    &&& form_has(f, "twoFactorToken"@, t.token)
                    &&& form_has(f, "twoFactorProvider"@, decimal(t.provider as nat))
                    &&& form_has(
                        f,
                        "twoFactorRemember"@,
                        if t.remember { "1"@ } else { "0"@ },
                    )
                }
            }
        },
{
    let lower = lowercase(trim(email));
    let f = password_form(
        lower,
        password_hash(master, password),
        c.device_id,
        c.device_name,
        two_factor,
    );
    assert(f[0] == ("grant_type"@, "password"@));
    assert(f[1] == ("username"@, lower));
    assert(f[2] == ("password"@, password_hash(master, password)));
    assert(f[3] == ("scope"@, "api offline_access"@));
    assert(f[4] == ("client_id"@, CLIENT_ID@));
    assert(f[5] == ("deviceType"@, "14"@));
    assert(f[6] == ("deviceIdentifier"@, c.device_id));
    assert(f[7] == ("deviceName"@, c.device_name));
    if let Some(t) = two_factor {
        assert(f[8] == ("twoFactorToken"@, t.token));
        assert(f[9] == ("twoFactorProvider"@, decimal(t.provider as nat)));
        assert(f[10] == ("twoFactorRemember"@, if t.remember { "1"@ } else { "0"@ }));
    }
}

/// Unusable key-derivation parameters stop a login before anything is sent.
pub proof fn unusable_parameters_stop_a_login(
    c: ClientView,
    email: Seq<char>,
    password: Seq<u8>,
    params: KdfParams,
    two_factor: Option<TwoFactorView>,
    e: crate::vault_core::error::Error,
)
    requires
        master_key(password, encode_utf8(lowercase(trim(email))), params) == Err::<
            Seq<u8>,
            crate::vault_core::error::Error,
        >(e),
    ensures
        password_login(c, email, password, params, two_factor) == Err::<
            HttpRequestView,
            ErrorView,
        >(ErrorView::Crypto(e)),
{
}

/// A login with an API key goes to the token endpoint as a form with the key and
/// the device; a secret that is no text cannot be sent.
pub proof fn api_key_login_sends_the_key(
    c: ClientView,
    client_id: Seq<char>,
    client_secret: Seq<u8>,
    url: Seq<char>,
)
    requires
        url_join(c.urls.identity, "connect/token"@) == Some(url),
    ensures
        !valid_utf8(client_secret) ==> api_key_login(c, client_id, client_secret) is Err,
        valid_utf8(client_secret) ==> (api_key_login(c, client_id, client_secret) matches Ok(q) && {
            &&& q.method == Method::Post
            &&& q.url == url
            &&& q.body matches BodyView::Form(f) && {
                &&& f.len() == 7
                &&& form_has(f, "grant_type"@, "client_credentials"@)
                &&& form_has(f, "scope"@, "api"@)
                &&& form_has(f, "client_id"@, client_id)
                &&& form_has(f, "client_secret"@, decode_utf8(client_secret))
                &&& form_has(f, "deviceType"@, "14"@)
                &&& form_has(f, "deviceIdentifier"@, c.device_id)
                &&& form_has(f, "deviceName"@, c.device_name)
            }
        }),
{
    if valid_utf8(client_secret) {
        let s = decode_utf8(client_secret);
        let f = api_key_form(client_id, s, c.device_id, c.device_name);
        assert(f[0] == ("grant_type"@, "client_credentials"@));
        assert(f[1] == ("scope"@, "api"@));
        assert(f[2] == ("client_id"@, client_id));
        assert(f[3] == ("client_secret"@, s));
        assert(f[4] == ("deviceType"@, "14"@));
        assert(f[5] == ("deviceIdentifier"@, c.device_id));
        assert(f[6] == ("deviceName"@, c.device_name));
    }
}

/// A refresh sends the refresh token that is held, and cannot be made without
/// one.
pub proof fn refresh_sends_the_token_held(c: ClientView, url: Seq<char>)
    requires
        url_join(c.urls.identity, "connect/token"@) == Some(url),
    ensures
        c.refresh_token is None ==> refresh_request(c) is Err,
        c.refresh_token matches Some(t) ==> (refresh_request(c) matches Ok(q) && {
            &&& q.method == Method::Post
            &&& q.url == url
            &&& q.body matches BodyView::Form(f) && {
                &&& f.len() == 3
                &&& form_has(f, "grant_type"@, "refresh_token"@)
                &&& form_has(f, "refresh_token"@, t)
                &&& form_has(f, "client_id"@, "cli"@)
            }
        }),
{
    if let Some(t) = c.refresh_token {
        let f = refresh_form(t);
        assert(f[0] == ("grant_type"@, "refresh_token"@));
        assert(f[1] == ("refresh_token"@, t));
        assert(f[2] == ("client_id"@, CLIENT_ID@));
    }
}

/// The key-derivation parameters are asked for with the email that is given.
pub proof fn parameters_are_asked_for_by_email(c: ClientView, email: Seq<char>, url: Seq<char>)
    requires
        url_join(c.urls.identity, "accounts/prelogin"@) == Some(url),
    ensures
        prelogin_request(c, email) matches Ok(q) && q.method == Method::Post && q.url == url
            && q.body == BodyView::Email(email),
{
}

/// Every request to the vault carries the access token, goes to its own address
/// below that of the vault, and cannot be made without a token.
pub proof fn vault_requests_carry_the_token(
    c: ClientView,
    method: Method,
    path: Seq<char>,
    what: &'static str,
    body: BodyView,
    url: Seq<char>,
)
    requires
        url_join(c.urls.api, path) == Some(url),
    ensures
        c.access_token is None ==> vault_request(c, method, path, what, body) is Err,
        c.access_token matches Some(t) ==> vault_request(c, method, path, what, body) == Ok::<
            HttpRequestView,
            ErrorView,
        >(
            HttpRequestView {
                method,
                url,
                headers: seq![("Authorization"@, "Bearer "@ + t)],
                body,
            },
        ),
{
}

/// An item is sent to the server with everything that it has but its identifier;
/// a secure note with the kind of note that the server wants.
pub proof fn item_is_sent_whole(c: CipherView)
    ensures
        ({
            let r = cipher_request(c);
            &&& r.cipher_type == c.cipher_type
            &&& r.folder_id == c.folder_id
            &&& r.organization_id == c.organization_id
            &&& r.key == c.key
            &&& c.name matches Some(n) ==> r.name == n
            &&& r.notes == c.notes
            &&& r.login == c.login
            &&& r.card == c.card
            &&& r.identity == c.identity
            &&& r.fields == c.fields
            &&& c.cipher_type == 2 <==> r.secure_note is Some
        }),
{
}

/// An answer with status 400 that names providers is a challenge for a second
/// factor; any other refusal is told as it came.
pub proof fn challenge_is_told_from_a_refusal(
    status: u16,
    text: Seq<char>,
    body: TwoFactorErrorBody,
)
    ensures
        body.two_factor_providers matches Some(p) ==> p@.len() > 0 && status == 400
            ==> login_failure(status, text, Some(body)) == ErrorView::TwoFactorRequired(p@),
        body.two_factor_providers is None && body.two_factor_providers2 is Some && status == 400
            ==> (login_failure(status, text, Some(body)) is TwoFactorRequired),
        body.two_factor_providers matches Some(p) ==> p@.len() == 0
            && body.two_factor_providers2 is None ==> login_failure(status, text, Some(body)) == (
        ErrorView::ServerStatus { status, message: text }),
        status != 400 ==> login_failure(status, text, Some(body)) == (ErrorView::ServerStatus {
            status,
            message: text,
        }),
        login_failure(status, text, None) == (ErrorView::ServerStatus { status, message: text }),
        body.two_factor_providers is None && body.two_factor_providers2 is None ==> login_failure(
            status,
            text,
            Some(body),
        ) == (ErrorView::ServerStatus { status, message: text }),
{
}

/// A client starts without tokens, for the addresses and the device it is given,
/// and calls itself by its name and version.
pub proof fn fresh_client_has_no_tokens(
    urls: BaseUrlsView,
    device_id: Seq<char>,
    device_name: Seq<char>,
)
    ensures
        fresh_client(urls, device_id, device_name).urls == urls,
        fresh_client(urls, device_id, device_name).device_id == device_id,
        fresh_client(urls, device_id, device_name).device_name == device_name,
        fresh_client(urls, device_id, device_name).access_token is None,
        fresh_client(urls, device_id, device_name).refresh_token is None,
        fresh_client(urls, device_id, device_name).user_agent == "vault/"@ + VERSION@
            + " (Spacecraft-Software)"@,
{
}

/// A request succeeds with a status from 200 to 299.
pub proof fn success_is_two_hundred(status: u16)
    ensures
        is_success(status) <==> status / 100 == 2,
{
}

} // verus!
