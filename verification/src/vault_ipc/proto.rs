//! The messages between the agent and its clients.
use vstd::prelude::*;
use vstd::string::*;
use crate::crypto::wipe_text;
use crate::text::{decimal, decimal_text, join, join_texts, quote, quoted, texts};
use crate::vault_core::error::prefixed;

verus! {

/// A personal API key.
#[derive(Clone)]
pub struct ApiKeyCreds {
    /// Client identifier; not secret.
    pub client_id: String,
    /// Client secret.
    pub client_secret: Vec<u8>,
}

/// Card fields to write. Absent fields are unset in a new item and unchanged
/// in an existing one.
#[derive(Clone)]
pub struct CardWrite {
    /// Cardholder name.
    pub cardholder: Option<String>,
    /// Card brand.
    pub brand: Option<String>,
    /// Card number (secret).
    pub number: Option<Vec<u8>>,
    /// Expiry month.
    pub exp_month: Option<String>,
    /// Expiry year.
    pub exp_year: Option<String>,
    /// Security code (secret).
    pub code: Option<Vec<u8>>,
}

/// Identity fields to write. Absent fields are unset in a new item and
/// unchanged in an existing one.
#[derive(Clone)]
pub struct IdentityWrite {
    /// Title.
    pub title: Option<String>,
    /// First name.
    pub first_name: Option<String>,
    /// Middle name.
    pub middle_name: Option<String>,
    /// Last name.
    pub last_name: Option<String>,
    /// Username.
    pub username: Option<String>,
    /// Company.
    pub company: Option<String>,
    /// Social security or national number (secret).
    pub ssn: Option<Vec<u8>>,
    /// Passport number (secret).
    pub passport_number: Option<Vec<u8>>,
    /// License number (secret).
    pub license_number: Option<Vec<u8>>,
    /// Email.
    pub email: Option<String>,
    /// Phone.
    pub phone: Option<String>,
    /// Address line 1.
    pub address1: Option<String>,
    /// Address line 2.
    pub address2: Option<String>,
    /// Address line 3.
    pub address3: Option<String>,
    /// City.
    pub city: Option<String>,
    /// State or province.
    pub state: Option<String>,
    /// Postal code.
    pub postal_code: Option<String>,
    /// Country.
    pub country: Option<String>,
}

impl Default for CardWrite {
    fn default() -> (r: Self)
        ensures
            r.cardholder is None,
            r.brand is None,
            r.number is None,
            r.exp_month is None,
            r.exp_year is None,
            r.code is None,
    {
        CardWrite {
            cardholder: None,
            brand: None,
            number: None,
            exp_month: None,
            exp_year: None,
            code: None,
        }
    }
}

impl Default for IdentityWrite {
    fn default() -> (r: Self)
        ensures
            r.title is None,
            r.first_name is None,
            r.middle_name is None,
            r.last_name is None,
            r.username is None,
            r.company is None,
            r.ssn is None,
            r.passport_number is None,
            r.license_number is None,
            r.email is None,
            r.phone is None,
            r.address1 is None,
            r.address2 is None,
            r.address3 is None,
            r.city is None,
            r.state is None,
            r.postal_code is None,
            r.country is None,
    {
        IdentityWrite {
            title: None,
            first_name: None,
            middle_name: None,
            last_name: None,
            username: None,
            company: None,
            ssn: None,
            passport_number: None,
            license_number: None,
            email: None,
            phone: None,
            address1: None,
            address2: None,
            address3: None,
            city: None,
            state: None,
            postal_code: None,
            country: None,
        }
    }
}

/// A two-factor code of an authenticator.
#[derive(Clone, Debug)]
pub struct TwoFactorCode {
    /// The code.
    pub token: String,
}

/// A request of a client.
#[derive(Clone)]
pub enum Request {
    /// Is the agent up?
    Ping,
    /// Report the state of the agent.
    Status,
    /// Unlock the agent for an account.
    Unlock {
        /// Server origin.
        server: String,
        /// Account email.
        email: String,
        /// Master password (secret).
        password: Vec<u8>,
        /// Stable identifier of this device.
        device_id: Option<String>,
        /// API key to authenticate with and to remember.
        api_key: Option<ApiKeyCreds>,
        /// Answer to a two-factor challenge.
        two_factor: Option<TwoFactorCode>,
    },
    /// Drop all keys.
    Lock,
    /// Fetch the vault from the server again.
    Sync,
    /// List all items.
    List,
    /// Read one field of one item.
    Get {
        /// Exact identifier of the item.
        id: Option<String>,
        /// Name of the item, where no identifier is given.
        name: String,
        /// The field; the password by default.
        field: Option<Field>,
    },
    /// Copy one field of one item to the agent's clipboard.
    Copy {
        /// Exact identifier of the item.
        id: Option<String>,
        /// Name of the item, where no identifier is given.
        name: String,
        /// The field; the password by default.
        field: Option<Field>,
        /// Seconds until the clipboard is cleared; zero for never.
        clear_after_secs: Option<u64>,
    },
    /// Copy a text of the client's to the agent's clipboard.
    CopyText {
        /// The text (secret).
        text: Vec<u8>,
        /// Seconds until the clipboard is cleared; zero for never.
        clear_after_secs: Option<u64>,
    },
    /// Delete an item.
    Remove {
        /// Identifier or name of the item.
        selector: String,
    },
    /// Create an item.
    Add {
        /// Display name.
        name: String,
        /// Kind of the item.
        cipher_type: u8,
        /// Folder, by identifier or name.
        folder: Option<String>,
        /// Notes.
        notes: Option<String>,
        /// Login username.
        username: Option<String>,
        /// Login password (secret).
        password: Option<Vec<u8>>,
        /// One-time-password secret or URI (secret).
        totp: Option<Vec<u8>>,
        /// Primary login address.
        uri: Option<String>,
        /// Card fields.
        card: Option<CardWrite>,
        /// Identity fields.
        identity: Option<IdentityWrite>,
    },
    /// Change the given fields of an item.
    Edit {
        /// Identifier or name of the item.
        selector: String,
        /// Display name.
        name: Option<String>,
        /// Folder, by identifier or name.
        folder: Option<String>,
        /// Notes.
        notes: Option<String>,
        /// Login username.
        username: Option<String>,
        /// Login password (secret).
        password: Option<Vec<u8>>,
        /// One-time-password secret or URI (secret).
        totp: Option<Vec<u8>>,
        /// Primary login address.
        uri: Option<String>,
        /// Card fields.
        card: Option<CardWrite>,
        /// Identity fields.
        identity: Option<IdentityWrite>,
    },
    /// Protect the user key with a PIN as well.
    PinSet {
        /// The PIN (secret).
        pin: Vec<u8>,
    },
    /// Forget the PIN of an account.
    PinDisable {
        /// Server origin.
        server: String,
        /// Account email.
        email: String,
    },
    /// Report the PIN of an account.
    PinStatus {
        /// Server origin.
        server: String,
        /// Account email.
        email: String,
    },
    /// Unlock the agent from the cache with a PIN.
    UnlockPin {
        /// Server origin.
        server: String,
        /// Account email.
        email: String,
        /// The PIN (secret).
        pin: Vec<u8>,
    },
    /// Report the stored API key of an account.
    ApiKeyStatus {
        /// Server origin.
        server: String,
        /// Account email.
        email: String,
    },
    /// Forget the stored API key of an account.
    ApiKeyForget {
        /// Server origin.
        server: String,
        /// Account email.
        email: String,
    },
    /// Shut the agent down.
    Quit,
}

/// The agent's answer to a request.
#[derive(Clone, Debug)]
pub enum Response {
    /// Success with nothing to tell.
    Done,
    /// The state of the agent.
    Status(Status),
    /// The items.
    List(Vec<ListEntry>),
    /// One field of one item.
    Item(Item),
    /// The item is deleted.
    Removed(Removed),
    /// The item is created or changed.
    Saved(Saved),
    /// The value is on the clipboard.
    Copied(Copied),
    /// The PIN of the account.
    PinStatus(PinStatus),
    /// The API key of the account.
    ApiKeyStatus(ApiKeyStatus),
    /// The request was declined or failed.
    Error(Error),
}

/// Whether an API key is stored. The secret is never told.
#[derive(Clone, Debug)]
pub struct ApiKeyStatus {
    /// Whether a key is stored.
    pub configured: bool,
    /// Its client identifier.
    pub client_id: Option<String>,
}

/// Whether a PIN is set.
#[derive(Clone, Copy, Debug, PartialEq, Eq, Structural)]
pub struct PinStatus {
    /// Whether a PIN is set.
    pub enabled: bool,
    /// Wrong PINs left until it is disabled.
    pub attempts_remaining: u32,
}

/// A value was copied.
#[derive(Clone, Copy, Debug, PartialEq, Eq, Structural)]
pub struct Copied {
    /// Seconds until the clipboard is cleared; zero for never.
    pub clear_after_secs: u64,
}

/// An item was deleted.
#[derive(Clone, Debug)]
pub struct Removed {
    /// Identifier.
    pub id: String,
    /// Name.
    pub name: String,
}

/// An item was created or changed.
#[derive(Clone, Debug)]
pub struct Saved {
    /// Identifier.
    pub id: String,
    /// Name.
    pub name: String,
}

/// The identifier and the name of an item.
pub struct NamedView {
    /// Identifier.
    pub id: Seq<char>,
    /// Name.
    pub name: Seq<char>,
}

/// The state of the agent.
#[derive(Clone, Debug)]
pub struct Status {
    /// Whether the agent holds the user key.
    pub unlocked: bool,
    /// Server origin.
    pub server: Option<String>,
    /// Account email.
    pub email: Option<String>,
    /// Number of items.
    pub items: Option<usize>,
    /// Time of the last sync.
    pub last_sync: Option<String>,
    /// Version of the agent.
    pub agent_version: String,
    /// Name of the clipboard in use.
    pub clipboard_backend: Option<String>,
}

/// What a [`Status`] holds.
pub struct StatusView {
    /// Whether the agent holds the user key.
    pub unlocked: bool,
    /// Server origin.
    pub server: Option<Seq<char>>,
    /// Account email.
    pub email: Option<Seq<char>>,
    /// Number of items.
    pub items: Option<usize>,
    /// Time of the last sync.
    pub last_sync: Option<Seq<char>>,
    /// Version of the agent.
    pub agent_version: Seq<char>,
    /// Name of the clipboard in use.
    pub clipboard_backend: Option<Seq<char>>,
}

/// One row of a list.
#[derive(Clone, Debug)]
pub struct ListEntry {
    /// Identifier.
    pub id: String,
    /// Name.
    pub name: String,
    /// Kind of the item.
    pub cipher_type: u8,
    /// Username of a login.
    pub username: Option<String>,
    /// Name of the folder.
    pub folder: Option<String>,
}

/// What a [`ListEntry`] holds.
pub struct ListEntryView {
    /// Identifier.
    pub id: Seq<char>,
    /// Name.
    pub name: Seq<char>,
    /// Kind of the item.
    pub cipher_type: u8,
    /// Username of a login.
    pub username: Option<Seq<char>>,
    /// Name of the folder.
    pub folder: Option<Seq<char>>,
}

/// One field of one item.
#[derive(Clone, Debug)]
pub struct Item {
    /// Identifier.
    pub id: String,
    /// Name.
    pub name: String,
    /// Kind of the item.
    pub cipher_type: u8,
    /// The field.
    pub field: Field,
    /// Its value (secret).
    pub value: String,
}

/// What an [`Item`] holds.
pub struct ItemView {
    /// Identifier.
    pub id: Seq<char>,
    /// Name.
    pub name: Seq<char>,
    /// Kind of the item.
    pub cipher_type: u8,
    /// The field.
    pub field: Field,
    /// Its value.
    pub value: Seq<char>,
}

/// A decrypted item in brief.
#[derive(Clone, Debug)]
pub struct Cipher {
    /// Name.
    pub name: String,
    /// Kind of the item.
    pub cipher_type: u8,
}

/// A field of an item.
#[derive(Clone, Debug, PartialEq, Eq)]
pub enum Field {
    /// Login password.
    Password,
    /// Login username.
    Username,
    /// Current one-time code.
    Totp,
    /// Notes.
    Notes,
    /// First login address.
    Uri,
    /// Cardholder name.
    CardCardholder,
    /// Card number.
    CardNumber,
    /// Card brand.
    CardBrand,
    /// Card expiry as `MM/YYYY`.
    CardExpiry,
    /// Card security code.
    CardCode,
    /// First, middle and last name.
    IdentityName,
    /// Email.
    IdentityEmail,
    /// Phone.
    IdentityPhone,
    /// The whole address.
    IdentityAddress,
    /// Title.
    IdentityTitle,
    /// First name.
    IdentityFirstName,
    /// Middle name.
    IdentityMiddleName,
    /// Last name.
    IdentityLastName,
    /// Identity username.
    IdentityUsername,
    /// Company.
    IdentityCompany,
    /// Social security or national number.
    IdentitySsn,
    /// Passport number.
    IdentityPassport,
    /// License number.
    IdentityLicense,
    /// Address line 1.
    IdentityAddress1,
    /// Address line 2.
    IdentityAddress2,
    /// Address line 3.
    IdentityAddress3,
    /// City.
    IdentityCity,
    /// State or province.
    IdentityState,
    /// Postal code.
    IdentityPostal,
    /// Country.
    IdentityCountry,
    /// A user-defined field, by its name.
    Custom(String),
}

impl Default for Field {
    fn default() -> (r: Self)
        ensures
            r == Field::Password,
    {
        Field::Password
    }
}

/// The name of a field in messages.
pub open spec fn field_name(f: Field) -> Seq<char> {
    match f {
        Field::Password => "password"@,
        Field::Username => "username"@,
        Field::Totp => "totp"@,
        Field::Notes => "notes"@,
        Field::Uri => "uri"@,
        Field::CardCardholder => "cardcardholder"@,
        Field::CardNumber => "cardnumber"@,
        Field::CardBrand => "cardbrand"@,
        Field::CardExpiry => "cardexpiry"@,
        Field::CardCode => "cardcode"@,
        Field::IdentityName => "identityname"@,
        Field::IdentityEmail => "identityemail"@,
        Field::IdentityPhone => "identityphone"@,
        Field::IdentityAddress => "identityaddress"@,
        Field::IdentityTitle => "identitytitle"@,
        Field::IdentityFirstName => "identityfirstname"@,
        Field::IdentityMiddleName => "identitymiddlename"@,
        Field::IdentityLastName => "identitylastname"@,
        Field::IdentityUsername => "identityusername"@,
        Field::IdentityCompany => "identitycompany"@,
        Field::IdentitySsn => "identityssn"@,
        Field::IdentityPassport => "identitypassport"@,
        Field::IdentityLicense => "identitylicense"@,
        Field::IdentityAddress1 => "identityaddress1"@,
        Field::IdentityAddress2 => "identityaddress2"@,
        Field::IdentityAddress3 => "identityaddress3"@,
        Field::IdentityCity => "identitycity"@,
        Field::IdentityState => "identitystate"@,
        Field::IdentityPostal => "identitypostal"@,
        Field::IdentityCountry => "identitycountry"@,
        Field::Custom(name) => "custom:"@ + name@,
    }
}

impl Field {
    /// The name of the field in messages.
    pub fn name(&self) -> (out: String)
        ensures
            out@ == field_name(*self),
    {
        match self {
            Field::Password => "password".to_owned(),
            Field::Username => "username".to_owned(),
            Field::Totp => "totp".to_owned(),
            Field::Notes => "notes".to_owned(),
            Field::Uri => "uri".to_owned(),
            Field::CardCardholder => "cardcardholder".to_owned(),
            Field::CardNumber => "cardnumber".to_owned(),
            Field::CardBrand => "cardbrand".to_owned(),
            Field::CardExpiry => "cardexpiry".to_owned(),
            Field::CardCode => "cardcode".to_owned(),
            Field::IdentityName => "identityname".to_owned(),
            Field::IdentityEmail => "identityemail".to_owned(),
            Field::IdentityPhone => "identityphone".to_owned(),
            Field::IdentityAddress => "identityaddress".to_owned(),
            Field::IdentityTitle => "identitytitle".to_owned(),
            Field::IdentityFirstName => "identityfirstname".to_owned(),
            Field::IdentityMiddleName => "identitymiddlename".to_owned(),
            Field::IdentityLastName => "identitylastname".to_owned(),
            Field::IdentityUsername => "identityusername".to_owned(),
            Field::IdentityCompany => "identitycompany".to_owned(),
            Field::IdentitySsn => "identityssn".to_owned(),
            Field::IdentityPassport => "identitypassport".to_owned(),
            Field::IdentityLicense => "identitylicense".to_owned(),
            Field::IdentityAddress1 => "identityaddress1".to_owned(),
            Field::IdentityAddress2 => "identityaddress2".to_owned(),
            Field::IdentityAddress3 => "identityaddress3".to_owned(),
            Field::IdentityCity => "identitycity".to_owned(),
            Field::IdentityState => "identitystate".to_owned(),
            Field::IdentityPostal => "identitypostal".to_owned(),
            Field::IdentityCountry => "identitycountry".to_owned(),
            Field::Custom(name) => prefixed("custom:", name.as_str()),
        }
    }
}

/// Why a request was declined or failed.
#[derive(Clone, Debug)]
pub enum Error {
    /// The agent is locked.
    Locked,
    /// The password is wrong.
    BadPassword,
    /// The server cannot be reached or refused.
    Network(String),
    /// A two-factor code is needed.
    TwoFactorRequired,
    /// No item has the name.
    NoSuchItem(String),
    /// Several items have the name.
    AmbiguousItem {
        /// The name.
        name: String,
        /// Identifiers of the items.
        ids: Vec<String>,
    },
    /// The item lacks the field.
    NoSuchField {
        /// The item.
        item: String,
        /// The field.
        field: String,
    },
    /// A field does not decrypt.
    Decrypt(String),
    /// There is no clipboard.
    ClipboardUnavailable,
    /// The session has no access to the server.
    Offline,
    /// The PIN is wrong.
    BadPin {
        /// Wrong PINs left.
        attempts_remaining: u32,
    },
    /// Too many PINs were wrong.
    PinLockedOut,
    /// No PIN is set.
    PinNotSet,
    /// Unlocking by fingerprint is not possible.
    FingerprintUnavailable(String),
    /// Anything else.
    Internal(String),
}

/// What an [`Error`] holds.
pub enum ErrorView {
    /// The agent is locked.
    Locked,
    /// The password is wrong.
    BadPassword,
    /// The server cannot be reached or refused.
    Network(Seq<char>),
    /// A two-factor code is needed.
    TwoFactorRequired,
    /// No item has the name.
    NoSuchItem(Seq<char>),
    /// Several items have the name.
    AmbiguousItem {
        /// The name.
        name: Seq<char>,
        /// Identifiers of the items.
        ids: Seq<Seq<char>>,
    },
    /// The item lacks the field.
    NoSuchField {
        /// The item.
        item: Seq<char>,
        /// The field.
        field: Seq<char>,
    },
    /// A field does not decrypt.
    Decrypt(Seq<char>),
    /// There is no clipboard.
    ClipboardUnavailable,
    /// The session has no access to the server.
    Offline,
    /// The PIN is wrong.
    BadPin {
        /// Wrong PINs left.
        attempts_remaining: u32,
    },
    /// Too many PINs were wrong.
    PinLockedOut,
    /// No PIN is set.
    PinNotSet,
    /// Unlocking by fingerprint is not possible.
    FingerprintUnavailable(Seq<char>),
    /// Anything else.
    Internal(Seq<char>),
}

impl DeepView for Error {
    type V = ErrorView;

    open spec fn deep_view(&self) -> ErrorView {
        match *self {
            Error::Locked => ErrorView::Locked,
            Error::BadPassword => ErrorView::BadPassword,
            Error::Network(s) => ErrorView::Network(s@),
            Error::TwoFactorRequired => ErrorView::TwoFactorRequired,
            Error::NoSuchItem(s) => ErrorView::NoSuchItem(s@),
            Error::AmbiguousItem { name, ids } => ErrorView::AmbiguousItem { name: name@, ids: texts(ids@) },
            Error::NoSuchField { item, field } => ErrorView::NoSuchField { item: item@, field: field@ },
            Error::Decrypt(s) => ErrorView::Decrypt(s@),
            Error::ClipboardUnavailable => ErrorView::ClipboardUnavailable,
            Error::Offline => ErrorView::Offline,
            Error::BadPin { attempts_remaining } => ErrorView::BadPin { attempts_remaining },
            Error::PinLockedOut => ErrorView::PinLockedOut,
            Error::PinNotSet => ErrorView::PinNotSet,
            Error::FingerprintUnavailable(s) => ErrorView::FingerprintUnavailable(s@),
            Error::Internal(s) => ErrorView::Internal(s@),
        }
    }
}

/// The text that describes an error.
pub open spec fn ipc_error_text(e: ErrorView) -> Seq<char> {
    match e {
        ErrorView::Locked => "agent is locked"@,
        ErrorView::BadPassword => "bad password"@,
        ErrorView::Network(s) => "network: "@ + s,
        ErrorView::TwoFactorRequired => "two-factor authentication required (not yet supported)"@,
        ErrorView::NoSuchItem(s) => "no item named "@ + s,
        ErrorView::AmbiguousItem { name, ids } => "name "@ + name + " is ambiguous (matches "@ + decimal(
            ids.len(),
        ) + " items: "@ + join(ids, ", "@) + ")"@,
        ErrorView::NoSuchField { item, field } => "item "@ + item + " has no "@ + field,
        ErrorView::Decrypt(s) => "decrypt failed: "@ + s,
        ErrorView::ClipboardUnavailable => "no clipboard backend available"@,
        ErrorView::Offline => "offline session — unlock again while online to sync or modify items"@,
        ErrorView::BadPin { attempts_remaining } => "incorrect PIN ("@ + decimal(
            attempts_remaining as nat,
        ) + " attempt(s) left)"@,
        ErrorView::PinLockedOut => "too many incorrect PINs — PIN disabled; unlock with your master password"@,
        ErrorView::PinNotSet => "no PIN is set — run `vault pin set` after unlocking"@,
        ErrorView::FingerprintUnavailable(s) => "fingerprint unlock unavailable: "@ + s,
        ErrorView::Internal(s) => "internal: "@ + s,
    }
}

impl Error {
    /// The text that describes the error.
    pub fn message(&self) -> (out: String)
        ensures
            out@ == ipc_error_text(self.deep_view()),
    {
        match self {
            Error::Locked => "agent is locked".to_owned(),
            Error::BadPassword => "bad password".to_owned(),
            Error::Network(s) => prefixed("network: ", s.as_str()),
            Error::TwoFactorRequired => "two-factor authentication required (not yet supported)".to_owned(),
            Error::NoSuchItem(s) => prefixed("no item named ", s.as_str()),
            Error::AmbiguousItem { name, ids } => {
                let mut out: String = prefixed("name ", name.as_str());
                out.append(" is ambiguous (matches ");
                out.append(decimal_text(ids.len() as u64).as_str());
                out.append(" items: ");
                out.append(join_texts(ids, ", ").as_str());
                out.append(")");
                out
            },
            Error::NoSuchField { item, field } => {
                let mut out: String = prefixed("item ", item.as_str());
                out.append(" has no ");
                out.append(field.as_str());
                out
            },
            Error::Decrypt(s) => prefixed("decrypt failed: ", s.as_str()),
            Error::ClipboardUnavailable => "no clipboard backend available".to_owned(),
            Error::Offline => "offline session — unlock again while online to sync or modify items".to_owned(),
            Error::BadPin { attempts_remaining } => {
                let mut out: String = prefixed(
                    "incorrect PIN (",
                    decimal_text(*attempts_remaining as u64).as_str(),
                );
                out.append(" attempt(s) left)");
                out
            },
            Error::PinLockedOut => "too many incorrect PINs — PIN disabled; unlock with your master password".to_owned(),
            Error::PinNotSet => "no PIN is set — run `vault pin set` after unlocking".to_owned(),
            Error::FingerprintUnavailable(s) => prefixed("fingerprint unlock unavailable: ", s.as_str()),
            Error::Internal(s) => prefixed("internal: ", s.as_str()),
        }
    }
}

impl DeepView for Removed {
    type V = NamedView;

    open spec fn deep_view(&self) -> NamedView {
        NamedView {
            id: self.id@,
            name: self.name@,
        }
    }
}

impl DeepView for Saved {
    type V = NamedView;

    open spec fn deep_view(&self) -> NamedView {
        NamedView {
            id: self.id@,
            name: self.name@,
        }
    }
}

impl DeepView for Status {
    type V = StatusView;

    open spec fn deep_view(&self) -> StatusView {
        StatusView {
            unlocked: self.unlocked,
            server: self.server.deep_view(),
            email: self.email.deep_view(),
            items: self.items,
            last_sync: self.last_sync.deep_view(),
            agent_version: self.agent_version@,
            clipboard_backend: self.clipboard_backend.deep_view(),
        }
    }
}

impl DeepView for ListEntry {
    type V = ListEntryView;

    open spec fn deep_view(&self) -> ListEntryView {
        ListEntryView {
            id: self.id@,
            name: self.name@,
            cipher_type: self.cipher_type,
            username: self.username.deep_view(),
            folder: self.folder.deep_view(),
        }
    }
}

impl Drop for Item {
    /// Wipes the value.
    fn drop(&mut self)
        opens_invariants none
        no_unwind
    {
        wipe_text(&mut self.value);
    }
}

impl DeepView for Item {
    type V = ItemView;

    open spec fn deep_view(&self) -> ItemView {
        ItemView {
            id: self.id@,
            name: self.name@,
            cipher_type: self.cipher_type,
            field: self.field,
            value: self.value@,
        }
    }
}

/// An optional text for logs.
pub open spec fn option_text(o: Option<Seq<char>>) -> Seq<char> {
    match o {
        None => "None"@,
        Some(s) => "Some("@ + quoted(s) + ")"@,
    }
}

/// The presence of a secret for logs.
pub open spec fn presence_text(present: bool) -> Seq<char> {
    if present {
        "Some(\"<redacted>\")"@
    } else {
        "None"@
    }
}

pub(crate) fn show_option(o: &Option<String>) -> (out: String)
    ensures
        out@ == option_text(o.deep_view()),
{
    match o {
        None => "None".to_owned(),
        Some(s) => {
            let mut out: String = prefixed("Some(", quote(s.as_str()).as_str());
            out.append(")");
            out
        },
    }
}

fn show_presence(present: bool) -> (out: String)
    ensures
        out@ == presence_text(present),
{
    if present {
        "Some(\"<redacted>\")".to_owned()
    } else {
        "None".to_owned()
    }
}

/// A CardWrite for logs. Of a secret field, only whether it is present is told.
pub open spec fn card_debug(
    cardholder: Option<Seq<char>>,
    brand: Option<Seq<char>>,
    number: bool,
    exp_month: Option<Seq<char>>,
    exp_year: Option<Seq<char>>,
    code: bool,
) -> Seq<char> {
    "CardWrite { "@ + "cardholder: "@ + option_text(cardholder)
        + ", brand: "@ + option_text(brand)
        + ", number: "@ + presence_text(number)
        + ", exp_month: "@ + option_text(exp_month)
        + ", exp_year: "@ + option_text(exp_year)
        + ", code: "@ + presence_text(code)
        + " }"@
}

impl CardWrite {
    /// The fields for logs, without the secrets.
    pub fn debug_text(&self) -> (out: String)
        ensures
            out@ == card_debug(
                self.cardholder.deep_view(),
                self.brand.deep_view(),
                self.number is Some,
                self.exp_month.deep_view(),
                self.exp_year.deep_view(),
                self.code is Some,
            ),
    {
        let mut out: String = "CardWrite { ".to_owned();
        out.append("cardholder: ");
        out.append(show_option(&self.cardholder).as_str());
        out.append(", brand: ");
        out.append(show_option(&self.brand).as_str());
        out.append(", number: ");
        out.append(show_presence(self.number.is_some()).as_str());
        out.append(", exp_month: ");
        out.append(show_option(&self.exp_month).as_str());
        out.append(", exp_year: ");
        out.append(show_option(&self.exp_year).as_str());
        out.append(", code: ");
        out.append(show_presence(self.code.is_some()).as_str());
        out.append(" }");
        out
    }
}

/// A IdentityWrite for logs. Of a secret field, only whether it is present is told.
pub open spec fn identity_debug(
    title: Option<Seq<char>>,
    first_name: Option<Seq<char>>,
    middle_name: Option<Seq<char>>,
    last_name: Option<Seq<char>>,
    username: Option<Seq<char>>,
    company: Option<Seq<char>>,
    ssn: bool,
    passport_number: bool,
    license_number: bool,
    email: Option<Seq<char>>,
    phone: Option<Seq<char>>,
    address1: Option<Seq<char>>,
    address2: Option<Seq<char>>,
    address3: Option<Seq<char>>,
    city: Option<Seq<char>>,
    state: Option<Seq<char>>,
    postal_code: Option<Seq<char>>,
    country: Option<Seq<char>>,
) -> Seq<char> {
    "IdentityWrite { "@ + "title: "@ + option_text(title)
        + ", first_name: "@ + option_text(first_name)
        + ", middle_name: "@ + option_text(middle_name)
        + ", last_name: "@ + option_text(last_name)
        + ", username: "@ + option_text(username)
        + ", company: "@ + option_text(company)
        + ", ssn: "@ + presence_text(ssn)
        + ", passport_number: "@ + presence_text(passport_number)
        + ", license_number: "@ + presence_text(license_number)
        + ", email: "@ + option_text(email)
        + ", phone: "@ + option_text(phone)
        + ", address1: "@ + option_text(address1)
        + ", address2: "@ + option_text(address2)
        + ", address3: "@ + option_text(address3)
        + ", city: "@ + option_text(city)
        + ", state: "@ + option_text(state)
        + ", postal_code: "@ + option_text(postal_code)
        + ", country: "@ + option_text(country)
        + " }"@
}

impl IdentityWrite {
    /// The fields for logs, without the secrets.
    pub fn debug_text(&self) -> (out: String)
        ensures
            out@ == identity_debug(
                self.title.deep_view(),
                self.first_name.deep_view(),
                self.middle_name.deep_view(),
                self.last_name.deep_view(),
                self.username.deep_view(),
                self.company.deep_view(),
                self.ssn is Some,
                self.passport_number is Some,
                self.license_number is Some,
                self.email.deep_view(),
                self.phone.deep_view(),
                self.address1.deep_view(),
                self.address2.deep_view(),
                self.address3.deep_view(),
                self.city.deep_view(),
                self.state.deep_view(),
                self.postal_code.deep_view(),
                self.country.deep_view(),
            ),
    {
        let mut out: String = "IdentityWrite { ".to_owned();
        out.append("title: ");
        out.append(show_option(&self.title).as_str());
        out.append(", first_name: ");
        out.append(show_option(&self.first_name).as_str());
        out.append(", middle_name: ");
        out.append(show_option(&self.middle_name).as_str());
        out.append(", last_name: ");
        out.append(show_option(&self.last_name).as_str());
        out.append(", username: ");
        out.append(show_option(&self.username).as_str());
        out.append(", company: ");
        out.append(show_option(&self.company).as_str());
        out.append(", ssn: ");
        out.append(show_presence(self.ssn.is_some()).as_str());
        out.append(", passport_number: ");
        out.append(show_presence(self.passport_number.is_some()).as_str());
        out.append(", license_number: ");
        out.append(show_presence(self.license_number.is_some()).as_str());
        out.append(", email: ");
        out.append(show_option(&self.email).as_str());
        out.append(", phone: ");
        out.append(show_option(&self.phone).as_str());
        out.append(", address1: ");
        out.append(show_option(&self.address1).as_str());
        out.append(", address2: ");
        out.append(show_option(&self.address2).as_str());
        out.append(", address3: ");
        out.append(show_option(&self.address3).as_str());
        out.append(", city: ");
        out.append(show_option(&self.city).as_str());
        out.append(", state: ");
        out.append(show_option(&self.state).as_str());
        out.append(", postal_code: ");
        out.append(show_option(&self.postal_code).as_str());
        out.append(", country: ");
        out.append(show_option(&self.country).as_str());
        out.append(" }");
        out
    }
}

/// An API key for logs, without its secret.
pub open spec fn api_key_debug(client_id: Seq<char>) -> Seq<char> {
    "ApiKeyCreds { client_id: "@ + quoted(client_id) + ", client_secret: \"<redacted>\" }"@
}

impl ApiKeyCreds {
    /// The key for logs, without its secret.
    pub fn debug_text(&self) -> (out: String)
        ensures
            out@ == api_key_debug(self.client_id@),
    {
        let mut out: String = prefixed(
            "ApiKeyCreds { client_id: ",
            quote(self.client_id.as_str()).as_str(),
        );
        out.append(", client_secret: \"<redacted>\" }");
        out
    }
}

/// An error tells what it is about: what went wrong, the item, the field, the
/// candidates, or how many attempts are left.
pub proof fn error_tells_what_it_is_about(
    s: Seq<char>,
    t: Seq<char>,
    ids: Seq<Seq<char>>,
    left: u32,
)
    ensures
        ipc_error_text(ErrorView::Network(s)) == "network: "@ + s,
        ipc_error_text(ErrorView::NoSuchItem(s)) == "no item named "@ + s,
        ipc_error_text(ErrorView::NoSuchField { item: s, field: t }) == "item "@ + s + " has no "@
            + t,
        ipc_error_text(ErrorView::Decrypt(s)) == "decrypt failed: "@ + s,
        ipc_error_text(ErrorView::FingerprintUnavailable(s))
            == "fingerprint unlock unavailable: "@ + s,
        ipc_error_text(ErrorView::Internal(s)) == "internal: "@ + s,
        ipc_error_text(ErrorView::AmbiguousItem { name: s, ids }) == "name "@ + s
            + " is ambiguous (matches "@ + decimal(ids.len()) + " items: "@ + join(ids, ", "@)
            + ")"@,
        ipc_error_text(ErrorView::BadPin { attempts_remaining: left }) == "incorrect PIN ("@
            + decimal(left as nat) + " attempt(s) left)"@,
{
}

/// A secret is logged by its presence, and its absence can be told from it.
pub proof fn secrets_are_logged_by_presence()
    ensures
        presence_text(true) != presence_text(false),
        presence_text(true) == "Some(\"<redacted>\")"@,
        presence_text(false) == option_text(None),
{
    reveal_strlit("None");
    reveal_strlit("Some(\"<redacted>\")");
    assert("None"@[0] == 'N');
    assert("Some(\"<redacted>\")"@[0] == 'S');
}

} // verus!
