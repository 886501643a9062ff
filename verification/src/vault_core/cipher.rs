//! Vault items. Every user-visible field of an item is an envelope under the
//! user key, the key of its organization, or a key of the item's own that is
//! wrapped under one of those.
use vstd::prelude::*;
use vstd::slice::slice_subrange;
use vstd::string::*;
use vstd::utf8::{decode_utf8, encode_utf8, valid_utf8};
use crate::crypto::{array16, array32, random_bytes, wipe, wipe_option};
use crate::text::{copy_text, utf8_text};
use crate::vault_core::enc_string::{open_text, opened_text, seal_text, sealed, serialized};
use crate::vault_core::error::{Error, Result};

verus! {

/// An item as the server stores it, its fields encrypted.
#[derive(Debug)]
pub struct Cipher {
    /// Server-assigned identifier.
    pub id: String,
    /// Kind: 1 login, 2 secure note, 3 card, 4 identity.
    pub cipher_type: u8,
    /// Folder that holds the item.
    pub folder_id: Option<String>,
    /// Organization that owns the item.
    pub organization_id: Option<String>,
    /// Key of the item's own, wrapped under the key that would otherwise
    /// encrypt its fields.
    pub key: Option<String>,
    /// Display name.
    pub name: Option<String>,
    /// Notes.
    pub notes: Option<String>,
    /// Login fields.
    pub login: Option<Login>,
    /// Card fields.
    pub card: Option<Card>,
    /// Identity fields.
    pub identity: Option<Identity>,
    /// User-defined fields.
    pub fields: Option<Vec<CustomField>>,
}

/// What a [`Cipher`] holds.
pub struct CipherView {
    /// Server-assigned identifier.
    pub id: Seq<char>,
    /// Kind: 1 login, 2 secure note, 3 card, 4 identity.
    pub cipher_type: u8,
    /// Folder that holds the item.
    pub folder_id: Option<Seq<char>>,
    /// Organization that owns the item.
    pub organization_id: Option<Seq<char>>,
    /// Wrapped key of the item's own.
    pub key: Option<Seq<char>>,
    /// Display name.
    pub name: Option<Seq<char>>,
    /// Notes.
    pub notes: Option<Seq<char>>,
    /// Login fields.
    pub login: Option<LoginView>,
    /// Card fields.
    pub card: Option<CardView>,
    /// Identity fields.
    pub identity: Option<IdentityView>,
    /// User-defined fields.
    pub fields: Option<Seq<CustomFieldView>>,
}

/// The encrypted fields of a login.
#[derive(Debug)]
pub struct Login {
    /// Username.
    pub username: Option<String>,
    /// Password.
    pub password: Option<String>,
    /// One-time-password secret or URI.
    pub totp: Option<String>,
    /// Addresses; the first is the primary one.
    pub uris: Option<Vec<LoginUri>>,
}

/// What a [`Login`] holds.
pub struct LoginView {
    /// Username.
    pub username: Option<Seq<char>>,
    /// Password.
    pub password: Option<Seq<char>>,
    /// One-time-password secret or URI.
    pub totp: Option<Seq<char>>,
    /// Addresses.
    pub uris: Option<Seq<LoginUriView>>,
}

/// One address of a login.
#[derive(Debug)]
pub struct LoginUri {
    /// The address.
    pub uri: Option<String>,
}

/// What a [`LoginUri`] holds.
pub struct LoginUriView {
    /// The address.
    pub uri: Option<Seq<char>>,
}

/// A user-defined field.
#[derive(Debug)]
pub struct CustomField {
    /// Name.
    pub name: Option<String>,
    /// Value.
    pub value: Option<String>,
    /// Kind: 0 text, 1 hidden, 2 boolean.
    pub field_type: u8,
}

/// What a [`CustomField`] holds.
pub struct CustomFieldView {
    /// Name.
    pub name: Option<Seq<char>>,
    /// Value.
    pub value: Option<Seq<char>>,
    /// Kind.
    pub field_type: u8,
}

/// The encrypted fields of a card.
#[derive(Debug)]
pub struct Card {
    /// Cardholder name.
    pub cardholder_name: Option<String>,
    /// Card brand.
    pub brand: Option<String>,
    /// Card number.
    pub number: Option<String>,
    /// Expiry month.
    pub exp_month: Option<String>,
    /// Expiry year.
    pub exp_year: Option<String>,
    /// Security code.
    pub code: Option<String>,
}

/// What a [`Card`] or a [`PlainCard`] holds.
pub struct CardView {
    /// Cardholder name.
    pub cardholder_name: Option<Seq<char>>,
    /// Card brand.
    pub brand: Option<Seq<char>>,
    /// Card number.
    pub number: Option<Seq<char>>,
    /// Expiry month.
    pub exp_month: Option<Seq<char>>,
    /// Expiry year.
    pub exp_year: Option<Seq<char>>,
    /// Security code.
    pub code: Option<Seq<char>>,
}

/// The encrypted fields of an identity.
#[derive(Debug)]
pub struct Identity {
    /// Title.
    pub title: Option<String>,
    /// First name.
    pub first_name: Option<String>,
    /// Middle name.
    pub middle_name: Option<String>,
    /// Last name.
    pub last_name: Option<String>,
    /// Username.
    pub username: Option<String>,
    /// Company.
    pub company: Option<String>,
    /// Social security or national number.
    pub ssn: Option<String>,
    /// Passport number.
    pub passport_number: Option<String>,
    /// License number.
    pub license_number: Option<String>,
    /// Email.
    pub email: Option<String>,
    /// Phone.
    pub phone: Option<String>,
    /// Address line 1.
    pub address1: Option<String>,
    /// Address line 2.
    pub address2: Option<String>,
    /// Address line 3.
    pub address3: Option<String>,
    /// City.
    pub city: Option<String>,
    /// State or province.
    pub state: Option<String>,
    /// Postal code.
    pub postal_code: Option<String>,
    /// Country.
    pub country: Option<String>,
}

/// What an [`Identity`] or a [`PlainIdentity`] holds.
pub struct IdentityView {
    /// Title.
    pub title: Option<Seq<char>>,
    /// First name.
    pub first_name: Option<Seq<char>>,
    /// Middle name.
    pub middle_name: Option<Seq<char>>,
    /// Last name.
    pub last_name: Option<Seq<char>>,
    /// Username.
    pub username: Option<Seq<char>>,
    /// Company.
    pub company: Option<Seq<char>>,
    /// Social security or national number.
    pub ssn: Option<Seq<char>>,
    /// Passport number.
    pub passport_number: Option<Seq<char>>,
    /// License number.
    pub license_number: Option<Seq<char>>,
    /// Email.
    pub email: Option<Seq<char>>,
    /// Phone.
    pub phone: Option<Seq<char>>,
    /// Address line 1.
    pub address1: Option<Seq<char>>,
    /// Address line 2.
    pub address2: Option<Seq<char>>,
    /// Address line 3.
    pub address3: Option<Seq<char>>,
    /// City.
    pub city: Option<Seq<char>>,
    /// State or province.
    pub state: Option<Seq<char>>,
    /// Postal code.
    pub postal_code: Option<Seq<char>>,
    /// Country.
    pub country: Option<Seq<char>>,
}

/// The decrypted fields of a card.
#[derive(Debug)]
pub struct PlainCard {
    /// Cardholder name.
    pub cardholder_name: Option<String>,
    /// Card brand.
    pub brand: Option<String>,
    /// Card number.
    pub number: Option<String>,
    /// Expiry month.
    pub exp_month: Option<String>,
    /// Expiry year.
    pub exp_year: Option<String>,
    /// Security code.
    pub code: Option<String>,
}

/// The decrypted fields of an identity.
#[derive(Debug)]
pub struct PlainIdentity {
    /// Title.
    pub title: Option<String>,
    /// First name.
    pub first_name: Option<String>,
    /// Middle name.
    pub middle_name: Option<String>,
    /// Last name.
    pub last_name: Option<String>,
    /// Username.
    pub username: Option<String>,
    /// Company.
    pub company: Option<String>,
    /// Social security or national number.
    pub ssn: Option<String>,
    /// Passport number.
    pub passport_number: Option<String>,
    /// License number.
    pub license_number: Option<String>,
    /// Email.
    pub email: Option<String>,
    /// Phone.
    pub phone: Option<String>,
    /// Address line 1.
    pub address1: Option<String>,
    /// Address line 2.
    pub address2: Option<String>,
    /// Address line 3.
    pub address3: Option<String>,
    /// City.
    pub city: Option<String>,
    /// State or province.
    pub state: Option<String>,
    /// Postal code.
    pub postal_code: Option<String>,
    /// Country.
    pub country: Option<String>,
}

/// An item with the requested fields decrypted.
#[derive(Debug)]
pub struct PlainCipher {
    /// Server-assigned identifier.
    pub id: String,
    /// Kind: 1 login, 2 secure note, 3 card, 4 identity.
    pub cipher_type: u8,
    /// Folder that holds the item.
    pub folder_id: Option<String>,
    /// Display name.
    pub name: Option<String>,
    /// Notes.
    pub notes: Option<String>,
    /// Login username.
    pub username: Option<String>,
    /// Login password.
    pub password: Option<String>,
    /// One-time-password secret or URI.
    pub totp: Option<String>,
    /// First login address.
    pub primary_uri: Option<String>,
    /// Card fields.
    pub card: Option<PlainCard>,
    /// Identity fields.
    pub identity: Option<PlainIdentity>,
}

/// What a [`PlainCipher`] holds.
pub struct PlainCipherView {
    /// Server-assigned identifier.
    pub id: Seq<char>,
    /// Kind: 1 login, 2 secure note, 3 card, 4 identity.
    pub cipher_type: u8,
    /// Folder that holds the item.
    pub folder_id: Option<Seq<char>>,
    /// Display name.
    pub name: Option<Seq<char>>,
    /// Notes.
    pub notes: Option<Seq<char>>,
    /// Login username.
    pub username: Option<Seq<char>>,
    /// Login password.
    pub password: Option<Seq<char>>,
    /// One-time-password secret or URI.
    pub totp: Option<Seq<char>>,
    /// First login address.
    pub primary_uri: Option<Seq<char>>,
    /// Card fields.
    pub card: Option<CardView>,
    /// Identity fields.
    pub identity: Option<IdentityView>,
}

/// Which fields to decrypt. The name is always decrypted.
#[derive(Clone, Copy, Debug, PartialEq, Eq, Structural)]
pub struct DecryptOptions {
    /// Notes.
    pub notes: bool,
    /// Login username.
    pub username: bool,
    /// Login password.
    pub password: bool,
    /// One-time-password secret.
    pub totp: bool,
    /// First login address.
    pub primary_uri: bool,
    /// Card fields.
    pub card: bool,
    /// Identity fields.
    pub identity: bool,
}

impl DeepView for Cipher {
    type V = CipherView;

    open spec fn deep_view(&self) -> CipherView {
        CipherView {
            id: self.id@,
            cipher_type: self.cipher_type,
            folder_id: self.folder_id.deep_view(),
            organization_id: self.organization_id.deep_view(),
            key: self.key.deep_view(),
            name: self.name.deep_view(),
            notes: self.notes.deep_view(),
            login: self.login.deep_view(),
            card: self.card.deep_view(),
            identity: self.identity.deep_view(),
            fields: self.fields.deep_view(),
        }
    }
}

impl DeepView for Login {
    type V = LoginView;

    open spec fn deep_view(&self) -> LoginView {
        LoginView {
            username: self.username.deep_view(),
            password: self.password.deep_view(),
            totp: self.totp.deep_view(),
            uris: self.uris.deep_view(),
        }
    }
}

impl DeepView for LoginUri {
    type V = LoginUriView;

    open spec fn deep_view(&self) -> LoginUriView {
        LoginUriView {
            uri: self.uri.deep_view(),
        }
    }
}

impl DeepView for CustomField {
    type V = CustomFieldView;

    open spec fn deep_view(&self) -> CustomFieldView {
        CustomFieldView {
            name: self.name.deep_view(),
            value: self.value.deep_view(),
            field_type: self.field_type,
        }
    }
}

impl DeepView for Card {
    type V = CardView;

    open spec fn deep_view(&self) -> CardView {
        CardView {
            cardholder_name: self.cardholder_name.deep_view(),
            brand: self.brand.deep_view(),
            number: self.number.deep_view(),
            exp_month: self.exp_month.deep_view(),
            exp_year: self.exp_year.deep_view(),
            code: self.code.deep_view(),
        }
    }
}

impl Drop for PlainCard {
    /// Wipes the number and the security code.
    fn drop(&mut self)
        opens_invariants none
        no_unwind
    {
        wipe_option(&mut self.number);
        wipe_option(&mut self.code);
    }
}

impl DeepView for PlainCard {
    type V = CardView;

    open spec fn deep_view(&self) -> CardView {
        CardView {
            cardholder_name: self.cardholder_name.deep_view(),
            brand: self.brand.deep_view(),
            number: self.number.deep_view(),
            exp_month: self.exp_month.deep_view(),
            exp_year: self.exp_year.deep_view(),
            code: self.code.deep_view(),
        }
    }
}

impl DeepView for Identity {
    type V = IdentityView;

    open spec fn deep_view(&self) -> IdentityView {
        IdentityView {
            title: self.title.deep_view(),
            first_name: self.first_name.deep_view(),
            middle_name: self.middle_name.deep_view(),
            last_name: self.last_name.deep_view(),
            username: self.username.deep_view(),
            company: self.company.deep_view(),
            ssn: self.ssn.deep_view(),
            passport_number: self.passport_number.deep_view(),
            license_number: self.license_number.deep_view(),
            email: self.email.deep_view(),
            phone: self.phone.deep_view(),
            address1: self.address1.deep_view(),
            address2: self.address2.deep_view(),
            address3: self.address3.deep_view(),
            city: self.city.deep_view(),
            state: self.state.deep_view(),
            postal_code: self.postal_code.deep_view(),
            country: self.country.deep_view(),
        }
    }
}

impl Drop for PlainIdentity {
    /// Wipes the numbers of the identity documents.
    fn drop(&mut self)
        opens_invariants none
        no_unwind
    {
        wipe_option(&mut self.ssn);
        wipe_option(&mut self.passport_number);
        wipe_option(&mut self.license_number);
    }
}

impl DeepView for PlainIdentity {
    type V = IdentityView;

    open spec fn deep_view(&self) -> IdentityView {
        IdentityView {
            title: self.title.deep_view(),
            first_name: self.first_name.deep_view(),
            middle_name: self.middle_name.deep_view(),
            last_name: self.last_name.deep_view(),
            username: self.username.deep_view(),
            company: self.company.deep_view(),
            ssn: self.ssn.deep_view(),
            passport_number: self.passport_number.deep_view(),
            license_number: self.license_number.deep_view(),
            email: self.email.deep_view(),
            phone: self.phone.deep_view(),
            address1: self.address1.deep_view(),
            address2: self.address2.deep_view(),
            address3: self.address3.deep_view(),
            city: self.city.deep_view(),
            state: self.state.deep_view(),
            postal_code: self.postal_code.deep_view(),
            country: self.country.deep_view(),
        }
    }
}

impl Drop for PlainCipher {
    /// Wipes the password, the one-time-password secret and the notes.
    fn drop(&mut self)
        opens_invariants none
        no_unwind
    {
        wipe_option(&mut self.password);
        wipe_option(&mut self.totp);
        wipe_option(&mut self.notes);
    }
}

impl DeepView for PlainCipher {
    type V = PlainCipherView;

    open spec fn deep_view(&self) -> PlainCipherView {
        PlainCipherView {
            id: self.id@,
            cipher_type: self.cipher_type,
            folder_id: self.folder_id.deep_view(),
            name: self.name.deep_view(),
            notes: self.notes.deep_view(),
            username: self.username.deep_view(),
            password: self.password.deep_view(),
            totp: self.totp.deep_view(),
            primary_uri: self.primary_uri.deep_view(),
            card: self.card.deep_view(),
            identity: self.identity.deep_view(),
        }
    }
}

impl Default for Cipher {
    fn default() -> (r: Self)
        ensures
            r.id@.len() == 0,
            r.cipher_type == 0,
            r.folder_id is None,
            r.organization_id is None,
            r.key is None,
            r.name is None,
            r.notes is None,
            r.login is None,
            r.card is None,
            r.identity is None,
            r.fields is None,
    {
        Cipher {
            id: String::new(),
            cipher_type: 0,
            folder_id: None,
            organization_id: None,
            key: None,
            name: None,
            notes: None,
            login: None,
            card: None,
            identity: None,
            fields: None,
        }
    }
}

impl Default for CustomField {
    fn default() -> (r: Self)
        ensures
            r.name is None,
            r.value is None,
            r.field_type == 0,
    {
        CustomField { name: None, value: None, field_type: 0 }
    }
}

impl Default for DecryptOptions {
    fn default() -> (r: Self)
        ensures
            r == nothing_asked(),
    {
        DecryptOptions {
            notes: false,
            username: false,
            password: false,
            totp: false,
            primary_uri: false,
            card: false,
            identity: false,
        }
    }
}

impl Default for Login {
    fn default() -> (r: Self)
        ensures
            r.username is None,
            r.password is None,
            r.totp is None,
            r.uris is None,
    {
        Login {
            username: None,
            password: None,
            totp: None,
            uris: None,
        }
    }
}

impl Default for LoginUri {
    fn default() -> (r: Self)
        ensures
            r.uri is None,
    {
        LoginUri {
            uri: None,
        }
    }
}

impl Default for Card {
    fn default() -> (r: Self)
        ensures
            r.cardholder_name is None,
            r.brand is None,
            r.number is None,
            r.exp_month is None,
            r.exp_year is None,
            r.code is None,
    {
        Card {
            cardholder_name: None,
            brand: None,
            number: None,
            exp_month: None,
            exp_year: None,
            code: None,
        }
    }
}

impl Default for PlainCard {
    fn default() -> (r: Self)
        ensures
            r.cardholder_name is None,
            r.brand is None,
            r.number is None,
            r.exp_month is None,
            r.exp_year is None,
            r.code is None,
    {
        PlainCard {
            cardholder_name: None,
            brand: None,
            number: None,
            exp_month: None,
            exp_year: None,
            code: None,
        }
    }
}

impl Default for Identity {
    fn default() -> (r: Self)
        ensures
            r.title is None,
            r.first_name is None,
            r.middle_name is None,
            r.last_name is None,
            r.username is None,
            r.company is None,
            r.ssn is None,
            r.passport_number is None,
            r.license_number is None,
            r.email is None,
            r.phone is None,
            r.address1 is None,
            r.address2 is None,
            r.address3 is None,
            r.city is None,
            r.state is None,
            r.postal_code is None,
            r.country is None,
    {
        Identity {
            title: None,
            first_name: None,
            middle_name: None,
            last_name: None,
            username: None,
            company: None,
            ssn: None,
            passport_number: None,
            license_number: None,
            email: None,
            phone: None,
            address1: None,
            address2: None,
            address3: None,
            city: None,
            state: None,
            postal_code: None,
            country: None,
        }
    }
}

impl Default for PlainIdentity {
    fn default() -> (r: Self)
        ensures
            r.title is None,
            r.first_name is None,
            r.middle_name is None,
            r.last_name is None,
            r.username is None,
            r.company is None,
            r.ssn is None,
            r.passport_number is None,
            r.license_number is None,
            r.email is None,
            r.phone is None,
            r.address1 is None,
            r.address2 is None,
            r.address3 is None,
            r.city is None,
            r.state is None,
            r.postal_code is None,
            r.country is None,
    {
        PlainIdentity {
            title: None,
            first_name: None,
            middle_name: None,
            last_name: None,
            username: None,
            company: None,
            ssn: None,
            passport_number: None,
            license_number: None,
            email: None,
            phone: None,
            address1: None,
            address2: None,
            address3: None,
            city: None,
            state: None,
            postal_code: None,
            country: None,
        }
    }
}

impl Clone for LoginUri {
    fn clone(&self) -> (r: Self)
        ensures
            r.deep_view() == self.deep_view(),
    {
        LoginUri {
            uri: copy_text(&self.uri),
        }
    }
}

impl Clone for Card {
    fn clone(&self) -> (r: Self)
        ensures
            r.deep_view() == self.deep_view(),
    {
        Card {
            cardholder_name: copy_text(&self.cardholder_name),
            brand: copy_text(&self.brand),
            number: copy_text(&self.number),
            exp_month: copy_text(&self.exp_month),
            exp_year: copy_text(&self.exp_year),
            code: copy_text(&self.code),
        }
    }
}

impl Clone for PlainCard {
    fn clone(&self) -> (r: Self)
        ensures
            r.deep_view() == self.deep_view(),
    {
        PlainCard {
            cardholder_name: copy_text(&self.cardholder_name),
            brand: copy_text(&self.brand),
            number: copy_text(&self.number),
            exp_month: copy_text(&self.exp_month),
            exp_year: copy_text(&self.exp_year),
            code: copy_text(&self.code),
        }
    }
}

impl Clone for Identity {
    fn clone(&self) -> (r: Self)
        ensures
            r.deep_view() == self.deep_view(),
    {
        Identity {
            title: copy_text(&self.title),
            first_name: copy_text(&self.first_name),
            middle_name: copy_text(&self.middle_name),
            last_name: copy_text(&self.last_name),
            username: copy_text(&self.username),
            company: copy_text(&self.company),
            ssn: copy_text(&self.ssn),
            passport_number: copy_text(&self.passport_number),
            license_number: copy_text(&self.license_number),
            email: copy_text(&self.email),
            phone: copy_text(&self.phone),
            address1: copy_text(&self.address1),
            address2: copy_text(&self.address2),
            address3: copy_text(&self.address3),
            city: copy_text(&self.city),
            state: copy_text(&self.state),
            postal_code: copy_text(&self.postal_code),
            country: copy_text(&self.country),
        }
    }
}

impl Clone for PlainIdentity {
    fn clone(&self) -> (r: Self)
        ensures
            r.deep_view() == self.deep_view(),
    {
        PlainIdentity {
            title: copy_text(&self.title),
            first_name: copy_text(&self.first_name),
            middle_name: copy_text(&self.middle_name),
            last_name: copy_text(&self.last_name),
            username: copy_text(&self.username),
            company: copy_text(&self.company),
            ssn: copy_text(&self.ssn),
            passport_number: copy_text(&self.passport_number),
            license_number: copy_text(&self.license_number),
            email: copy_text(&self.email),
            phone: copy_text(&self.phone),
            address1: copy_text(&self.address1),
            address2: copy_text(&self.address2),
            address3: copy_text(&self.address3),
            city: copy_text(&self.city),
            state: copy_text(&self.state),
            postal_code: copy_text(&self.postal_code),
            country: copy_text(&self.country),
        }
    }
}

impl Clone for CustomField {
    fn clone(&self) -> (r: Self)
        ensures
            r.deep_view() == self.deep_view(),
    {
        CustomField {
            name: copy_text(&self.name),
            value: copy_text(&self.value),
            field_type: self.field_type,
        }
    }
}

fn uris_copy(uris: &Vec<LoginUri>) -> (out: Vec<LoginUri>)
    ensures
        out.deep_view() == uris.deep_view(),
{
    let mut out: Vec<LoginUri> = Vec::new();
    let mut i: usize = 0;
    while i < uris.len()
        invariant
            i <= uris.len(),
            out@.len() == i,
            forall|k: int| 0 <= k < i ==> (#[trigger] out@[k]).deep_view() == uris@[k].deep_view(),
        decreases uris.len() - i,
    {
        out.push(uris[i].clone());
        i += 1;
    }
    assert(out.deep_view() =~= uris.deep_view());
    out
}

fn custom_copy(fields: &Vec<CustomField>) -> (out: Vec<CustomField>)
    ensures
        out.deep_view() == fields.deep_view(),
{
    let mut out: Vec<CustomField> = Vec::new();
    let mut i: usize = 0;
    while i < fields.len()
        invariant
            i <= fields.len(),
            out@.len() == i,
            forall|k: int| 0 <= k < i ==> (#[trigger] out@[k]).deep_view() == fields@[k].deep_view(),
        decreases fields.len() - i,
    {
        out.push(fields[i].clone());
        i += 1;
    }
    assert(out.deep_view() =~= fields.deep_view());
    out
}

impl Clone for Login {
    fn clone(&self) -> (r: Self)
        ensures
            r.deep_view() == self.deep_view(),
    {
        Login {
            username: copy_text(&self.username),
            password: copy_text(&self.password),
            totp: copy_text(&self.totp),
            uris: match &self.uris {
                Some(u) => Some(uris_copy(u)),
                None => None,
            },
        }
    }
}

impl Clone for Cipher {
    fn clone(&self) -> (r: Self)
        ensures
            r.deep_view() == self.deep_view(),
    {
        Cipher {
            id: self.id.clone(),
            cipher_type: self.cipher_type,
            folder_id: copy_text(&self.folder_id),
            organization_id: copy_text(&self.organization_id),
            key: copy_text(&self.key),
            name: copy_text(&self.name),
            notes: copy_text(&self.notes),
            login: match &self.login {
                Some(l) => Some(l.clone()),
                None => None,
            },
            card: match &self.card {
                Some(c) => Some(c.clone()),
                None => None,
            },
            identity: match &self.identity {
                Some(i) => Some(i.clone()),
                None => None,
            },
            fields: match &self.fields {
                Some(f) => Some(custom_copy(f)),
                None => None,
            },
        }
    }
}

/// The texts of optional fields.
pub open spec fn field_texts(fields: Seq<Option<String>>) -> Seq<Option<Seq<char>>> {
    fields.map_values(|f: Option<String>| f.deep_view())
}

/// The fields of a card, in order.
pub open spec fn card_fields(v: CardView) -> Seq<Option<Seq<char>>> {
    seq![
        v.cardholder_name,
        v.brand,
        v.number,
        v.exp_month,
        v.exp_year,
        v.code,
    ]
}

/// A card with the given fields.
pub open spec fn card_of_fields(f: Seq<Option<Seq<char>>>) -> CardView {
    CardView {
        cardholder_name: f[0],
        brand: f[1],
        number: f[2],
        exp_month: f[3],
        exp_year: f[4],
        code: f[5],
    }
}

/// The fields of an identity, in order.
pub open spec fn identity_fields(v: IdentityView) -> Seq<Option<Seq<char>>> {
    seq![
        v.title,
        v.first_name,
        v.middle_name,
        v.last_name,
        v.username,
        v.company,
        v.ssn,
        v.passport_number,
        v.license_number,
        v.email,
        v.phone,
        v.address1,
        v.address2,
        v.address3,
        v.city,
        v.state,
        v.postal_code,
        v.country,
    ]
}

/// An identity with the given fields.
pub open spec fn identity_of_fields(f: Seq<Option<Seq<char>>>) -> IdentityView {
    IdentityView {
        title: f[0],
        first_name: f[1],
        middle_name: f[2],
        last_name: f[3],
        username: f[4],
        company: f[5],
        ssn: f[6],
        passport_number: f[7],
        license_number: f[8],
        email: f[9],
        phone: f[10],
        address1: f[11],
        address2: f[12],
        address3: f[13],
        city: f[14],
        state: f[15],
        postal_code: f[16],
        country: f[17],
    }
}

impl Card {
    /// The fields, in order.
    pub fn fields(&self) -> (out: Vec<Option<String>>)
        ensures
            field_texts(out@) == card_fields(self.deep_view()),
    {
        let mut out: Vec<Option<String>> = Vec::new();
        out.push(copy_text(&self.cardholder_name));
        out.push(copy_text(&self.brand));
        out.push(copy_text(&self.number));
        out.push(copy_text(&self.exp_month));
        out.push(copy_text(&self.exp_year));
        out.push(copy_text(&self.code));
        assert(field_texts(out@) =~= card_fields(self.deep_view()));
        out
    }

    /// The value with the given fields.
    pub fn from_fields(fields: Vec<Option<String>>) -> (r: Card)
        requires
            fields@.len() == 6,
        ensures
            r.deep_view() == card_of_fields(field_texts(fields@)),
    {
        Card {
            cardholder_name: copy_text(&fields[0]),
            brand: copy_text(&fields[1]),
            number: copy_text(&fields[2]),
            exp_month: copy_text(&fields[3]),
            exp_year: copy_text(&fields[4]),
            code: copy_text(&fields[5]),
        }
    }
}

impl PlainCard {
    /// The fields, in order.
    pub fn fields(&self) -> (out: Vec<Option<String>>)
        ensures
            field_texts(out@) == card_fields(self.deep_view()),
    {
        let mut out: Vec<Option<String>> = Vec::new();
        out.push(copy_text(&self.cardholder_name));
        out.push(copy_text(&self.brand));
        out.push(copy_text(&self.number));
        out.push(copy_text(&self.exp_month));
        out.push(copy_text(&self.exp_year));
        out.push(copy_text(&self.code));
        assert(field_texts(out@) =~= card_fields(self.deep_view()));
        out
    }

    /// The value with the given fields.
    pub fn from_fields(fields: Vec<Option<String>>) -> (r: PlainCard)
        requires
            fields@.len() == 6,
        ensures
            r.deep_view() == card_of_fields(field_texts(fields@)),
    {
        PlainCard {
            cardholder_name: copy_text(&fields[0]),
            brand: copy_text(&fields[1]),
            number: copy_text(&fields[2]),
            exp_month: copy_text(&fields[3]),
            exp_year: copy_text(&fields[4]),
            code: copy_text(&fields[5]),
        }
    }
}

impl Identity {
    /// The fields, in order.
    pub fn fields(&self) -> (out: Vec<Option<String>>)
        ensures
            field_texts(out@) == identity_fields(self.deep_view()),
    {
        let mut out: Vec<Option<String>> = Vec::new();
        out.push(copy_text(&self.title));
        out.push(copy_text(&self.first_name));
        out.push(copy_text(&self.middle_name));
        out.push(copy_text(&self.last_name));
        out.push(copy_text(&self.username));
        out.push(copy_text(&self.company));
        out.push(copy_text(&self.ssn));
        out.push(copy_text(&self.passport_number));
        out.push(copy_text(&self.license_number));
        out.push(copy_text(&self.email));
        out.push(copy_text(&self.phone));
        out.push(copy_text(&self.address1));
        out.push(copy_text(&self.address2));
        out.push(copy_text(&self.address3));
        out.push(copy_text(&self.city));
        out.push(copy_text(&self.state));
        out.push(copy_text(&self.postal_code));
        out.push(copy_text(&self.country));
        assert(field_texts(out@) =~= identity_fields(self.deep_view()));
        out
    }

    /// The value with the given fields.
    pub fn from_fields(fields: Vec<Option<String>>) -> (r: Identity)
        requires
            fields@.len() == 18,
        ensures
            r.deep_view() == identity_of_fields(field_texts(fields@)),
    {
        Identity {
            title: copy_text(&fields[0]),
            first_name: copy_text(&fields[1]),
            middle_name: copy_text(&fields[2]),
            last_name: copy_text(&fields[3]),
            username: copy_text(&fields[4]),
            company: copy_text(&fields[5]),
            ssn: copy_text(&fields[6]),
            passport_number: copy_text(&fields[7]),
            license_number: copy_text(&fields[8]),
            email: copy_text(&fields[9]),
            phone: copy_text(&fields[10]),
            address1: copy_text(&fields[11]),
            address2: copy_text(&fields[12]),
            address3: copy_text(&fields[13]),
            city: copy_text(&fields[14]),
            state: copy_text(&fields[15]),
            postal_code: copy_text(&fields[16]),
            country: copy_text(&fields[17]),
        }
    }
}

impl PlainIdentity {
    /// The fields, in order.
    pub fn fields(&self) -> (out: Vec<Option<String>>)
        ensures
            field_texts(out@) == identity_fields(self.deep_view()),
    {
        let mut out: Vec<Option<String>> = Vec::new();
        out.push(copy_text(&self.title));
        out.push(copy_text(&self.first_name));
        out.push(copy_text(&self.middle_name));
        out.push(copy_text(&self.last_name));
        out.push(copy_text(&self.username));
        out.push(copy_text(&self.company));
        out.push(copy_text(&self.ssn));
        out.push(copy_text(&self.passport_number));
        out.push(copy_text(&self.license_number));
        out.push(copy_text(&self.email));
        out.push(copy_text(&self.phone));
        out.push(copy_text(&self.address1));
        out.push(copy_text(&self.address2));
        out.push(copy_text(&self.address3));
        out.push(copy_text(&self.city));
        out.push(copy_text(&self.state));
        out.push(copy_text(&self.postal_code));
        out.push(copy_text(&self.country));
        assert(field_texts(out@) =~= identity_fields(self.deep_view()));
        out
    }

    /// The value with the given fields.
    pub fn from_fields(fields: Vec<Option<String>>) -> (r: PlainIdentity)
        requires
            fields@.len() == 18,
        ensures
            r.deep_view() == identity_of_fields(field_texts(fields@)),
    {
        PlainIdentity {
            title: copy_text(&fields[0]),
            first_name: copy_text(&fields[1]),
            middle_name: copy_text(&fields[2]),
            last_name: copy_text(&fields[3]),
            username: copy_text(&fields[4]),
            company: copy_text(&fields[5]),
            ssn: copy_text(&fields[6]),
            passport_number: copy_text(&fields[7]),
            license_number: copy_text(&fields[8]),
            email: copy_text(&fields[9]),
            phone: copy_text(&fields[10]),
            address1: copy_text(&fields[11]),
            address2: copy_text(&fields[12]),
            address3: copy_text(&fields[13]),
            city: copy_text(&fields[14]),
            state: copy_text(&fields[15]),
            postal_code: copy_text(&fields[16]),
            country: copy_text(&fields[17]),
        }
    }
}

/// Nothing but the name.
pub open spec fn nothing_asked() -> DecryptOptions {
    DecryptOptions {
        notes: false,
        username: false,
        password: false,
        totp: false,
        primary_uri: false,
        card: false,
        identity: false,
    }
}

/// Every field.
pub open spec fn everything_asked() -> DecryptOptions {
    DecryptOptions {
        notes: true,
        username: true,
        password: true,
        totp: true,
        primary_uri: true,
        card: true,
        identity: true,
    }
}

impl DecryptOptions {
    /// Every field.
    pub fn all() -> (r: DecryptOptions)
        ensures
            r == everything_asked(),
    {
        DecryptOptions {
            notes: true,
            username: true,
            password: true,
            totp: true,
            primary_uri: true,
            card: true,
            identity: true,
        }
    }

    /// The username alone.
    pub fn username_only() -> (r: DecryptOptions)
        ensures
            r == (DecryptOptions { username: true, ..nothing_asked() }),
    {
        DecryptOptions {
            notes: false,
            username: true,
            password: false,
            totp: false,
            primary_uri: false,
            card: false,
            identity: false,
        }
    }
}

/// The two halves of a 64-byte key, or what is wrong with it.
pub open spec fn key_halves(plain: Seq<u8>) -> Result<(Seq<u8>, Seq<u8>)> {
    if plain.len() != 64 {
        Err(Error::EncString("user-key plaintext must be 64 bytes"))
    } else {
        Ok((plain.take(32), plain.skip(32)))
    }
}

/// The key pair inside an envelope.
pub open spec fn unwrapped_key(s: Seq<char>, enc: Seq<u8>, mac: Seq<u8>) -> Result<
    (Seq<u8>, Seq<u8>),
> {
    match opened_text(s, enc, mac) {
        Err(e) => Err(e),
        Ok(plain) => key_halves(plain),
    }
}

/// The text that decrypted bytes encode.
pub open spec fn text_of_bytes(plain: Seq<u8>) -> Result<Seq<char>> {
    if valid_utf8(plain) {
        Ok(decode_utf8(plain))
    } else {
        Err(Error::EncString("field is not valid UTF-8"))
    }
}

/// What decrypting an optional field gives. An absent or empty field has no
/// value.
pub open spec fn opened_field(f: Option<Seq<char>>, enc: Seq<u8>, mac: Seq<u8>) -> Result<
    Option<Seq<char>>,
> {
    match f {
        None => Ok(None),
        Some(s) => if s.len() == 0 {
            Ok(None)
        } else {
            match opened_text(s, enc, mac) {
                Err(e) => Err(e),
                Ok(plain) => match text_of_bytes(plain) {
                    Err(e) => Err(e),
                    Ok(t) => Ok(Some(t)),
                },
            }
        },
    }
}

/// What decrypting a field gives where it is asked for, and no value where it
/// is not.
pub open spec fn opened_if(
    asked: bool,
    f: Option<Seq<char>>,
    enc: Seq<u8>,
    mac: Seq<u8>,
) -> Result<Option<Seq<char>>> {
    if asked {
        opened_field(f, enc, mac)
    } else {
        Ok(None)
    }
}

/// The error of the first field from `i` on that does not decrypt.
pub open spec fn first_failure(
    fields: Seq<Option<Seq<char>>>,
    enc: Seq<u8>,
    mac: Seq<u8>,
    i: int,
) -> Option<Error>
    decreases fields.len() - i,
{
    if i >= fields.len() {
        None
    } else {
        match opened_field(fields[i], enc, mac) {
            Err(e) => Some(e),
            Ok(_) => first_failure(fields, enc, mac, i + 1),
        }
    }
}

/// What decrypting fields in order gives: their values, or the first error.
pub open spec fn opened_fields(
    fields: Seq<Option<Seq<char>>>,
    enc: Seq<u8>,
    mac: Seq<u8>,
) -> Result<Seq<Option<Seq<char>>>> {
    match first_failure(fields, enc, mac, 0) {
        Some(e) => Err(e),
        None => Ok(fields.map_values(|f: Option<Seq<char>>| opened_field(f, enc, mac)->Ok_0)),
    }
}

/// What decrypting a card gives, where it is present and asked for.
pub open spec fn opened_card(
    asked: bool,
    card: Option<CardView>,
    enc: Seq<u8>,
    mac: Seq<u8>,
) -> Result<Option<CardView>> {
    match card {
        Some(c) if asked => match opened_fields(card_fields(c), enc, mac) {
            Err(e) => Err(e),
            Ok(f) => Ok(Some(card_of_fields(f))),
        },
        _ => Ok(None),
    }
}

/// What decrypting an identity gives, where it is present and asked for.
pub open spec fn opened_identity(
    asked: bool,
    identity: Option<IdentityView>,
    enc: Seq<u8>,
    mac: Seq<u8>,
) -> Result<Option<IdentityView>> {
    match identity {
        Some(i) if asked => match opened_fields(identity_fields(i), enc, mac) {
            Err(e) => Err(e),
            Ok(f) => Ok(Some(identity_of_fields(f))),
        },
        _ => Ok(None),
    }
}

/// The first address of a login.
pub open spec fn primary_uri(uris: Option<Seq<LoginUriView>>) -> Option<Seq<char>> {
    match uris {
        Some(u) if u.len() > 0 => u[0].uri,
        _ => None,
    }
}

/// The key pair that encrypts an item's fields: its own, if it has one, else
/// the given one.
pub open spec fn item_keys(key: Option<Seq<char>>, enc: Seq<u8>, mac: Seq<u8>) -> Result<
    (Seq<u8>, Seq<u8>),
> {
    match key {
        Some(k) if k.len() > 0 => unwrapped_key(k, enc, mac),
        _ => Ok((enc, mac)),
    }
}

/// What decrypting an item's name gives.
pub open spec fn opened_name(c: CipherView, enc: Seq<u8>, mac: Seq<u8>) -> Result<
    Option<Seq<char>>,
> {
    match item_keys(c.key, enc, mac) {
        Err(e) => Err(e),
        Ok((k, m)) => opened_field(c.name, k, m),
    }
}

/// What decrypting the fields of a login that are asked for gives: username,
/// password, one-time-password secret and first address, in this order.
pub open spec fn opened_login(
    login: Option<LoginView>,
    enc: Seq<u8>,
    mac: Seq<u8>,
    opts: DecryptOptions,
) -> Result<Seq<Option<Seq<char>>>> {
    match login {
        None => Ok(seq![None, None, None, None]),
        Some(l) => opened_fields(
            seq![
                if opts.username { l.username } else { None },
                if opts.password { l.password } else { None },
                if opts.totp { l.totp } else { None },
                if opts.primary_uri { primary_uri(l.uris) } else { None },
            ],
            enc,
            mac,
        ),
    }
}

/// What decrypting an item under its own keys gives: the name, the notes, the
/// card, the identity and the login fields, in this order, or the first error.
pub open spec fn opened_under(
    c: CipherView,
    enc: Seq<u8>,
    mac: Seq<u8>,
    opts: DecryptOptions,
) -> Result<PlainCipherView> {
    match opened_field(c.name, enc, mac) {
        Err(e) => Err(e),
        Ok(name) => match opened_if(opts.notes, c.notes, enc, mac) {
            Err(e) => Err(e),
            Ok(notes) => match opened_card(opts.card, c.card, enc, mac) {
                Err(e) => Err(e),
                Ok(card) => match opened_identity(opts.identity, c.identity, enc, mac) {
                    Err(e) => Err(e),
                    Ok(identity) => match opened_login(c.login, enc, mac, opts) {
                        Err(e) => Err(e),
                        Ok(login) => Ok(
                            PlainCipherView {
                                id: c.id,
                                cipher_type: c.cipher_type,
                                folder_id: c.folder_id,
                                name,
                                notes,
                                username: login[0],
                                password: login[1],
                                totp: login[2],
                                primary_uri: login[3],
                                card,
                                identity,
                            },
                        ),
                    },
                },
            },
        },
    }
}

/// What decrypting an item gives.
pub open spec fn opened_cipher(
    c: CipherView,
    enc: Seq<u8>,
    mac: Seq<u8>,
    opts: DecryptOptions,
) -> Result<PlainCipherView> {
    match item_keys(c.key, enc, mac) {
        Err(e) => Err(e),
        Ok((k, m)) => opened_under(c, k, m, opts),
    }
}

/// Initialization vectors for one item: one for each of its fields.
pub const ITEM_IVS: usize = 30;

/// Bytes of the initialization vectors for one item.
pub const ITEM_IV_BYTES: usize = 480;

/// Place of the name's initialization vector among those of an item.
pub const NAME_IV: usize = 0;

/// Place of the notes' initialization vector.
pub const NOTES_IV: usize = 1;

/// Place of the first initialization vector of a login, that of the username;
/// those of the password, the one-time-password secret and the address follow.
pub const LOGIN_IV: usize = 2;

/// Place of the first initialization vector of a card.
pub const CARD_IV: usize = 6;

/// Place of the first initialization vector of an identity.
pub const IDENTITY_IV: usize = 12;

/// The initialization vector at a place among those of an item.
pub open spec fn iv_at(ivs: Seq<u8>, k: int) -> Seq<u8> {
    ivs.subrange(16 * k, 16 * k + 16)
}

/// The initialization vectors that were drawn, if any.
pub open spec fn drawn(ivs: Option<Vec<u8>>) -> Option<Seq<u8>> {
    match ivs {
        Some(b) => Some(b@),
        None => None,
    }
}

/// What was drawn is enough for an item, or nothing.
pub open spec fn enough_ivs(ivs: Option<Seq<u8>>) -> bool {
    ivs matches Some(b) ==> b.len() == ITEM_IV_BYTES
}

/// Every field of an item has an initialization vector of its own.
pub proof fn ivs_do_not_overlap(ivs: Seq<u8>, j: int, k: int, n: int)
    requires
        ivs.len() == ITEM_IV_BYTES,
        0 <= j < ITEM_IVS,
        0 <= k < ITEM_IVS,
        j != k,
        0 <= n < 16,
    ensures
        iv_at(ivs, j).len() == 16,
        iv_at(ivs, j)[n] == ivs[16 * j + n],
        !(16 * k <= 16 * j + n < 16 * k + 16),
{
}

/// `out` is the envelope around the text `plain` under an initialization
/// vector.
pub open spec fn seals(
    out: Seq<char>,
    plain: Seq<char>,
    enc: Seq<u8>,
    mac: Seq<u8>,
    iv: Seq<u8>,
) -> bool {
    &&& out == serialized(sealed(enc, mac, iv, encode_utf8(plain)))
    &&& out.len() > 0
    &&& opened_text(out, enc, mac) == Ok::<Seq<u8>, Error>(encode_utf8(plain))
}

/// `out` is an envelope around `plain` where that is present, and absent where
/// it is not.
pub open spec fn seals_field(
    out: Option<Seq<char>>,
    plain: Option<Seq<char>>,
    enc: Seq<u8>,
    mac: Seq<u8>,
    iv: Seq<u8>,
) -> bool {
    match (out, plain) {
        (Some(o), Some(p)) => seals(o, p, enc, mac, iv),
        (None, None) => true,
        _ => false,
    }
}

/// Each field of `out` is an envelope around that of `plain`, under the
/// initialization vectors from a place on.
pub open spec fn seals_fields(
    out: Seq<Option<Seq<char>>>,
    plain: Seq<Option<Seq<char>>>,
    enc: Seq<u8>,
    mac: Seq<u8>,
    ivs: Seq<u8>,
    from: int,
) -> bool {
    &&& out.len() == plain.len()
    &&& forall|i: int|
        0 <= i < out.len() ==> seals_field(
            #[trigger] out[i],
            plain[i],
            enc,
            mac,
            iv_at(ivs, from + i),
        )
}

/// What of a plain item its kind stores: the login fields of a login, the card
/// of a card, the identity of an identity.
pub open spec fn stored_part(p: PlainCipherView) -> PlainCipherView {
    PlainCipherView {
        username: if p.cipher_type == 1 { p.username } else { None },
        password: if p.cipher_type == 1 { p.password } else { None },
        totp: if p.cipher_type == 1 { p.totp } else { None },
        primary_uri: if p.cipher_type == 1 { p.primary_uri } else { None },
        card: if p.cipher_type == 3 { p.card } else { None },
        identity: if p.cipher_type == 4 { p.identity } else { None },
        ..p
    }
}

/// The login of an encrypted item: present exactly for a login, each of its
/// fields an envelope around the plain one, at most one address.
pub open spec fn seals_login(
    login: Option<LoginView>,
    p: PlainCipherView,
    enc: Seq<u8>,
    mac: Seq<u8>,
    ivs: Seq<u8>,
) -> bool {
    match login {
        None => p.cipher_type != 1,
        Some(l) => {
            &&& p.cipher_type == 1
            &&& seals_field(l.username, p.username, enc, mac, iv_at(ivs, LOGIN_IV as int))
            &&& seals_field(l.password, p.password, enc, mac, iv_at(ivs, LOGIN_IV + 1))
            &&& seals_field(l.totp, p.totp, enc, mac, iv_at(ivs, LOGIN_IV + 2))
            &&& seals_field(
                primary_uri(l.uris),
                p.primary_uri,
                enc,
                mac,
                iv_at(ivs, LOGIN_IV + 3),
            )
            &&& match l.uris {
                None => p.primary_uri is None,
                Some(u) => p.primary_uri is Some && u.len() == 1,
            }
        },
    }
}

/// `c` is a new item that holds `p` encrypted, under the initialization
/// vectors `ivs`.
pub open spec fn seals_cipher(
    c: CipherView,
    p: PlainCipherView,
    enc: Seq<u8>,
    mac: Seq<u8>,
    ivs: Seq<u8>,
) -> bool {
    &&& c.id == p.id
    &&& c.cipher_type == p.cipher_type
    &&& c.folder_id == p.folder_id
    &&& c.organization_id is None
    &&& c.key is None
    &&& c.fields is None
    &&& seals_field(c.name, p.name, enc, mac, iv_at(ivs, NAME_IV as int))
    &&& seals_field(c.notes, p.notes, enc, mac, iv_at(ivs, NOTES_IV as int))
    &&& seals_login(c.login, p, enc, mac, ivs)
    &&& seals_card(c.card, stored_part(p).card, enc, mac, ivs)
    &&& seals_identity(c.identity, stored_part(p).identity, enc, mac, ivs)
}

/// The part of a plain item that `opts` asks for.
pub open spec fn asked_part(p: PlainCipherView, opts: DecryptOptions) -> PlainCipherView {
    PlainCipherView {
        notes: if opts.notes { p.notes } else { None },
        username: if opts.username { p.username } else { None },
        password: if opts.password { p.password } else { None },
        totp: if opts.totp { p.totp } else { None },
        primary_uri: if opts.primary_uri { p.primary_uri } else { None },
        card: if opts.card { p.card } else { None },
        identity: if opts.identity { p.identity } else { None },
        ..p
    }
}

/// A sealed field opens to what was sealed.
pub proof fn sealed_field_opens(
    out: Option<Seq<char>>,
    plain: Option<Seq<char>>,
    enc: Seq<u8>,
    mac: Seq<u8>,
    iv: Seq<u8>,
)
    requires
        seals_field(out, plain, enc, mac, iv),
    ensures
        opened_field(out, enc, mac) == Ok::<Option<Seq<char>>, Error>(plain),
{
    if let Some(p) = plain {
        vstd::utf8::encode_utf8_valid_utf8(p);
        vstd::utf8::encode_utf8_decode_utf8(p);
    }
}

proof fn no_failure(fields: Seq<Option<Seq<char>>>, enc: Seq<u8>, mac: Seq<u8>, i: int)
    requires
        0 <= i <= fields.len(),
        forall|k: int| i <= k < fields.len() ==> opened_field(#[trigger] fields[k], enc, mac) is Ok,
    ensures
        first_failure(fields, enc, mac, i) is None,
    decreases fields.len() - i,
{
    if i < fields.len() {
        assert(opened_field(fields[i], enc, mac) is Ok);
        no_failure(fields, enc, mac, i + 1);
    }
}

/// Fields that decrypt one by one decrypt in order.
pub proof fn fields_open(
    fields: Seq<Option<Seq<char>>>,
    plain: Seq<Option<Seq<char>>>,
    enc: Seq<u8>,
    mac: Seq<u8>,
)
    requires
        fields.len() == plain.len(),
        forall|k: int|
            0 <= k < fields.len() ==> opened_field(#[trigger] fields[k], enc, mac) == Ok::<
                Option<Seq<char>>,
                Error,
            >(plain[k]),
    ensures
        opened_fields(fields, enc, mac) == Ok::<Seq<Option<Seq<char>>>, Error>(plain),
{
    no_failure(fields, enc, mac, 0);
    assert(opened_fields(fields, enc, mac)->Ok_0 =~= plain);
}

/// Fields that decrypt in order decrypt one by one.
pub proof fn each_field_opens(
    fields: Seq<Option<Seq<char>>>,
    enc: Seq<u8>,
    mac: Seq<u8>,
    k: int,
)
    requires
        opened_fields(fields, enc, mac) is Ok,
        0 <= k < fields.len(),
    ensures
        opened_fields(fields, enc, mac)->Ok_0.len() == fields.len(),
        opened_field(fields[k], enc, mac) == Ok::<Option<Seq<char>>, Error>(
            opened_fields(fields, enc, mac)->Ok_0[k],
        ),
{
    no_failure_before(fields, enc, mac, 0, k);
}

proof fn no_failure_before(
    fields: Seq<Option<Seq<char>>>,
    enc: Seq<u8>,
    mac: Seq<u8>,
    i: int,
    k: int,
)
    requires
        0 <= i <= k < fields.len(),
        first_failure(fields, enc, mac, i) is None,
    ensures
        opened_field(fields[k], enc, mac) is Ok,
    decreases k - i,
{
    if i < k {
        no_failure_before(fields, enc, mac, i + 1, k);
    }
}

/// Sealed fields open to what was sealed.
pub proof fn sealed_fields_open(
    out: Seq<Option<Seq<char>>>,
    plain: Seq<Option<Seq<char>>>,
    enc: Seq<u8>,
    mac: Seq<u8>,
    ivs: Seq<u8>,
    from: int,
)
    requires
        seals_fields(out, plain, enc, mac, ivs, from),
    ensures
        opened_fields(out, enc, mac) == Ok::<Seq<Option<Seq<char>>>, Error>(plain),
{
    assert forall|k: int| 0 <= k < out.len() implies opened_field(#[trigger] out[k], enc, mac)
        == Ok::<Option<Seq<char>>, Error>(plain[k]) by {
        sealed_field_opens(out[k], plain[k], enc, mac, iv_at(ivs, from + k));
    }
    fields_open(out, plain, enc, mac);
}

/// `o` is the sealed form of `q`, or both are absent.
pub open spec fn seals_card(
    o: Option<CardView>,
    q: Option<CardView>,
    enc: Seq<u8>,
    mac: Seq<u8>,
    ivs: Seq<u8>,
) -> bool {
    match (o, q) {
        (Some(o), Some(q)) => seals_fields(
            card_fields(o),
            card_fields(q),
            enc,
            mac,
            ivs,
            CARD_IV as int,
        ),
        (None, None) => true,
        _ => false,
    }
}

/// `o` is the sealed form of `q`, or both are absent.
pub open spec fn seals_identity(
    o: Option<IdentityView>,
    q: Option<IdentityView>,
    enc: Seq<u8>,
    mac: Seq<u8>,
    ivs: Seq<u8>,
) -> bool {
    match (o, q) {
        (Some(o), Some(q)) => seals_fields(
            identity_fields(o),
            identity_fields(q),
            enc,
            mac,
            ivs,
            IDENTITY_IV as int,
        ),
        (None, None) => true,
        _ => false,
    }
}

proof fn sealed_card_opens(
    asked: bool,
    o: Option<CardView>,
    q: Option<CardView>,
    enc: Seq<u8>,
    mac: Seq<u8>,
    ivs: Seq<u8>,
)
    requires
        seals_card(o, q, enc, mac, ivs),
    ensures
        opened_card(asked, o, enc, mac) == Ok::<Option<CardView>, Error>(
            if asked { q } else { None },
        ),
{
    if let (Some(o), Some(q)) = (o, q) {
        sealed_fields_open(card_fields(o), card_fields(q), enc, mac, ivs, CARD_IV as int);
        assert(card_of_fields(card_fields(q)) == q);
    }
}

proof fn sealed_identity_opens(
    asked: bool,
    o: Option<IdentityView>,
    q: Option<IdentityView>,
    enc: Seq<u8>,
    mac: Seq<u8>,
    ivs: Seq<u8>,
)
    requires
        seals_identity(o, q, enc, mac, ivs),
    ensures
        opened_identity(asked, o, enc, mac) == Ok::<Option<IdentityView>, Error>(
            if asked { q } else { None },
        ),
{
    if let (Some(o), Some(q)) = (o, q) {
        sealed_fields_open(identity_fields(o), identity_fields(q), enc, mac, ivs, IDENTITY_IV as int);
        assert(identity_of_fields(identity_fields(q)) == q);
    }
}

proof fn sealed_login_opens(
    login: Option<LoginView>,
    p: PlainCipherView,
    enc: Seq<u8>,
    mac: Seq<u8>,
    ivs: Seq<u8>,
    opts: DecryptOptions,
)
    requires
        seals_login(login, p, enc, mac, ivs),
    ensures
        opened_login(login, enc, mac, opts) is Ok,
        ({
            let f = opened_login(login, enc, mac, opts)->Ok_0;
            let q = asked_part(stored_part(p), opts);
            f[0] == q.username && f[1] == q.password && f[2] == q.totp && f[3] == q.primary_uri
        }),
{
    if let Some(l) = login {
        let asked = seq![
            if opts.username { l.username } else { None },
            if opts.password { l.password } else { None },
            if opts.totp { l.totp } else { None },
            if opts.primary_uri { primary_uri(l.uris) } else { None },
        ];
        let plain = seq![
            if opts.username { p.username } else { None },
            if opts.password { p.password } else { None },
            if opts.totp { p.totp } else { None },
            if opts.primary_uri { p.primary_uri } else { None },
        ];
        assert(seals_fields(asked, plain, enc, mac, ivs, LOGIN_IV as int));
        sealed_fields_open(asked, plain, enc, mac, ivs, LOGIN_IV as int);
        assert(opened_login(login, enc, mac, opts) == opened_fields(asked, enc, mac));
    }
}

/// Reading back a stored item gives what was stored, whichever fields are
/// asked for.
pub proof fn stored_item_reads_back(
    c: CipherView,
    p: PlainCipherView,
    enc: Seq<u8>,
    mac: Seq<u8>,
    ivs: Seq<u8>,
    opts: DecryptOptions,
)
    requires
        seals_cipher(c, p, enc, mac, ivs),
    ensures
        opened_cipher(c, enc, mac, opts) == Ok::<PlainCipherView, Error>(
            asked_part(stored_part(p), opts),
        ),
{
    sealed_field_opens(c.name, p.name, enc, mac, iv_at(ivs, NAME_IV as int));
    sealed_field_opens(c.notes, p.notes, enc, mac, iv_at(ivs, NOTES_IV as int));
    sealed_card_opens(opts.card, c.card, stored_part(p).card, enc, mac, ivs);
    sealed_identity_opens(opts.identity, c.identity, stored_part(p).identity, enc, mac, ivs);
    sealed_login_opens(c.login, p, enc, mac, ivs, opts);
}

/// The two halves of a 64-byte key.
pub fn split_key(plain: &[u8]) -> (r: Result<([u8; 32], [u8; 32])>)
    ensures
        r matches Ok((k, m)) ==> key_halves(plain@) == Ok::<(Seq<u8>, Seq<u8>), Error>((k@, m@)),
        r matches Err(e) ==> key_halves(plain@) == Err::<(Seq<u8>, Seq<u8>), Error>(e),
{
    if plain.len() != 64 {
        return Err(Error::EncString("user-key plaintext must be 64 bytes"));
    }
    let enc: [u8; 32] = array32(plain, 0);
    let mac: [u8; 32] = array32(plain, 32);
    assert(enc@ =~= plain@.take(32));
    assert(mac@ =~= plain@.skip(32));
    Ok((enc, mac))
}

/// Opens the envelope around a 64-byte key and splits the key into its
/// encryption and authentication halves.
pub fn decrypt_user_key(
    encrypted_user_key: &str,
    stretch_enc: &[u8; 32],
    stretch_mac: &[u8; 32],
) -> (r: Result<([u8; 32], [u8; 32])>)
    ensures
        r matches Ok((k, m)) ==> unwrapped_key(encrypted_user_key@, stretch_enc@, stretch_mac@)
            == Ok::<(Seq<u8>, Seq<u8>), Error>((k@, m@)),
        r matches Err(e) ==> unwrapped_key(encrypted_user_key@, stretch_enc@, stretch_mac@)
            == Err::<(Seq<u8>, Seq<u8>), Error>(e),
{
    let mut plain: Vec<u8> = open_text(encrypted_user_key, stretch_enc, stretch_mac)?;
    let halves: Result<([u8; 32], [u8; 32])> = split_key(plain.as_slice());
    wipe(&mut plain);
    halves
}

/// The text that decrypted bytes encode.
pub fn bytes_text(plain: Vec<u8>) -> (r: Result<String>)
    ensures
        r matches Ok(t) ==> text_of_bytes(plain@) == Ok::<Seq<char>, Error>(t@),
        r matches Err(e) ==> text_of_bytes(plain@) == Err::<Seq<char>, Error>(e),
{
    match utf8_text(plain) {
        Some(t) => Ok(t),
        None => Err(Error::EncString("field is not valid UTF-8")),
    }
}

/// Decrypts an optional field.
pub fn decrypt_optional(field: &Option<String>, enc_key: &[u8; 32], mac_key: &[u8; 32]) -> (r:
    Result<Option<String>>)
    ensures
        r matches Ok(t) ==> opened_field(field.deep_view(), enc_key@, mac_key@) == Ok::<
            Option<Seq<char>>,
            Error,
        >(t.deep_view()),
        r matches Err(e) ==> opened_field(field.deep_view(), enc_key@, mac_key@) == Err::<
            Option<Seq<char>>,
            Error,
        >(e),
{
    match field {
        None => Ok(None),
        Some(s) => {
            if s.as_str().is_empty() {
                return Ok(None);
            }
            let plain: Vec<u8> = open_text(s.as_str(), enc_key, mac_key)?;
            let text: String = bytes_text(plain)?;
            Ok(Some(text))
        },
    }
}

/// Decrypts fields in order, up to the first that fails.
pub fn open_fields(fields: &Vec<Option<String>>, enc_key: &[u8; 32], mac_key: &[u8; 32]) -> (r:
    Result<Vec<Option<String>>>)
    ensures
        r matches Ok(t) ==> opened_fields(field_texts(fields@), enc_key@, mac_key@) == Ok::<
            Seq<Option<Seq<char>>>,
            Error,
        >(field_texts(t@)) && t@.len() == fields@.len(),
        r matches Err(e) ==> opened_fields(field_texts(fields@), enc_key@, mac_key@) == Err::<
            Seq<Option<Seq<char>>>,
            Error,
        >(e),
{
    let ghost texts = field_texts(fields@);
    let mut out: Vec<Option<String>> = Vec::new();
    let mut i: usize = 0;
    while i < fields.len()
        invariant
            i <= fields.len(),
            out@.len() == i,
            texts == field_texts(fields@),
            first_failure(texts, enc_key@, mac_key@, 0) == first_failure(
                texts,
                enc_key@,
                mac_key@,
                i as int,
            ),
            forall|k: int|
                0 <= k < i ==> opened_field(texts[k], enc_key@, mac_key@) == Ok::<
                    Option<Seq<char>>,
                    Error,
                >((#[trigger] out@[k]).deep_view()),
        decreases fields.len() - i,
    {
        assert(texts[i as int] == fields@[i as int].deep_view());
        let t: Option<String> = decrypt_optional(&fields[i], enc_key, mac_key)?;
        out.push(t);
        i += 1;
    }
    assert(opened_fields(texts, enc_key@, mac_key@)->Ok_0 =~= field_texts(out@));
    Ok(out)
}

/// Encrypts an optional text under the initialization vector at a place.
pub fn seal_field(
    plain: &Option<String>,
    enc_key: &[u8; 32],
    mac_key: &[u8; 32],
    ivs: &[u8],
    at: usize,
) -> (o: Option<String>)
    requires
        ivs@.len() == ITEM_IV_BYTES,
        at < ITEM_IVS,
    ensures
        seals_field(
            o.deep_view(),
            plain.deep_view(),
            enc_key@,
            mac_key@,
            iv_at(ivs@, at as int),
        ),
{
    match plain {
        None => None,
        Some(p) => {
            let iv: [u8; 16] = array16(slice_subrange(ivs, 16 * at, 16 * at + 16));
            let out: String = seal_text(p.as_str().as_bytes(), enc_key, mac_key, iv);
            assert(seals(out@, p@, enc_key@, mac_key@, iv@));
            Some(out)
        },
    }
}

/// Encrypts optional texts in order, under the initialization vectors from a
/// place on.
pub fn seal_fields(
    plain: &Vec<Option<String>>,
    enc_key: &[u8; 32],
    mac_key: &[u8; 32],
    ivs: &[u8],
    from: usize,
) -> (out: Vec<Option<String>>)
    requires
        ivs@.len() == ITEM_IV_BYTES,
        from + plain@.len() <= ITEM_IVS,
    ensures
        seals_fields(
            field_texts(out@),
            field_texts(plain@),
            enc_key@,
            mac_key@,
            ivs@,
            from as int,
        ),
{
    let mut out: Vec<Option<String>> = Vec::new();
    let mut i: usize = 0;
    while i < plain.len()
        invariant
            i <= plain.len(),
            ivs@.len() == ITEM_IV_BYTES,
            from + plain@.len() <= ITEM_IVS,
            out@.len() == i,
            forall|k: int|
                0 <= k < i ==> seals_field(
                    (#[trigger] out@[k]).deep_view(),
                    plain@[k].deep_view(),
                    enc_key@,
                    mac_key@,
                    iv_at(ivs@, from + k),
                ),
        decreases plain.len() - i,
    {
        let o: Option<String> = seal_field(&plain[i], enc_key, mac_key, ivs, from + i);
        out.push(o);
        i += 1;
    }
    out
}

/// Fresh initialization vectors for one item, where the operating system has
/// randomness to give. Which ones is left to chance.
pub fn draw_ivs() -> (r: Option<Vec<u8>>)
    ensures
        enough_ivs(drawn(r)),
{
    random_bytes(ITEM_IV_BYTES)
}

/// The first address of a login.
fn first_uri(uris: &Option<Vec<LoginUri>>) -> (r: Option<String>)
    ensures
        r.deep_view() == primary_uri(uris.deep_view()),
{
    match uris {
        None => None,
        Some(u) => {
            if u.len() == 0 {
                None
            } else {
                assert(u.deep_view()[0] == u@[0].deep_view());
                copy_text(&u[0].uri)
            }
        },
    }
}

fn copy_if(asked: bool, f: &Option<String>) -> (r: Option<String>)
    ensures
        r.deep_view() == (if asked { f.deep_view() } else { None }),
{
    if asked {
        copy_text(f)
    } else {
        None
    }
}

fn decrypt_login(
    login: &Option<Login>,
    enc_key: &[u8; 32],
    mac_key: &[u8; 32],
    opts: DecryptOptions,
) -> (r: Result<Vec<Option<String>>>)
    ensures
        r matches Ok(t) ==> opened_login(login.deep_view(), enc_key@, mac_key@, opts) == Ok::<
            Seq<Option<Seq<char>>>,
            Error,
        >(field_texts(t@)) && t@.len() == 4,
        r matches Err(e) ==> opened_login(login.deep_view(), enc_key@, mac_key@, opts) == Err::<
            Seq<Option<Seq<char>>>,
            Error,
        >(e),
{
    let mut asked: Vec<Option<String>> = Vec::new();
    match login {
        None => {
            asked.push(None);
            asked.push(None);
            asked.push(None);
            asked.push(None);
            assert(field_texts(asked@) =~= seq![None, None, None, None]);
            Ok(asked)
        },
        Some(l) => {
            let uri: Option<String> = first_uri(&l.uris);
            asked.push(copy_if(opts.username, &l.username));
            asked.push(copy_if(opts.password, &l.password));
            asked.push(copy_if(opts.totp, &l.totp));
            asked.push(copy_if(opts.primary_uri, &uri));
            let ghost lv = l.deep_view();
            assert(field_texts(asked@) =~= seq![
                if opts.username { lv.username } else { None },
                if opts.password { lv.password } else { None },
                if opts.totp { lv.totp } else { None },
                if opts.primary_uri { primary_uri(lv.uris) } else { None },
            ]);
            open_fields(&asked, enc_key, mac_key)
        },
    }
}

fn decrypt_card(asked: bool, card: &Option<Card>, enc_key: &[u8; 32], mac_key: &[u8; 32]) -> (r:
    Result<Option<PlainCard>>)
    ensures
        r matches Ok(t) ==> opened_card(asked, card.deep_view(), enc_key@, mac_key@) == Ok::<
            Option<CardView>,
            Error,
        >(t.deep_view()),
        r matches Err(e) ==> opened_card(asked, card.deep_view(), enc_key@, mac_key@) == Err::<
            Option<CardView>,
            Error,
        >(e),
{
    match card {
        Some(c) if asked => {
            let fields: Vec<Option<String>> = c.fields();
            let opened: Vec<Option<String>> = open_fields(&fields, enc_key, mac_key)?;
            assert(fields@.len() == field_texts(fields@).len());
            Ok(Some(PlainCard::from_fields(opened)))
        },
        _ => Ok(None),
    }
}

fn decrypt_identity(
    asked: bool,
    identity: &Option<Identity>,
    enc_key: &[u8; 32],
    mac_key: &[u8; 32],
) -> (r: Result<Option<PlainIdentity>>)
    ensures
        r matches Ok(t) ==> opened_identity(asked, identity.deep_view(), enc_key@, mac_key@)
            == Ok::<Option<IdentityView>, Error>(t.deep_view()),
        r matches Err(e) ==> opened_identity(asked, identity.deep_view(), enc_key@, mac_key@)
            == Err::<Option<IdentityView>, Error>(e),
{
    match identity {
        Some(i) if asked => {
            let fields: Vec<Option<String>> = i.fields();
            let opened: Vec<Option<String>> = open_fields(&fields, enc_key, mac_key)?;
            assert(fields@.len() == field_texts(fields@).len());
            Ok(Some(PlainIdentity::from_fields(opened)))
        },
        _ => Ok(None),
    }
}

fn seal_login(plain: &PlainCipher, enc_key: &[u8; 32], mac_key: &[u8; 32], ivs: &[u8]) -> (r:
    Option<Login>)
    requires
        ivs@.len() == ITEM_IV_BYTES,
    ensures
        seals_login(r.deep_view(), plain.deep_view(), enc_key@, mac_key@, ivs@),
{
    if plain.cipher_type != 1 {
        return None;
    }
    let username: Option<String> = seal_field(&plain.username, enc_key, mac_key, ivs, LOGIN_IV);
    let password: Option<String> = seal_field(
        &plain.password,
        enc_key,
        mac_key,
        ivs,
        LOGIN_IV + 1,
    );
    let totp: Option<String> = seal_field(&plain.totp, enc_key, mac_key, ivs, LOGIN_IV + 2);
    let uri: Option<String> = seal_field(&plain.primary_uri, enc_key, mac_key, ivs, LOGIN_IV + 3);
    let uris: Option<Vec<LoginUri>> = match uri {
        None => None,
        Some(u) => {
            let mut list: Vec<LoginUri> = Vec::new();
            list.push(LoginUri { uri: Some(u) });
            assert(list.deep_view()[0] == list@[0].deep_view());
            Some(list)
        },
    };
    Some(Login { username, password, totp, uris })
}

impl Cipher {
    /// The key pair that encrypts the item's fields.
    pub fn effective_keys(&self, enc_key: &[u8; 32], mac_key: &[u8; 32]) -> (r: Result<
        ([u8; 32], [u8; 32]),
    >)
        ensures
            r matches Ok((k, m)) ==> item_keys(self.key.deep_view(), enc_key@, mac_key@) == Ok::<
                (Seq<u8>, Seq<u8>),
                Error,
            >((k@, m@)),
            r matches Err(e) ==> item_keys(self.key.deep_view(), enc_key@, mac_key@) == Err::<
                (Seq<u8>, Seq<u8>),
                Error,
            >(e),
    {
        match &self.key {
            Some(k) if !k.as_str().is_empty() => decrypt_user_key(k.as_str(), enc_key, mac_key),
            _ => Ok((*enc_key, *mac_key)),
        }
    }

    /// Decrypts the name.
    pub fn decrypt_name(&self, enc_key: &[u8; 32], mac_key: &[u8; 32]) -> (r: Result<
        Option<String>,
    >)
        ensures
            r matches Ok(t) ==> opened_name(self.deep_view(), enc_key@, mac_key@) == Ok::<
                Option<Seq<char>>,
                Error,
            >(t.deep_view()),
            r matches Err(e) ==> opened_name(self.deep_view(), enc_key@, mac_key@) == Err::<
                Option<Seq<char>>,
                Error,
            >(e),
    {
        let (enc, mac) = self.effective_keys(enc_key, mac_key)?;
        decrypt_optional(&self.name, &enc, &mac)
    }

    /// Decrypts the name and the fields that `opts` asks for. The first field
    /// that does not decrypt decides the error.
    pub fn decrypt(&self, enc_key: &[u8; 32], mac_key: &[u8; 32], opts: DecryptOptions) -> (r:
        Result<PlainCipher>)
        ensures
            r matches Ok(p) ==> opened_cipher(self.deep_view(), enc_key@, mac_key@, opts) == Ok::<
                PlainCipherView,
                Error,
            >(p.deep_view()),
            r matches Err(e) ==> opened_cipher(self.deep_view(), enc_key@, mac_key@, opts)
                == Err::<PlainCipherView, Error>(e),
    {
        let (enc, mac) = self.effective_keys(enc_key, mac_key)?;
        let name: Option<String> = decrypt_optional(&self.name, &enc, &mac)?;
        let notes: Option<String> = if opts.notes {
            decrypt_optional(&self.notes, &enc, &mac)?
        } else {
            None
        };
        let card: Option<PlainCard> = decrypt_card(opts.card, &self.card, &enc, &mac)?;
        let identity: Option<PlainIdentity> = decrypt_identity(
            opts.identity,
            &self.identity,
            &enc,
            &mac,
        )?;
        let login: Vec<Option<String>> = decrypt_login(&self.login, &enc, &mac, opts)?;
        Ok(
            PlainCipher {
                id: self.id.clone(),
                cipher_type: self.cipher_type,
                folder_id: copy_text(&self.folder_id),
                name,
                notes,
                username: copy_text(&login[0]),
                password: copy_text(&login[1]),
                totp: copy_text(&login[2]),
                primary_uri: copy_text(&login[3]),
                card,
                identity,
            },
        )
    }

    /// Encrypts a plain item under the given initialization vectors, storing
    /// what its kind stores.
    pub fn from_plain_with(
        plain: &PlainCipher,
        enc_key: &[u8; 32],
        mac_key: &[u8; 32],
        ivs: &[u8],
    ) -> (r: Cipher)
        requires
            ivs@.len() == ITEM_IV_BYTES,
        ensures
            seals_cipher(r.deep_view(), plain.deep_view(), enc_key@, mac_key@, ivs@),
    {
        let login: Option<Login> = seal_login(plain, enc_key, mac_key, ivs);
        let card: Option<Card> = match &plain.card {
            Some(c) if plain.cipher_type == 3 => {
                let plain_fields: Vec<Option<String>> = c.fields();
                assert(plain_fields@.len() == field_texts(plain_fields@).len());
                let fields: Vec<Option<String>> = seal_fields(
                    &plain_fields,
                    enc_key,
                    mac_key,
                    ivs,
                    CARD_IV,
                );
                assert(fields@.len() == field_texts(fields@).len());
                let sealed_card: Card = Card::from_fields(fields);
                assert(card_fields(sealed_card.deep_view()) =~= field_texts(fields@));
                Some(sealed_card)
            },
            _ => None,
        };
        let identity: Option<Identity> = match &plain.identity {
            Some(i) if plain.cipher_type == 4 => {
                let plain_fields: Vec<Option<String>> = i.fields();
                assert(plain_fields@.len() == field_texts(plain_fields@).len());
                let fields: Vec<Option<String>> = seal_fields(
                    &plain_fields,
                    enc_key,
                    mac_key,
                    ivs,
                    IDENTITY_IV,
                );
                assert(fields@.len() == field_texts(fields@).len());
                let sealed_identity: Identity = Identity::from_fields(fields);
                assert(identity_fields(sealed_identity.deep_view()) =~= field_texts(fields@));
                Some(sealed_identity)
            },
            _ => None,
        };
        let name: Option<String> = seal_field(&plain.name, enc_key, mac_key, ivs, NAME_IV);
        let notes: Option<String> = seal_field(&plain.notes, enc_key, mac_key, ivs, NOTES_IV);
        Cipher {
            id: plain.id.clone(),
            cipher_type: plain.cipher_type,
            folder_id: copy_text(&plain.folder_id),
            organization_id: None,
            key: None,
            name,
            notes,
            login,
            card,
            identity,
            fields: None,
        }
    }

    /// Encrypts a plain item under fresh initialization vectors, storing what
    /// its kind stores. Fails only where the operating system has no
    /// randomness to give.
    pub fn from_plain(plain: &PlainCipher, enc_key: &[u8; 32], mac_key: &[u8; 32]) -> (r: Result<
        Cipher,
    >)
        ensures
            r matches Ok(c) ==> exists|ivs: Seq<u8>|
                ivs.len() == ITEM_IV_BYTES && #[trigger] seals_cipher(
                    c.deep_view(),
                    plain.deep_view(),
                    enc_key@,
                    mac_key@,
                    ivs,
                ),
            r matches Err(e) ==> e == Error::Random,
    {
        match draw_ivs() {
            None => Err(Error::Random),
            Some(ivs) => Ok(Self::from_plain_with(plain, enc_key, mac_key, ivs.as_slice())),
        }
    }
}

/// `f` holds the text `t`: it is an envelope around its UTF-8 bytes, or there is
/// neither.
pub open spec fn holds_text(
    f: Option<Seq<char>>,
    t: Option<Seq<char>>,
    enc: Seq<u8>,
    mac: Seq<u8>,
) -> bool {
    match (f, t) {
        (None, None) => true,
        (Some(s), Some(p)) => s.len() > 0 && opened_text(s, enc, mac) == Ok::<Seq<u8>, Error>(
            encode_utf8(p),
        ),
        _ => false,
    }
}

/// Each field of the card `c` holds that of `p`.
pub open spec fn holds_card(c: CardView, p: CardView, enc: Seq<u8>, mac: Seq<u8>) -> bool {
    &&& holds_text(c.cardholder_name, p.cardholder_name, enc, mac)
    &&& holds_text(c.brand, p.brand, enc, mac)
    &&& holds_text(c.number, p.number, enc, mac)
    &&& holds_text(c.exp_month, p.exp_month, enc, mac)
    &&& holds_text(c.exp_year, p.exp_year, enc, mac)
    &&& holds_text(c.code, p.code, enc, mac)
}

/// Each field of the identity `c` holds that of `p`.
pub open spec fn holds_identity(
    c: IdentityView,
    p: IdentityView,
    enc: Seq<u8>,
    mac: Seq<u8>,
) -> bool {
    &&& holds_text(c.title, p.title, enc, mac)
    &&& holds_text(c.first_name, p.first_name, enc, mac)
    &&& holds_text(c.middle_name, p.middle_name, enc, mac)
    &&& holds_text(c.last_name, p.last_name, enc, mac)
    &&& holds_text(c.username, p.username, enc, mac)
    &&& holds_text(c.company, p.company, enc, mac)
    &&& holds_text(c.ssn, p.ssn, enc, mac)
    &&& holds_text(c.passport_number, p.passport_number, enc, mac)
    &&& holds_text(c.license_number, p.license_number, enc, mac)
    &&& holds_text(c.email, p.email, enc, mac)
    &&& holds_text(c.phone, p.phone, enc, mac)
    &&& holds_text(c.address1, p.address1, enc, mac)
    &&& holds_text(c.address2, p.address2, enc, mac)
    &&& holds_text(c.address3, p.address3, enc, mac)
    &&& holds_text(c.city, p.city, enc, mac)
    &&& holds_text(c.state, p.state, enc, mac)
    &&& holds_text(c.postal_code, p.postal_code, enc, mac)
    &&& holds_text(c.country, p.country, enc, mac)
}

/// A field that holds a text decrypts to it; an absent or empty one has none.
pub proof fn held_text_opens(
    f: Option<Seq<char>>,
    t: Option<Seq<char>>,
    enc: Seq<u8>,
    mac: Seq<u8>,
)
    requires
        holds_text(f, t, enc, mac),
    ensures
        opened_field(f, enc, mac) == Ok::<Option<Seq<char>>, Error>(t),
        opened_field(Some(Seq::empty()), enc, mac) == Ok::<Option<Seq<char>>, Error>(None),
{
    if let Some(p) = t {
        vstd::utf8::encode_utf8_valid_utf8(p);
        vstd::utf8::encode_utf8_decode_utf8(p);
    }
}

proof fn held_card_opens(c: CardView, p: CardView, enc: Seq<u8>, mac: Seq<u8>)
    requires
        holds_card(c, p, enc, mac),
    ensures
        opened_card(true, Some(c), enc, mac) == Ok::<Option<CardView>, Error>(Some(p)),
{
    held_text_opens(c.cardholder_name, p.cardholder_name, enc, mac);
    held_text_opens(c.brand, p.brand, enc, mac);
    held_text_opens(c.number, p.number, enc, mac);
    held_text_opens(c.exp_month, p.exp_month, enc, mac);
    held_text_opens(c.exp_year, p.exp_year, enc, mac);
    held_text_opens(c.code, p.code, enc, mac);
    let fields = card_fields(c);
    let plain = card_fields(p);
    assert forall|k: int| 0 <= k < 6 implies opened_field(#[trigger] fields[k], enc, mac) == Ok::<
        Option<Seq<char>>,
        Error,
    >(plain[k]) by {}
    fields_open(fields, plain, enc, mac);
}

#[verifier::rlimit(40)]
proof fn held_identity_opens(c: IdentityView, p: IdentityView, enc: Seq<u8>, mac: Seq<u8>)
    requires
        holds_identity(c, p, enc, mac),
    ensures
        opened_identity(true, Some(c), enc, mac) == Ok::<Option<IdentityView>, Error>(Some(p)),
{
    held_text_opens(c.title, p.title, enc, mac);
    held_text_opens(c.first_name, p.first_name, enc, mac);
    held_text_opens(c.middle_name, p.middle_name, enc, mac);
    held_text_opens(c.last_name, p.last_name, enc, mac);
    held_text_opens(c.username, p.username, enc, mac);
    held_text_opens(c.company, p.company, enc, mac);
    held_text_opens(c.ssn, p.ssn, enc, mac);
    held_text_opens(c.passport_number, p.passport_number, enc, mac);
    held_text_opens(c.license_number, p.license_number, enc, mac);
    held_text_opens(c.email, p.email, enc, mac);
    held_text_opens(c.phone, p.phone, enc, mac);
    held_text_opens(c.address1, p.address1, enc, mac);
    held_text_opens(c.address2, p.address2, enc, mac);
    held_text_opens(c.address3, p.address3, enc, mac);
    held_text_opens(c.city, p.city, enc, mac);
    held_text_opens(c.state, p.state, enc, mac);
    held_text_opens(c.postal_code, p.postal_code, enc, mac);
    held_text_opens(c.country, p.country, enc, mac);
    let fields = identity_fields(c);
    let plain = identity_fields(p);
    assert forall|k: int| 0 <= k < 18 implies opened_field(#[trigger] fields[k], enc, mac) == Ok::<
        Option<Seq<char>>,
        Error,
    >(plain[k]) by {}
    fields_open(fields, plain, enc, mac);
}

/// Decrypting an item gives, of each field that is asked for, the text that its
/// envelope holds, in the place of that field and in no other, and nothing of
/// the fields that are not asked for. The identifier, the kind and the folder
/// come along as they are.
pub proof fn item_reads_as_its_envelopes_hold(
    c: CipherView,
    p: PlainCipherView,
    enc: Seq<u8>,
    mac: Seq<u8>,
    keys: (Seq<u8>, Seq<u8>),
    opts: DecryptOptions,
)
    requires
        item_keys(c.key, enc, mac) == Ok::<(Seq<u8>, Seq<u8>), Error>(keys),
        holds_text(c.name, p.name, keys.0, keys.1),
        opts.notes ==> holds_text(c.notes, p.notes, keys.0, keys.1),
        c.login is None ==> p.username is None && p.password is None && p.totp is None
            && p.primary_uri is None,
        c.login matches Some(l) ==> {
            &&& opts.username ==> holds_text(l.username, p.username, keys.0, keys.1)
            &&& opts.password ==> holds_text(l.password, p.password, keys.0, keys.1)
            &&& opts.totp ==> holds_text(l.totp, p.totp, keys.0, keys.1)
            &&& opts.primary_uri ==> match l.uris {
                Some(u) if u.len() > 0 => holds_text(u[0].uri, p.primary_uri, keys.0, keys.1),
                _ => p.primary_uri is None,
            }
        },
        opts.card ==> match (c.card, p.card) {
            (Some(x), Some(y)) => holds_card(x, y, keys.0, keys.1),
            (None, None) => true,
            _ => false,
        },
        opts.identity ==> match (c.identity, p.identity) {
            (Some(x), Some(y)) => holds_identity(x, y, keys.0, keys.1),
            (None, None) => true,
            _ => false,
        },
    ensures
        opened_cipher(c, enc, mac, opts) == Ok::<PlainCipherView, Error>(
            PlainCipherView {
                id: c.id,
                cipher_type: c.cipher_type,
                folder_id: c.folder_id,
                name: p.name,
                notes: if opts.notes { p.notes } else { None },
                username: if opts.username { p.username } else { None },
                password: if opts.password { p.password } else { None },
                totp: if opts.totp { p.totp } else { None },
                primary_uri: if opts.primary_uri { p.primary_uri } else { None },
                card: if opts.card { p.card } else { None },
                identity: if opts.identity { p.identity } else { None },
            },
        ),
        opened_name(c, enc, mac) == Ok::<Option<Seq<char>>, Error>(p.name),
{
    let (k, m) = keys;
    held_text_opens(c.name, p.name, k, m);
    if opts.notes {
        held_text_opens(c.notes, p.notes, k, m);
    }
    if opts.card && c.card is Some {
        held_card_opens(c.card->Some_0, p.card->Some_0, k, m);
    }
    if opts.identity && c.identity is Some {
        held_identity_opens(c.identity->Some_0, p.identity->Some_0, k, m);
    }
    if let Some(l) = c.login {
        let fields = seq![
            if opts.username { l.username } else { None },
            if opts.password { l.password } else { None },
            if opts.totp { l.totp } else { None },
            if opts.primary_uri { primary_uri(l.uris) } else { None },
        ];
        let plain = seq![
            if opts.username { p.username } else { None },
            if opts.password { p.password } else { None },
            if opts.totp { p.totp } else { None },
            if opts.primary_uri { p.primary_uri } else { None },
        ];
        held_text_opens(fields[0], plain[0], k, m);
        held_text_opens(fields[1], plain[1], k, m);
        held_text_opens(fields[2], plain[2], k, m);
        held_text_opens(fields[3], plain[3], k, m);
        fields_open(fields, plain, k, m);
    }
}

/// The fields of an item are under the given keys where it has no key of its
/// own, and under its own where it has one: the two halves, encryption first,
/// of what the envelope around it holds.
pub proof fn item_is_under_its_own_key(
    key: Option<Seq<char>>,
    enc: Seq<u8>,
    mac: Seq<u8>,
    own_enc: Seq<u8>,
    own_mac: Seq<u8>,
)
    requires
        own_enc.len() == 32,
        own_mac.len() == 32,
    ensures
        key is None ==> item_keys(key, enc, mac) == Ok::<(Seq<u8>, Seq<u8>), Error>((enc, mac)),
        key matches Some(k) ==> k.len() > 0 && opened_text(k, enc, mac) == Ok::<Seq<u8>, Error>(
            own_enc + own_mac,
        ) ==> item_keys(key, enc, mac) == Ok::<(Seq<u8>, Seq<u8>), Error>((own_enc, own_mac)),
        key matches Some(k) ==> k.len() > 0 && opened_text(k, enc, mac) is Err ==> item_keys(
            key,
            enc,
            mac,
        ) is Err,
{
    let whole = own_enc + own_mac;
    assert(whole.take(32) =~= own_enc);
    assert(whole.skip(32) =~= own_mac);
}

/// A key in an envelope is its two halves, encryption first, and must have 64
/// bytes.
pub proof fn key_unwraps_to_its_halves(
    s: Seq<char>,
    enc: Seq<u8>,
    mac: Seq<u8>,
    key_enc: Seq<u8>,
    key_mac: Seq<u8>,
)
    requires
        key_enc.len() == 32,
        opened_text(s, enc, mac) == Ok::<Seq<u8>, Error>(key_enc + key_mac),
    ensures
        key_mac.len() == 32 ==> unwrapped_key(s, enc, mac) == Ok::<(Seq<u8>, Seq<u8>), Error>(
            (key_enc, key_mac),
        ),
        key_mac.len() != 32 ==> unwrapped_key(s, enc, mac) is Err,
{
    let whole = key_enc + key_mac;
    assert(whole.take(32) =~= key_enc);
    assert(whole.skip(32) =~= key_mac);
}

/// A sealed field holds the text that was sealed.
pub proof fn sealed_field_holds(
    out: Option<Seq<char>>,
    plain: Option<Seq<char>>,
    enc: Seq<u8>,
    mac: Seq<u8>,
    iv: Seq<u8>,
)
    requires
        seals_field(out, plain, enc, mac, iv),
    ensures
        holds_text(out, plain, enc, mac),
        out is Some ==> out == Some(serialized(sealed(enc, mac, iv, encode_utf8(plain->Some_0)))),
{
}

proof fn sealed_card_holds(
    o: CardView,
    q: CardView,
    enc: Seq<u8>,
    mac: Seq<u8>,
    ivs: Seq<u8>,
)
    requires
        seals_fields(card_fields(o), card_fields(q), enc, mac, ivs, CARD_IV as int),
    ensures
        holds_card(o, q, enc, mac),
{
    let a = card_fields(o);
    let b = card_fields(q);
    assert forall|i: int| 0 <= i < 6 implies holds_text(#[trigger] a[i], b[i], enc, mac) by {
        assert(seals_field(a[i], b[i], enc, mac, iv_at(ivs, CARD_IV + i)));
    }
    assert(a[0] == o.cardholder_name && b[0] == q.cardholder_name);
    assert(a[1] == o.brand && b[1] == q.brand);
    assert(a[2] == o.number && b[2] == q.number);
    assert(a[3] == o.exp_month && b[3] == q.exp_month);
    assert(a[4] == o.exp_year && b[4] == q.exp_year);
    assert(a[5] == o.code && b[5] == q.code);
}

#[verifier::rlimit(40)]
proof fn sealed_identity_holds(
    o: IdentityView,
    q: IdentityView,
    enc: Seq<u8>,
    mac: Seq<u8>,
    ivs: Seq<u8>,
)
    requires
        seals_fields(identity_fields(o), identity_fields(q), enc, mac, ivs, IDENTITY_IV as int),
    ensures
        holds_identity(o, q, enc, mac),
{
    let a = identity_fields(o);
    let b = identity_fields(q);
    assert forall|i: int| 0 <= i < 18 implies holds_text(#[trigger] a[i], b[i], enc, mac) by {
        assert(seals_field(a[i], b[i], enc, mac, iv_at(ivs, IDENTITY_IV + i)));
    }
    assert(a[0] == o.title && b[0] == q.title);
    assert(a[1] == o.first_name && b[1] == q.first_name);
    assert(a[2] == o.middle_name && b[2] == q.middle_name);
    assert(a[3] == o.last_name && b[3] == q.last_name);
    assert(a[4] == o.username && b[4] == q.username);
    assert(a[5] == o.company && b[5] == q.company);
    assert(a[6] == o.ssn && b[6] == q.ssn);
    assert(a[7] == o.passport_number && b[7] == q.passport_number);
    assert(a[8] == o.license_number && b[8] == q.license_number);
    assert(a[9] == o.email && b[9] == q.email);
    assert(a[10] == o.phone && b[10] == q.phone);
    assert(a[11] == o.address1 && b[11] == q.address1);
    assert(a[12] == o.address2 && b[12] == q.address2);
    assert(a[13] == o.address3 && b[13] == q.address3);
    assert(a[14] == o.city && b[14] == q.city);
    assert(a[15] == o.state && b[15] == q.state);
    assert(a[16] == o.postal_code && b[16] == q.postal_code);
    assert(a[17] == o.country && b[17] == q.country);
}

/// Card fields that were sealed hold what was sealed, each in its own place.
pub proof fn sealed_card_holds_each_field(
    o: Option<CardView>,
    q: Option<CardView>,
    enc: Seq<u8>,
    mac: Seq<u8>,
    ivs: Seq<u8>,
)
    requires
        seals_card(o, q, enc, mac, ivs),
    ensures
        o is Some <==> q is Some,
        o is Some ==> holds_card(o->Some_0, q->Some_0, enc, mac),
{
    if o is Some {
        sealed_card_holds(o->Some_0, q->Some_0, enc, mac, ivs);
    }
}

/// Identity fields that were sealed hold what was sealed, each in its own place.
pub proof fn sealed_identity_holds_each_field(
    o: Option<IdentityView>,
    q: Option<IdentityView>,
    enc: Seq<u8>,
    mac: Seq<u8>,
    ivs: Seq<u8>,
)
    requires
        seals_identity(o, q, enc, mac, ivs),
    ensures
        o is Some <==> q is Some,
        o is Some ==> holds_identity(o->Some_0, q->Some_0, enc, mac),
{
    if o is Some {
        sealed_identity_holds(o->Some_0, q->Some_0, enc, mac, ivs);
    }
}

/// A new item holds every text of the plain one that its kind stores, each in
/// its own field, under the keys it was sealed with and no key of its own.
pub proof fn new_item_holds_what_its_kind_stores(
    c: CipherView,
    p: PlainCipherView,
    enc: Seq<u8>,
    mac: Seq<u8>,
    ivs: Seq<u8>,
)
    requires
        seals_cipher(c, p, enc, mac, ivs),
    ensures
        c.id == p.id,
        c.cipher_type == p.cipher_type,
        c.folder_id == p.folder_id,
        c.organization_id is None,
        c.key is None,
        holds_text(c.name, p.name, enc, mac),
        holds_text(c.notes, p.notes, enc, mac),
        p.cipher_type == 1 <==> c.login is Some,
        p.cipher_type == 1 ==> {
            let l = c.login->Some_0;
            &&& holds_text(l.username, p.username, enc, mac)
            &&& holds_text(l.password, p.password, enc, mac)
            &&& holds_text(l.totp, p.totp, enc, mac)
            &&& p.primary_uri is None ==> l.uris is None
            &&& p.primary_uri is Some ==> l.uris is Some && l.uris->Some_0.len() == 1
                && holds_text(l.uris->Some_0[0].uri, p.primary_uri, enc, mac)
        },
        c.card is Some <==> p.cipher_type == 3 && p.card is Some,
        c.card is Some ==> holds_card(c.card->Some_0, p.card->Some_0, enc, mac),
        c.identity is Some <==> p.cipher_type == 4 && p.identity is Some,
        c.identity is Some ==> holds_identity(c.identity->Some_0, p.identity->Some_0, enc, mac),
{
    sealed_field_holds(c.name, p.name, enc, mac, iv_at(ivs, NAME_IV as int));
    sealed_field_holds(c.notes, p.notes, enc, mac, iv_at(ivs, NOTES_IV as int));
    sealed_card_holds_each_field(c.card, stored_part(p).card, enc, mac, ivs);
    sealed_identity_holds_each_field(c.identity, stored_part(p).identity, enc, mac, ivs);
}

/// Each field of the item `c` holds that of `p`, and `c` has no field that `p`
/// has not.
pub open spec fn holds_item(c: CipherView, p: PlainCipherView, enc: Seq<u8>, mac: Seq<u8>) -> bool {
    &&& holds_text(c.name, p.name, enc, mac)
    &&& holds_text(c.notes, p.notes, enc, mac)
    &&& match c.login {
        None => p.username is None && p.password is None && p.totp is None && p.primary_uri is None,
        Some(l) => {
            &&& holds_text(l.username, p.username, enc, mac)
            &&& holds_text(l.password, p.password, enc, mac)
            &&& holds_text(l.totp, p.totp, enc, mac)
            &&& match l.uris {
                Some(u) if u.len() > 0 => holds_text(u[0].uri, p.primary_uri, enc, mac),
                _ => p.primary_uri is None,
            }
        },
    }
    &&& match (c.card, p.card) {
        (Some(x), Some(y)) => holds_card(x, y, enc, mac),
        (None, None) => true,
        _ => false,
    }
    &&& match (c.identity, p.identity) {
        (Some(x), Some(y)) => holds_identity(x, y, enc, mac),
        (None, None) => true,
        _ => false,
    }
}

/// A field that is asked for and does not decrypt is an error, and does not pass
/// for an absent one.
pub proof fn damaged_fields_are_errors(
    c: CipherView,
    enc: Seq<u8>,
    mac: Seq<u8>,
    keys: (Seq<u8>, Seq<u8>),
    opts: DecryptOptions,
)
    requires
        item_keys(c.key, enc, mac) == Ok::<(Seq<u8>, Seq<u8>), Error>(keys),
    ensures
        opened_field(c.name, keys.0, keys.1) is Err ==> opened_cipher(c, enc, mac, opts) is Err,
        opts.notes && opened_field(c.notes, keys.0, keys.1) is Err ==> opened_cipher(
            c,
            enc,
            mac,
            opts,
        ) is Err,
        c.login matches Some(l) ==> {
            &&& opts.username && opened_field(l.username, keys.0, keys.1) is Err ==> opened_cipher(
                c,
                enc,
                mac,
                opts,
            ) is Err
            &&& opts.password && opened_field(l.password, keys.0, keys.1) is Err ==> opened_cipher(
                c,
                enc,
                mac,
                opts,
            ) is Err
            &&& opts.totp && opened_field(l.totp, keys.0, keys.1) is Err ==> opened_cipher(
                c,
                enc,
                mac,
                opts,
            ) is Err
        },
{
    if let Some(l) = c.login {
        let fields = seq![
            if opts.username { l.username } else { None },
            if opts.password { l.password } else { None },
            if opts.totp { l.totp } else { None },
            if opts.primary_uri { primary_uri(l.uris) } else { None },
        ];
        if opened_fields(fields, keys.0, keys.1) is Ok {
            each_field_opens(fields, keys.0, keys.1, 0);
            each_field_opens(fields, keys.0, keys.1, 1);
            each_field_opens(fields, keys.0, keys.1, 2);
        }
    }
}

/// A field whose envelope does not open, or does not open to UTF-8, does not
/// decrypt.
pub proof fn damaged_envelope_does_not_decrypt(s: Seq<char>, enc: Seq<u8>, mac: Seq<u8>)
    requires
        s.len() > 0,
    ensures
        opened_text(s, enc, mac) matches Err(e) ==> opened_field(Some(s), enc, mac) == Err::<
            Option<Seq<char>>,
            Error,
        >(e),
        opened_text(s, enc, mac) matches Ok(b) ==> !valid_utf8(b) ==> opened_field(
            Some(s),
            enc,
            mac,
        ) is Err,
{
}

/// A sealed text is the envelope under the initialization vector given, with the
/// bytes of the text encrypted and tagged under the two keys.
pub proof fn text_is_sealed_under_the_vector_given(
    out: Seq<char>,
    plain: Seq<char>,
    enc: Seq<u8>,
    mac: Seq<u8>,
    iv: Seq<u8>,
)
    requires
        seals(out, plain, enc, mac, iv),
    ensures
        out == serialized(sealed(enc, mac, iv, encode_utf8(plain))),
        opened_text(out, enc, mac) == Ok::<Seq<u8>, Error>(encode_utf8(plain)),
{
}

} // verus!
