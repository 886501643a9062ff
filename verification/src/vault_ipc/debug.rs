//! Answers for logs and error messages, written out field by field.
use vstd::prelude::*;
use vstd::string::*;
use crate::text::{
    ascii_lower_text, decimal, decimal_text, join, join_texts, quote, quoted, texts,
};
use crate::vault_core::error::prefixed;
use crate::vault_ipc::proto::{
    field_name, option_text, show_option, ApiKeyStatus, Error, ErrorView, Field, Item, ItemView,
    ListEntry, ListEntryView, NamedView, PinStatus, Response, Status, StatusView,
};

verus! {

/// A field with its value.
pub open spec fn entry(label: Seq<char>, value: Seq<char>) -> Seq<char> {
    label + ": "@ + value
}

/// A value with its named fields.
pub open spec fn record(name: Seq<char>, fields: Seq<Seq<char>>) -> Seq<char> {
    name + " { "@ + join(fields, ", "@) + " }"@
}

/// A value around another.
pub open spec fn around(name: Seq<char>, inner: Seq<char>) -> Seq<char> {
    name + "("@ + inner + ")"@
}

/// Values in a list.
pub open spec fn bracketed(items: Seq<Seq<char>>) -> Seq<char> {
    "["@ + join(items, ", "@) + "]"@
}

/// Texts in quotation marks.
pub open spec fn all_quoted(items: Seq<Seq<char>>) -> Seq<Seq<char>> {
    items.map_values(|s: Seq<char>| quoted(s))
}

/// A truth value.
pub open spec fn truth(b: bool) -> Seq<char> {
    if b {
        "true"@
    } else {
        "false"@
    }
}

/// An optional number.
pub open spec fn option_number(n: Option<usize>) -> Seq<char> {
    match n {
        None => "None"@,
        Some(n) => around("Some"@, decimal(n as nat)),
    }
}

fn write_entry(label: &str, value: &str) -> (out: String)
    ensures
        out@ == entry(label@, value@),
{
    let mut out: String = prefixed(label, ": ");
    out.append(value);
    out
}

fn write_record(name: &str, fields: &Vec<String>) -> (out: String)
    ensures
        out@ == record(name@, texts(fields@)),
{
    let mut out: String = prefixed(name, " { ");
    out.append(join_texts(fields, ", ").as_str());
    out.append(" }");
    out
}

fn write_around(name: &str, inner: &str) -> (out: String)
    ensures
        out@ == around(name@, inner@),
{
    let mut out: String = prefixed(name, "(");
    out.append(inner);
    out.append(")");
    out
}

fn write_bracketed(items: &Vec<String>) -> (out: String)
    ensures
        out@ == bracketed(texts(items@)),
{
    let mut out: String = prefixed("[", join_texts(items, ", ").as_str());
    out.append("]");
    out
}

fn write_truth(b: bool) -> (out: &'static str)
    ensures
        out@ == truth(b),
{
    if b {
        "true"
    } else {
        "false"
    }
}

fn write_quoted(items: &Vec<String>) -> (out: Vec<String>)
    ensures
        texts(out@) == all_quoted(texts(items@)),
{
    let mut out: Vec<String> = Vec::new();
    let mut i: usize = 0;
    while i < items.len()
        invariant
            i <= items@.len(),
            out@.len() == i,
            forall|k: int| 0 <= k < i ==> (#[trigger] out@[k])@ == quoted(items@[k]@),
        decreases items.len() - i,
    {
        out.push(quote(items[i].as_str()));
        i += 1;
    }
    assert(texts(out@) =~= all_quoted(texts(items@)));
    out
}

/// A field that can be asked for.
pub open spec fn field_debug(f: Field) -> Seq<char> {
    match f {
        Field::Password => "Password"@,
        Field::Username => "Username"@,
        Field::Totp => "Totp"@,
        Field::Notes => "Notes"@,
        Field::Uri => "Uri"@,
        Field::CardCardholder => "CardCardholder"@,
        Field::CardNumber => "CardNumber"@,
        Field::CardBrand => "CardBrand"@,
        Field::CardExpiry => "CardExpiry"@,
        Field::CardCode => "CardCode"@,
        Field::IdentityName => "IdentityName"@,
        Field::IdentityEmail => "IdentityEmail"@,
        Field::IdentityPhone => "IdentityPhone"@,
        Field::IdentityAddress => "IdentityAddress"@,
        Field::IdentityTitle => "IdentityTitle"@,
        Field::IdentityFirstName => "IdentityFirstName"@,
        Field::IdentityMiddleName => "IdentityMiddleName"@,
        Field::IdentityLastName => "IdentityLastName"@,
        Field::IdentityUsername => "IdentityUsername"@,
        Field::IdentityCompany => "IdentityCompany"@,
        Field::IdentitySsn => "IdentitySsn"@,
        Field::IdentityPassport => "IdentityPassport"@,
        Field::IdentityLicense => "IdentityLicense"@,
        Field::IdentityAddress1 => "IdentityAddress1"@,
        Field::IdentityAddress2 => "IdentityAddress2"@,
        Field::IdentityAddress3 => "IdentityAddress3"@,
        Field::IdentityCity => "IdentityCity"@,
        Field::IdentityState => "IdentityState"@,
        Field::IdentityPostal => "IdentityPostal"@,
        Field::IdentityCountry => "IdentityCountry"@,
        Field::Custom(name) => around("Custom"@, quoted(name@)),
    }
}

fn write_field(f: &Field) -> (out: String)
    ensures
        out@ == field_debug(*f),
{
    match f {
        Field::Password => "Password".to_owned(),
        Field::Username => "Username".to_owned(),
        Field::Totp => "Totp".to_owned(),
        Field::Notes => "Notes".to_owned(),
        Field::Uri => "Uri".to_owned(),
        Field::CardCardholder => "CardCardholder".to_owned(),
        Field::CardNumber => "CardNumber".to_owned(),
        Field::CardBrand => "CardBrand".to_owned(),
        Field::CardExpiry => "CardExpiry".to_owned(),
        Field::CardCode => "CardCode".to_owned(),
        Field::IdentityName => "IdentityName".to_owned(),
        Field::IdentityEmail => "IdentityEmail".to_owned(),
        Field::IdentityPhone => "IdentityPhone".to_owned(),
        Field::IdentityAddress => "IdentityAddress".to_owned(),
        Field::IdentityTitle => "IdentityTitle".to_owned(),
        Field::IdentityFirstName => "IdentityFirstName".to_owned(),
        Field::IdentityMiddleName => "IdentityMiddleName".to_owned(),
        Field::IdentityLastName => "IdentityLastName".to_owned(),
        Field::IdentityUsername => "IdentityUsername".to_owned(),
        Field::IdentityCompany => "IdentityCompany".to_owned(),
        Field::IdentitySsn => "IdentitySsn".to_owned(),
        Field::IdentityPassport => "IdentityPassport".to_owned(),
        Field::IdentityLicense => "IdentityLicense".to_owned(),
        Field::IdentityAddress1 => "IdentityAddress1".to_owned(),
        Field::IdentityAddress2 => "IdentityAddress2".to_owned(),
        Field::IdentityAddress3 => "IdentityAddress3".to_owned(),
        Field::IdentityCity => "IdentityCity".to_owned(),
        Field::IdentityState => "IdentityState".to_owned(),
        Field::IdentityPostal => "IdentityPostal".to_owned(),
        Field::IdentityCountry => "IdentityCountry".to_owned(),
        Field::Custom(name) => write_around("Custom", quote(name.as_str()).as_str()),
    }
}

/// The state of the agent.
pub open spec fn status_debug(v: StatusView) -> Seq<char> {
    record(
        "Status"@,
        seq![
            entry("unlocked"@, truth(v.unlocked)),
            entry("server"@, option_text(v.server)),
            entry("email"@, option_text(v.email)),
            entry("items"@, option_number(v.items)),
            entry("last_sync"@, option_text(v.last_sync)),
            entry("agent_version"@, quoted(v.agent_version)),
            entry("clipboard_backend"@, option_text(v.clipboard_backend)),
        ],
    )
}

fn write_status(v: &Status) -> (out: String)
    ensures
        out@ == status_debug(v.deep_view()),
{
    let mut fields: Vec<String> = Vec::new();
    fields.push(write_entry("unlocked", write_truth(v.unlocked)));
    fields.push(write_entry("server", show_option(&v.server).as_str()));
    fields.push(write_entry("email", show_option(&v.email).as_str()));
    fields.push(write_entry("items", write_option_number(v.items).as_str()));
    fields.push(write_entry("last_sync", show_option(&v.last_sync).as_str()));
    fields.push(write_entry("agent_version", quote(v.agent_version.as_str()).as_str()));
    fields.push(write_entry("clipboard_backend", show_option(&v.clipboard_backend).as_str()));
    assert(texts(fields@) =~= seq![
        entry("unlocked"@, truth(v.deep_view().unlocked)),
        entry("server"@, option_text(v.deep_view().server)),
        entry("email"@, option_text(v.deep_view().email)),
        entry("items"@, option_number(v.deep_view().items)),
        entry("last_sync"@, option_text(v.deep_view().last_sync)),
        entry("agent_version"@, quoted(v.deep_view().agent_version)),
        entry("clipboard_backend"@, option_text(v.deep_view().clipboard_backend)),
    ]);
    write_record("Status", &fields)
}

/// A row of the list.
pub open spec fn row_debug(v: ListEntryView) -> Seq<char> {
    record(
        "ListEntry"@,
        seq![
            entry("id"@, quoted(v.id)),
            entry("name"@, quoted(v.name)),
            entry("cipher_type"@, decimal(v.cipher_type as nat)),
            entry("username"@, option_text(v.username)),
            entry("folder"@, option_text(v.folder)),
        ],
    )
}

fn write_row(v: &ListEntry) -> (out: String)
    ensures
        out@ == row_debug(v.deep_view()),
{
    let mut fields: Vec<String> = Vec::new();
    fields.push(write_entry("id", quote(v.id.as_str()).as_str()));
    fields.push(write_entry("name", quote(v.name.as_str()).as_str()));
    fields.push(write_entry("cipher_type", decimal_text(v.cipher_type as u64).as_str()));
    fields.push(write_entry("username", show_option(&v.username).as_str()));
    fields.push(write_entry("folder", show_option(&v.folder).as_str()));
    assert(texts(fields@) =~= seq![
        entry("id"@, quoted(v.deep_view().id)),
        entry("name"@, quoted(v.deep_view().name)),
        entry("cipher_type"@, decimal(v.deep_view().cipher_type as nat)),
        entry("username"@, option_text(v.deep_view().username)),
        entry("folder"@, option_text(v.deep_view().folder)),
    ]);
    write_record("ListEntry", &fields)
}

/// A field of an item.
pub open spec fn item_debug(v: ItemView) -> Seq<char> {
    record(
        "Item"@,
        seq![
            entry("id"@, quoted(v.id)),
            entry("name"@, quoted(v.name)),
            entry("cipher_type"@, decimal(v.cipher_type as nat)),
            entry("field"@, field_debug(v.field)),
            entry("value"@, quoted(v.value)),
        ],
    )
}

fn write_item(v: &Item) -> (out: String)
    ensures
        out@ == item_debug(v.deep_view()),
{
    let mut fields: Vec<String> = Vec::new();
    fields.push(write_entry("id", quote(v.id.as_str()).as_str()));
    fields.push(write_entry("name", quote(v.name.as_str()).as_str()));
    fields.push(write_entry("cipher_type", decimal_text(v.cipher_type as u64).as_str()));
    fields.push(write_entry("field", write_field(&v.field).as_str()));
    fields.push(write_entry("value", quote(v.value.as_str()).as_str()));
    assert(texts(fields@) =~= seq![
        entry("id"@, quoted(v.deep_view().id)),
        entry("name"@, quoted(v.deep_view().name)),
        entry("cipher_type"@, decimal(v.deep_view().cipher_type as nat)),
        entry("field"@, field_debug(v.deep_view().field)),
        entry("value"@, quoted(v.deep_view().value)),
    ]);
    write_record("Item", &fields)
}

/// The PIN of an account.
pub open spec fn pin_debug(v: PinStatus) -> Seq<char> {
    record(
        "PinStatus"@,
        seq![
            entry("enabled"@, truth(v.enabled)),
            entry("attempts_remaining"@, decimal(v.attempts_remaining as nat)),
        ],
    )
}

fn write_pin(v: &PinStatus) -> (out: String)
    ensures
        out@ == pin_debug(*v),
{
    let mut fields: Vec<String> = Vec::new();
    fields.push(write_entry("enabled", write_truth(v.enabled)));
    fields.push(write_entry("attempts_remaining", decimal_text(v.attempts_remaining as u64).as_str()));
    assert(texts(fields@) =~= seq![
        entry("enabled"@, truth(v.enabled)),
        entry("attempts_remaining"@, decimal(v.attempts_remaining as nat)),
    ]);
    write_record("PinStatus", &fields)
}

fn write_option_number(n: Option<usize>) -> (out: String)
    ensures
        out@ == option_number(n),
{
    match n {
        None => "None".to_owned(),
        Some(n) => write_around("Some", decimal_text(n as u64).as_str()),
    }
}

/// An item that was deleted, created or changed.
pub open spec fn named_debug(name: Seq<char>, v: NamedView) -> Seq<char> {
    record(name, seq![entry("id"@, quoted(v.id)), entry("name"@, quoted(v.name))])
}

fn write_named(kind: &str, id: &str, name: &str) -> (out: String)
    ensures
        out@ == named_debug(kind@, NamedView { id: id@, name: name@ }),
{
    let mut fields: Vec<String> = Vec::new();
    fields.push(write_entry("id", quote(id).as_str()));
    fields.push(write_entry("name", quote(name).as_str()));
    assert(texts(fields@) =~= seq![entry("id"@, quoted(id@)), entry("name"@, quoted(name@))]);
    write_record(kind, &fields)
}

/// The API key of an account.
pub open spec fn api_key_status_debug(configured: bool, client_id: Option<Seq<char>>) -> Seq<char> {
    record(
        "ApiKeyStatus"@,
        seq![entry("configured"@, truth(configured)), entry("client_id"@, option_text(client_id))],
    )
}

fn write_api_key_status(v: &ApiKeyStatus) -> (out: String)
    ensures
        out@ == api_key_status_debug(v.configured, v.client_id.deep_view()),
{
    let mut fields: Vec<String> = Vec::new();
    fields.push(write_entry("configured", write_truth(v.configured)));
    fields.push(write_entry("client_id", show_option(&v.client_id).as_str()));
    assert(texts(fields@) =~= seq![
        entry("configured"@, truth(v.configured)),
        entry("client_id"@, option_text(v.client_id.deep_view())),
    ]);
    write_record("ApiKeyStatus", &fields)
}

/// An error.
pub open spec fn error_debug(e: ErrorView) -> Seq<char> {
    match e {
        ErrorView::Locked => "Locked"@,
        ErrorView::BadPassword => "BadPassword"@,
        ErrorView::Network(s) => around("Network"@, quoted(s)),
        ErrorView::TwoFactorRequired => "TwoFactorRequired"@,
        ErrorView::NoSuchItem(s) => around("NoSuchItem"@, quoted(s)),
        ErrorView::AmbiguousItem { name, ids } => record(
            "AmbiguousItem"@,
            seq![entry("name"@, quoted(name)), entry("ids"@, bracketed(all_quoted(ids)))],
        ),
        ErrorView::NoSuchField { item, field } => record(
            "NoSuchField"@,
            seq![entry("item"@, quoted(item)), entry("field"@, quoted(field))],
        ),
        ErrorView::Decrypt(s) => around("Decrypt"@, quoted(s)),
        ErrorView::ClipboardUnavailable => "ClipboardUnavailable"@,
        ErrorView::Offline => "Offline"@,
        ErrorView::BadPin { attempts_remaining } => record(
            "BadPin"@,
            seq![entry("attempts_remaining"@, decimal(attempts_remaining as nat))],
        ),
        ErrorView::PinLockedOut => "PinLockedOut"@,
        ErrorView::PinNotSet => "PinNotSet"@,
        ErrorView::FingerprintUnavailable(s) => around("FingerprintUnavailable"@, quoted(s)),
        ErrorView::Internal(s) => around("Internal"@, quoted(s)),
    }
}

fn write_error(e: &Error) -> (out: String)
    ensures
        out@ == error_debug(e.deep_view()),
{
    let mut fields: Vec<String> = Vec::new();
    match e {
        Error::Locked => "Locked".to_owned(),
        Error::BadPassword => "BadPassword".to_owned(),
        Error::Network(s) => write_around("Network", quote(s.as_str()).as_str()),
        Error::TwoFactorRequired => "TwoFactorRequired".to_owned(),
        Error::NoSuchItem(s) => write_around("NoSuchItem", quote(s.as_str()).as_str()),
        Error::AmbiguousItem { name, ids } => {
            fields.push(write_entry("name", quote(name.as_str()).as_str()));
            let list: String = write_bracketed(&write_quoted(ids));
            fields.push(write_entry("ids", list.as_str()));
            assert(texts(fields@) =~= seq![
                entry("name"@, quoted(name@)),
                entry("ids"@, bracketed(all_quoted(texts(ids@)))),
            ]);
            write_record("AmbiguousItem", &fields)
        },
        Error::NoSuchField { item, field } => {
            fields.push(write_entry("item", quote(item.as_str()).as_str()));
            fields.push(write_entry("field", quote(field.as_str()).as_str()));
            assert(texts(fields@) =~= seq![
                entry("item"@, quoted(item@)),
                entry("field"@, quoted(field@)),
            ]);
            write_record("NoSuchField", &fields)
        },
        Error::Decrypt(s) => write_around("Decrypt", quote(s.as_str()).as_str()),
        Error::ClipboardUnavailable => "ClipboardUnavailable".to_owned(),
        Error::Offline => "Offline".to_owned(),
        Error::BadPin { attempts_remaining } => {
            let left: String = decimal_text(*attempts_remaining as u64);
            fields.push(write_entry("attempts_remaining", left.as_str()));
            assert(texts(fields@) =~= seq![
                entry("attempts_remaining"@, decimal(*attempts_remaining as nat)),
            ]);
            write_record("BadPin", &fields)
        },
        Error::PinLockedOut => "PinLockedOut".to_owned(),
        Error::PinNotSet => "PinNotSet".to_owned(),
        Error::FingerprintUnavailable(s) => write_around(
            "FingerprintUnavailable",
            quote(s.as_str()).as_str(),
        ),
        Error::Internal(s) => write_around("Internal", quote(s.as_str()).as_str()),
    }
}

/// The rows of a list.
pub open spec fn rows_debug(rows: Seq<ListEntry>) -> Seq<Seq<char>> {
    rows.map_values(|r: ListEntry| row_debug(r.deep_view()))
}

fn write_rows(rows: &Vec<ListEntry>) -> (out: Vec<String>)
    ensures
        texts(out@) == rows_debug(rows@),
{
    let mut out: Vec<String> = Vec::new();
    let mut i: usize = 0;
    while i < rows.len()
        invariant
            i <= rows@.len(),
            out@.len() == i,
            forall|k: int| 0 <= k < i ==> (#[trigger] out@[k])@ == row_debug(rows@[k].deep_view()),
        decreases rows.len() - i,
    {
        out.push(write_row(&rows[i]));
        i += 1;
    }
    assert(texts(out@) =~= rows_debug(rows@));
    out
}

/// An answer.
pub open spec fn response_debug(r: Response) -> Seq<char> {
    match r {
        Response::Done => "Ok"@,
        Response::Status(s) => around("Status"@, status_debug(s.deep_view())),
        Response::List(rows) => around("List"@, bracketed(rows_debug(rows@))),
        Response::Item(i) => around("Item"@, item_debug(i.deep_view())),
        Response::Removed(d) => around("Removed"@, named_debug("Removed"@, d.deep_view())),
        Response::Saved(d) => around("Saved"@, named_debug("Saved"@, d.deep_view())),
        Response::Copied(c) => around(
            "Copied"@,
            record(
                "Copied"@,
                seq![entry("clear_after_secs"@, decimal(c.clear_after_secs as nat))],
            ),
        ),
        Response::PinStatus(p) => around("PinStatus"@, pin_debug(p)),
        Response::ApiKeyStatus(a) => around(
            "ApiKeyStatus"@,
            api_key_status_debug(a.configured, a.client_id.deep_view()),
        ),
        Response::Error(e) => around("Error"@, error_debug(e.deep_view())),
    }
}

impl Response {
    /// The answer for logs and error messages.
    pub fn debug_text(&self) -> (out: String)
        ensures
            out@ == response_debug(*self),
    {
        match self {
            Response::Done => "Ok".to_owned(),
            Response::Status(s) => write_around("Status", write_status(s).as_str()),
            Response::List(rows) => write_around(
                "List",
                write_bracketed(&write_rows(rows)).as_str(),
            ),
            Response::Item(i) => write_around("Item", write_item(i).as_str()),
            Response::Removed(d) => write_around(
                "Removed",
                write_named("Removed", d.id.as_str(), d.name.as_str()).as_str(),
            ),
            Response::Saved(d) => write_around(
                "Saved",
                write_named("Saved", d.id.as_str(), d.name.as_str()).as_str(),
            ),
            Response::Copied(c) => {
                let secs: String = decimal_text(c.clear_after_secs);
                let mut fields: Vec<String> = Vec::new();
                fields.push(write_entry("clear_after_secs", secs.as_str()));
                assert(texts(fields@) =~= seq![
                    entry("clear_after_secs"@, decimal(c.clear_after_secs as nat)),
                ]);
                write_around("Copied", write_record("Copied", &fields).as_str())
            },
            Response::PinStatus(p) => write_around("PinStatus", write_pin(p).as_str()),
            Response::ApiKeyStatus(a) => write_around(
                "ApiKeyStatus",
                write_api_key_status(a).as_str(),
            ),
            Response::Error(e) => write_around("Error", write_error(e).as_str()),
        }
    }
}

/// A field is named in messages as it is written out in logs, but in lower case.
/// A user-defined field keeps the case of its own name.
pub proof fn fields_are_named_in_lower_case(f: Field)
    ensures
        !(f is Custom) ==> field_name(f) == ascii_lower_text(field_debug(f)),
        f matches Field::Custom(name) ==> field_name(f) == "custom:"@ + name@ && field_debug(f)
            == "Custom("@ + quoted(name@) + ")"@,
{
    match f {
        Field::Password => {
            reveal_strlit("Password");
            reveal_strlit("password");
            assert(ascii_lower_text("Password"@) =~= "password"@);
        },
        Field::Username => {
            reveal_strlit("Username");
            reveal_strlit("username");
            assert(ascii_lower_text("Username"@) =~= "username"@);
        },
        Field::Totp => {
            reveal_strlit("Totp");
            reveal_strlit("totp");
            assert(ascii_lower_text("Totp"@) =~= "totp"@);
        },
        Field::Notes => {
            reveal_strlit("Notes");
            reveal_strlit("notes");
            assert(ascii_lower_text("Notes"@) =~= "notes"@);
        },
        Field::Uri => {
            reveal_strlit("Uri");
            reveal_strlit("uri");
            assert(ascii_lower_text("Uri"@) =~= "uri"@);
        },
        Field::CardCardholder => {
            reveal_strlit("CardCardholder");
            reveal_strlit("cardcardholder");
            assert(ascii_lower_text("CardCardholder"@) =~= "cardcardholder"@);
        },
        Field::CardNumber => {
            reveal_strlit("CardNumber");
            reveal_strlit("cardnumber");
            assert(ascii_lower_text("CardNumber"@) =~= "cardnumber"@);
        },
        Field::CardBrand => {
            reveal_strlit("CardBrand");
            reveal_strlit("cardbrand");
            assert(ascii_lower_text("CardBrand"@) =~= "cardbrand"@);
        },
        Field::CardExpiry => {
            reveal_strlit("CardExpiry");
            reveal_strlit("cardexpiry");
            assert(ascii_lower_text("CardExpiry"@) =~= "cardexpiry"@);
        },
        Field::CardCode => {
            reveal_strlit("CardCode");
            reveal_strlit("cardcode");
            assert(ascii_lower_text("CardCode"@) =~= "cardcode"@);
        },
        Field::IdentityName => {
            reveal_strlit("IdentityName");
            reveal_strlit("identityname");
            assert(ascii_lower_text("IdentityName"@) =~= "identityname"@);
        },
        Field::IdentityEmail => {
            reveal_strlit("IdentityEmail");
            reveal_strlit("identityemail");
            assert(ascii_lower_text("IdentityEmail"@) =~= "identityemail"@);
        },
        Field::IdentityPhone => {
            reveal_strlit("IdentityPhone");
            reveal_strlit("identityphone");
            assert(ascii_lower_text("IdentityPhone"@) =~= "identityphone"@);
        },
        Field::IdentityAddress => {
            reveal_strlit("IdentityAddress");
            reveal_strlit("identityaddress");
            assert(ascii_lower_text("IdentityAddress"@) =~= "identityaddress"@);
        },
        Field::IdentityTitle => {
            reveal_strlit("IdentityTitle");
            reveal_strlit("identitytitle");
            assert(ascii_lower_text("IdentityTitle"@) =~= "identitytitle"@);
        },
        Field::IdentityFirstName => {
            reveal_strlit("IdentityFirstName");
            reveal_strlit("identityfirstname");
            assert(ascii_lower_text("IdentityFirstName"@) =~= "identityfirstname"@);
        },
        Field::IdentityMiddleName => {
            reveal_strlit("IdentityMiddleName");
            reveal_strlit("identitymiddlename");
            assert(ascii_lower_text("IdentityMiddleName"@) =~= "identitymiddlename"@);
        },
        Field::IdentityLastName => {
            reveal_strlit("IdentityLastName");
            reveal_strlit("identitylastname");
            assert(ascii_lower_text("IdentityLastName"@) =~= "identitylastname"@);
        },
        Field::IdentityUsername => {
            reveal_strlit("IdentityUsername");
            reveal_strlit("identityusername");
            assert(ascii_lower_text("IdentityUsername"@) =~= "identityusername"@);
        },
        Field::IdentityCompany => {
            reveal_strlit("IdentityCompany");
            reveal_strlit("identitycompany");
            assert(ascii_lower_text("IdentityCompany"@) =~= "identitycompany"@);
        },
        Field::IdentitySsn => {
            reveal_strlit("IdentitySsn");
            reveal_strlit("identityssn");
            assert(ascii_lower_text("IdentitySsn"@) =~= "identityssn"@);
        },
        Field::IdentityPassport => {
            reveal_strlit("IdentityPassport");
            reveal_strlit("identitypassport");
            assert(ascii_lower_text("IdentityPassport"@) =~= "identitypassport"@);
        },
        Field::IdentityLicense => {
            reveal_strlit("IdentityLicense");
            reveal_strlit("identitylicense");
            assert(ascii_lower_text("IdentityLicense"@) =~= "identitylicense"@);
        },
        Field::IdentityAddress1 => {
            reveal_strlit("IdentityAddress1");
            reveal_strlit("identityaddress1");
            assert(ascii_lower_text("IdentityAddress1"@) =~= "identityaddress1"@);
        },
        Field::IdentityAddress2 => {
            reveal_strlit("IdentityAddress2");
            reveal_strlit("identityaddress2");
            assert(ascii_lower_text("IdentityAddress2"@) =~= "identityaddress2"@);
        },
        Field::IdentityAddress3 => {
            reveal_strlit("IdentityAddress3");
            reveal_strlit("identityaddress3");
            assert(ascii_lower_text("IdentityAddress3"@) =~= "identityaddress3"@);
        },
        Field::IdentityCity => {
            reveal_strlit("IdentityCity");
            reveal_strlit("identitycity");
            assert(ascii_lower_text("IdentityCity"@) =~= "identitycity"@);
        },
        Field::IdentityState => {
            reveal_strlit("IdentityState");
            reveal_strlit("identitystate");
            assert(ascii_lower_text("IdentityState"@) =~= "identitystate"@);
        },
        Field::IdentityPostal => {
            reveal_strlit("IdentityPostal");
            reveal_strlit("identitypostal");
            assert(ascii_lower_text("IdentityPostal"@) =~= "identitypostal"@);
        },
        Field::IdentityCountry => {
            reveal_strlit("IdentityCountry");
            reveal_strlit("identitycountry");
            assert(ascii_lower_text("IdentityCountry"@) =~= "identitycountry"@);
        },
        Field::Custom(name) => {
            reveal_strlit("Custom(");
            reveal_strlit("Custom");
            reveal_strlit("(");
            assert("Custom"@ + "("@ =~= "Custom("@);
        },
    }
}

/// An answer is written out with everything in it: a field with its label before
/// it, and a value around what it holds.
pub proof fn answers_are_written_out(s: Status, i: Item, e: Error, rows: Vec<ListEntry>)
    ensures
        response_debug(Response::Status(s)) == "Status("@ + status_debug(s.deep_view()) + ")"@,
        response_debug(Response::Item(i)) == "Item("@ + item_debug(i.deep_view()) + ")"@,
        response_debug(Response::Error(e)) == "Error("@ + error_debug(e.deep_view()) + ")"@,
        response_debug(Response::Done) == "Ok"@,
        rows_debug(rows@).len() == rows@.len(),
        forall|k: int|
            0 <= k < rows@.len() ==> #[trigger] rows_debug(rows@)[k] == row_debug(
                rows@[k].deep_view(),
            ),
{
    reveal_strlit("Status(");
    reveal_strlit("Status");
    reveal_strlit("Item(");
    reveal_strlit("Item");
    reveal_strlit("Error(");
    reveal_strlit("Error");
    reveal_strlit("(");
    assert("Status"@ + "("@ =~= "Status("@);
    assert("Item"@ + "("@ =~= "Item("@);
    assert("Error"@ + "("@ =~= "Error("@);
}

} // verus!
