//! Writing items: what a new item holds, and what an edit changes.
use vstd::prelude::*;
use vstd::string::*;
use vstd::utf8::{decode_utf8, valid_utf8};
use crate::text::{copy_text, lowercase, same_text, to_lower, utf8_text};
use crate::text_map::lookup;
use crate::vault_agent::vault::{folder_lookup, folder_view, Vault, VaultView};
use crate::vault_core::cipher::{
    card_fields, card_of_fields, draw_ivs, each_field_opens, field_texts, fields_open, holds_identity,
    holds_text, identity_fields, identity_of_fields, item_keys, iv_at, opened_card, opened_cipher,
    opened_field, opened_fields, opened_identity, opened_login, primary_uri, seal_field,
    seal_fields, sealed_card_holds_each_field, sealed_field_holds, sealed_field_opens,
    sealed_fields_open, sealed_identity_holds_each_field, seals_card, seals_field, seals_fields,
    seals_identity, Card, CardView, Cipher, CipherView, DecryptOptions, Identity, IdentityView,
    Login, LoginUri, LoginUriView, LoginView, PlainCard, PlainCipher, PlainCipherView,
    PlainIdentity, CARD_IV, IDENTITY_IV, ITEM_IV_BYTES, LOGIN_IV, NAME_IV, NOTES_IV,
};
use crate::vault_core::error::prefixed;
use crate::vault_ipc::proto::{CardWrite, Error, ErrorView, IdentityWrite};

verus! {

/// Fields to write. For a new item the name is needed; for an existing one,
/// absent fields stay as they are.
pub struct CipherWrite {
    /// Display name.
    pub name: Option<String>,
    /// Folder, by identifier or name.
    pub folder: Option<String>,
    /// Notes.
    pub notes: Option<String>,
    /// Login username.
    pub username: Option<String>,
    /// Login password (secret).
    pub password: Option<Vec<u8>>,
    /// One-time-password secret or URI (secret).
    pub totp: Option<Vec<u8>>,
    /// Primary login address.
    pub uri: Option<String>,
    /// Card fields.
    pub card: Option<CardWrite>,
    /// Identity fields.
    pub identity: Option<IdentityWrite>,
}

impl Default for CipherWrite {
    fn default() -> (r: Self)
        ensures
            r.name is None,
            r.folder is None,
            r.notes is None,
            r.username is None,
            r.password is None,
            r.totp is None,
            r.uri is None,
            r.card is None,
            r.identity is None,
    {
        CipherWrite {
            name: None,
            folder: None,
            notes: None,
            username: None,
            password: None,
            totp: None,
            uri: None,
            card: None,
            identity: None,
        }
    }
}

/// The text of an optional secret, which must be UTF-8.
pub open spec fn secret_text(o: Option<Vec<u8>>) -> Result<Option<Seq<char>>, ErrorView> {
    match o {
        None => Ok(None),
        Some(b) => if valid_utf8(b@) {
            Ok(Some(decode_utf8(b@)))
        } else {
            Err(ErrorView::Internal("secret was not valid UTF-8"@))
        },
    }
}

/// The card that fields to write stand for: first the number, then the code
/// must be UTF-8.
pub open spec fn card_written(w: CardWrite) -> Result<CardView, ErrorView> {
    match (secret_text(w.number), secret_text(w.code)) {
        (Err(e), _) => Err(e),
        (_, Err(e)) => Err(e),
        (Ok(number), Ok(code)) => Ok(
            CardView {
                cardholder_name: w.cardholder.deep_view(),
                brand: w.brand.deep_view(),
                number,
                exp_month: w.exp_month.deep_view(),
                exp_year: w.exp_year.deep_view(),
                code,
            },
        ),
    }
}

/// The identity that fields to write stand for: the social security number,
/// the passport and the license number must be UTF-8.
pub open spec fn identity_written(w: IdentityWrite) -> Result<IdentityView, ErrorView> {
    match (secret_text(w.ssn), secret_text(w.passport_number), secret_text(w.license_number)) {
        (Err(e), _, _) => Err(e),
        (_, Err(e), _) => Err(e),
        (_, _, Err(e)) => Err(e),
        (Ok(ssn), Ok(passport_number), Ok(license_number)) => Ok(
            IdentityView {
                title: w.title.deep_view(),
                first_name: w.first_name.deep_view(),
                middle_name: w.middle_name.deep_view(),
                last_name: w.last_name.deep_view(),
                username: w.username.deep_view(),
                company: w.company.deep_view(),
                ssn,
                passport_number,
                license_number,
                email: w.email.deep_view(),
                phone: w.phone.deep_view(),
                address1: w.address1.deep_view(),
                address2: w.address2.deep_view(),
                address3: w.address3.deep_view(),
                city: w.city.deep_view(),
                state: w.state.deep_view(),
                postal_code: w.postal_code.deep_view(),
                country: w.country.deep_view(),
            },
        ),
    }
}

/// The identifier of the first folder from `i` on with a name, in whichever
/// case.
pub open spec fn folder_named(folders: Seq<(Seq<char>, Seq<char>)>, name: Seq<char>, i: int) -> Option<
    Seq<char>,
>
    decreases folders.len() - i,
{
    if i >= folders.len() {
        None
    } else if lowercase(folders[i].1) == lowercase(name) {
        Some(folders[i].0)
    } else {
        folder_named(folders, name, i + 1)
    }
}

/// The folder that a selector stands for: the one with that identifier, else
/// one with that name; no folder where there is no selector.
pub open spec fn folder_resolved(v: VaultView, folder: Option<Seq<char>>) -> Result<
    Option<Seq<char>>,
    ErrorView,
> {
    match folder {
        None => Ok(None),
        Some(f) => if lookup(v.folders, f) is Some {
            Ok(Some(f))
        } else {
            match folder_named(v.folders, f, 0) {
                Some(id) => Ok(Some(id)),
                None => Err(ErrorView::NoSuchItem("folder '"@ + f + "'"@)),
            }
        },
    }
}

/// `r` is the text `v`, or the error `v`.
pub open spec fn text_is(
    r: Result<Option<String>, Error>,
    v: Result<Option<Seq<char>>, ErrorView>,
) -> bool {
    match (r, v) {
        (Ok(a), Ok(b)) => a.deep_view() == b,
        (Err(a), Err(b)) => a.deep_view() == b,
        _ => false,
    }
}

/// The plain item that fields to write stand for, or what is wrong with them.
pub open spec fn item_written(v: VaultView, cipher_type: u8, w: CipherWrite) -> Result<
    PlainCipherView,
    ErrorView,
> {
    match (folder_resolved(v, w.folder.deep_view()), w.name) {
        (Err(e), _) => Err(e),
        (_, None) => Err(ErrorView::Internal("add requires a name"@)),
        (Ok(folder_id), Some(name)) => match (
            card_for(cipher_type, w.card),
            identity_for(cipher_type, w.identity),
            secret_text(w.password),
            secret_text(w.totp),
        ) {
            (Err(e), _, _, _) => Err(e),
            (_, Err(e), _, _) => Err(e),
            (_, _, Err(e), _) => Err(e),
            (_, _, _, Err(e)) => Err(e),
            (Ok(card), Ok(identity), Ok(password), Ok(totp)) => Ok(
                PlainCipherView {
                    id: Seq::empty(),
                    cipher_type,
                    folder_id,
                    name: Some(name@),
                    notes: w.notes.deep_view(),
                    username: w.username.deep_view(),
                    password,
                    totp,
                    primary_uri: w.uri.deep_view(),
                    card,
                    identity,
                },
            ),
        },
    }
}

/// The card of a new item: that of the fields to write, for a card.
pub open spec fn card_for(cipher_type: u8, card: Option<CardWrite>) -> Result<
    Option<CardView>,
    ErrorView,
> {
    match card {
        Some(w) if cipher_type == 3 => match card_written(w) {
            Err(e) => Err(e),
            Ok(c) => Ok(Some(c)),
        },
        _ => Ok(None),
    }
}

/// The identity of a new item: that of the fields to write, for an identity.
pub open spec fn identity_for(cipher_type: u8, identity: Option<IdentityWrite>) -> Result<
    Option<IdentityView>,
    ErrorView,
> {
    match identity {
        Some(w) if cipher_type == 4 => match identity_written(w) {
            Err(e) => Err(e),
            Ok(i) => Ok(Some(i)),
        },
        _ => Ok(None),
    }
}

/// Card fields to change.
pub type CardEdit = PlainCard;

/// Identity fields to change.
pub type IdentityEdit = PlainIdentity;

/// Fields of an item to change; absent fields stay as they are.
pub struct EditOverlay {
    /// Display name.
    pub name: Option<String>,
    /// Folder.
    pub folder_id: Option<String>,
    /// Whether the folder changes, to none where none is given.
    pub folder_provided: bool,
    /// Notes.
    pub notes: Option<String>,
    /// Login username.
    pub username: Option<String>,
    /// Login password.
    pub password: Option<String>,
    /// One-time-password secret or URI.
    pub totp: Option<String>,
    /// Primary login address.
    pub uri: Option<String>,
    /// Card fields.
    pub card: Option<CardEdit>,
    /// Identity fields.
    pub identity: Option<IdentityEdit>,
}

/// What an [`EditOverlay`] holds.
pub struct OverlayView {
    /// Display name.
    pub name: Option<Seq<char>>,
    /// Folder.
    pub folder_id: Option<Seq<char>>,
    /// Whether the folder changes.
    pub folder_provided: bool,
    /// Notes.
    pub notes: Option<Seq<char>>,
    /// Login username.
    pub username: Option<Seq<char>>,
    /// Login password.
    pub password: Option<Seq<char>>,
    /// One-time-password secret or URI.
    pub totp: Option<Seq<char>>,
    /// Primary login address.
    pub uri: Option<Seq<char>>,
    /// Card fields.
    pub card: Option<CardView>,
    /// Identity fields.
    pub identity: Option<IdentityView>,
}

impl DeepView for EditOverlay {
    type V = OverlayView;

    open spec fn deep_view(&self) -> OverlayView {
        OverlayView {
            name: self.name.deep_view(),
            folder_id: self.folder_id.deep_view(),
            folder_provided: self.folder_provided,
            notes: self.notes.deep_view(),
            username: self.username.deep_view(),
            password: self.password.deep_view(),
            totp: self.totp.deep_view(),
            uri: self.uri.deep_view(),
            card: self.card.deep_view(),
            identity: self.identity.deep_view(),
        }
    }
}

/// The new value where there is one, else the old one.
pub open spec fn changed(new: Option<Seq<char>>, old_value: Option<Seq<char>>) -> Option<Seq<char>> {
    match new {
        Some(s) => Some(s),
        None => old_value,
    }
}

/// A login without fields.
pub open spec fn empty_login() -> LoginView {
    LoginView { username: None, password: None, totp: None, uris: None }
}

/// Addresses with another primary one.
pub open spec fn with_primary(uris: Option<Seq<LoginUriView>>, uri: Seq<char>) -> Seq<LoginUriView> {
    match uris {
        Some(u) if u.len() > 0 => u.update(0, LoginUriView { uri: Some(uri) }),
        _ => seq![LoginUriView { uri: Some(uri) }],
    }
}

/// Whether an overlay changes a field of a login.
pub open spec fn touches_login(o: OverlayView) -> bool {
    o.username is Some || o.password is Some || o.totp is Some || o.uri is Some
}

/// A login with the fields of an overlay.
pub open spec fn merged_login(login: Option<LoginView>, o: OverlayView) -> Option<LoginView> {
    if touches_login(o) {
        let l = match login {
            Some(l) => l,
            None => empty_login(),
        };
        Some(
            LoginView {
                username: changed(o.username, l.username),
                password: changed(o.password, l.password),
                totp: changed(o.totp, l.totp),
                uris: match o.uri {
                    None => l.uris,
                    Some(u) => Some(with_primary(l.uris, u)),
                },
            },
        )
    } else {
        login
    }
}

/// A card with the fields of another where that has them.
pub open spec fn merged_card(card: Option<CardView>, edit: Option<CardView>) -> Option<CardView> {
    match (card, edit) {
        (_, None) => card,
        (None, Some(e)) => Some(e),
        (Some(c), Some(e)) => Some(
            CardView {
                cardholder_name: changed(e.cardholder_name, c.cardholder_name),
                brand: changed(e.brand, c.brand),
                number: changed(e.number, c.number),
                exp_month: changed(e.exp_month, c.exp_month),
                exp_year: changed(e.exp_year, c.exp_year),
                code: changed(e.code, c.code),
            },
        ),
    }
}

/// An identity with the fields of another where that has them.
pub open spec fn merged_identity(identity: Option<IdentityView>, edit: Option<IdentityView>) -> Option<
    IdentityView,
> {
    match (identity, edit) {
        (_, None) => identity,
        (None, Some(e)) => Some(e),
        (Some(i), Some(e)) => Some(
            IdentityView {
                title: changed(e.title, i.title),
                first_name: changed(e.first_name, i.first_name),
                middle_name: changed(e.middle_name, i.middle_name),
                last_name: changed(e.last_name, i.last_name),
                username: changed(e.username, i.username),
                company: changed(e.company, i.company),
                ssn: changed(e.ssn, i.ssn),
                passport_number: changed(e.passport_number, i.passport_number),
                license_number: changed(e.license_number, i.license_number),
                email: changed(e.email, i.email),
                phone: changed(e.phone, i.phone),
                address1: changed(e.address1, i.address1),
                address2: changed(e.address2, i.address2),
                address3: changed(e.address3, i.address3),
                city: changed(e.city, i.city),
                state: changed(e.state, i.state),
                postal_code: changed(e.postal_code, i.postal_code),
                country: changed(e.country, i.country),
            },
        ),
    }
}

/// An encrypted item with the encrypted fields of an overlay. Everything that
/// the overlay does not name stays as it is.
pub open spec fn merged(c: CipherView, o: OverlayView) -> CipherView {
    CipherView {
        name: changed(o.name, c.name),
        folder_id: if o.folder_provided { o.folder_id } else { c.folder_id },
        notes: changed(o.notes, c.notes),
        login: merged_login(c.login, o),
        card: merged_card(c.card, o.card),
        identity: merged_identity(c.identity, o.identity),
        ..c
    }
}

/// `s` is `o` with each text in an envelope, under the initialization vectors
/// `ivs`.
pub open spec fn seals_overlay(
    s: OverlayView,
    o: OverlayView,
    enc: Seq<u8>,
    mac: Seq<u8>,
    ivs: Seq<u8>,
) -> bool {
    &&& s.folder_id == o.folder_id
    &&& s.folder_provided == o.folder_provided
    &&& seals_field(s.name, o.name, enc, mac, iv_at(ivs, NAME_IV as int))
    &&& seals_field(s.notes, o.notes, enc, mac, iv_at(ivs, NOTES_IV as int))
    &&& seals_field(s.username, o.username, enc, mac, iv_at(ivs, LOGIN_IV as int))
    &&& seals_field(s.password, o.password, enc, mac, iv_at(ivs, LOGIN_IV + 1))
    &&& seals_field(s.totp, o.totp, enc, mac, iv_at(ivs, LOGIN_IV + 2))
    &&& seals_field(s.uri, o.uri, enc, mac, iv_at(ivs, LOGIN_IV + 3))
    &&& seals_card(s.card, o.card, enc, mac, ivs)
    &&& seals_identity(s.identity, o.identity, enc, mac, ivs)
}

/// `new` is `c` with the texts of `o`, each in an envelope of its own under the
/// initialization vectors `ivs`.
pub open spec fn edited(
    new: CipherView,
    c: CipherView,
    o: OverlayView,
    enc: Seq<u8>,
    mac: Seq<u8>,
    ivs: Seq<u8>,
) -> bool {
    exists|s: OverlayView| seals_overlay(s, o, enc, mac, ivs) && new == #[trigger] merged(c, s)
}

/// An edit keeps what it does not name: the identifier, the kind, the
/// organization, the item's own key, the user-defined fields, every address
/// but the primary one, and each field that the overlay leaves out.
pub proof fn edit_keeps_the_rest(
    new: CipherView,
    c: CipherView,
    o: OverlayView,
    enc: Seq<u8>,
    mac: Seq<u8>,
    ivs: Seq<u8>,
)
    requires
        edited(new, c, o, enc, mac, ivs),
    ensures
        new.id == c.id,
        new.cipher_type == c.cipher_type,
        new.organization_id == c.organization_id,
        new.key == c.key,
        new.fields == c.fields,
        o.name is None ==> new.name == c.name,
        o.notes is None ==> new.notes == c.notes,
        !o.folder_provided ==> new.folder_id == c.folder_id,
        !touches_login(o) ==> new.login == c.login,
        o.card is None ==> new.card == c.card,
        o.identity is None ==> new.identity == c.identity,
        c.login matches Some(l) ==> new.login matches Some(n) && {
            &&& o.username is None ==> n.username == l.username
            &&& o.password is None ==> n.password == l.password
            &&& o.totp is None ==> n.totp == l.totp
            &&& o.uri is None ==> n.uris == l.uris
            &&& l.uris matches Some(u) ==> n.uris matches Some(w) && (u.len() > 0 ==> w.len()
                == u.len()) && forall|i: int| 0 < i < u.len() ==> #[trigger] w[i] == u[i]
        },
{
    let s = choose|s: OverlayView|
        seals_overlay(s, o, enc, mac, ivs) && new == #[trigger] merged(c, s);
    assert(touches_login(s) == touches_login(o));
}

/// An edit takes what it names: each text of the overlay is what the field
/// opens to afterwards, under the keys that the edit was made with.
pub proof fn edit_takes_what_it_names(
    new: CipherView,
    c: CipherView,
    o: OverlayView,
    enc: Seq<u8>,
    mac: Seq<u8>,
    ivs: Seq<u8>,
)
    requires
        edited(new, c, o, enc, mac, ivs),
    ensures
        o.folder_provided ==> new.folder_id == o.folder_id,
        o.name is Some ==> opened_field(new.name, enc, mac) == Ok::<
            Option<Seq<char>>,
            crate::vault_core::error::Error,
        >(o.name),
        o.notes is Some ==> opened_field(new.notes, enc, mac) == Ok::<
            Option<Seq<char>>,
            crate::vault_core::error::Error,
        >(o.notes),
        touches_login(o) ==> new.login is Some,
        o.username is Some ==> opened_field(new.login->Some_0.username, enc, mac) == Ok::<
            Option<Seq<char>>,
            crate::vault_core::error::Error,
        >(o.username),
        o.password is Some ==> opened_field(new.login->Some_0.password, enc, mac) == Ok::<
            Option<Seq<char>>,
            crate::vault_core::error::Error,
        >(o.password),
        o.totp is Some ==> opened_field(new.login->Some_0.totp, enc, mac) == Ok::<
            Option<Seq<char>>,
            crate::vault_core::error::Error,
        >(o.totp),
        o.uri is Some ==> opened_field(
            primary_uri(new.login->Some_0.uris),
            enc,
            mac,
        ) == Ok::<Option<Seq<char>>, crate::vault_core::error::Error>(o.uri),
{
    let s = choose|s: OverlayView|
        seals_overlay(s, o, enc, mac, ivs) && new == #[trigger] merged(c, s);
    sealed_field_opens(s.name, o.name, enc, mac, iv_at(ivs, NAME_IV as int));
    sealed_field_opens(s.notes, o.notes, enc, mac, iv_at(ivs, NOTES_IV as int));
    sealed_field_opens(s.username, o.username, enc, mac, iv_at(ivs, LOGIN_IV as int));
    sealed_field_opens(s.password, o.password, enc, mac, iv_at(ivs, LOGIN_IV + 1));
    sealed_field_opens(s.totp, o.totp, enc, mac, iv_at(ivs, LOGIN_IV + 2));
    sealed_field_opens(s.uri, o.uri, enc, mac, iv_at(ivs, LOGIN_IV + 3));
}

/// A decrypted item with the texts of an overlay, as far as they are asked for.
pub open spec fn overlaid(p: PlainCipherView, o: OverlayView, opts: DecryptOptions) -> PlainCipherView {
    PlainCipherView {
        folder_id: if o.folder_provided { o.folder_id } else { p.folder_id },
        name: changed(o.name, p.name),
        notes: if opts.notes { changed(o.notes, p.notes) } else { None },
        username: if opts.username { changed(o.username, p.username) } else { None },
        password: if opts.password { changed(o.password, p.password) } else { None },
        totp: if opts.totp { changed(o.totp, p.totp) } else { None },
        primary_uri: if opts.primary_uri { changed(o.uri, p.primary_uri) } else { None },
        card: if opts.card { merged_card(p.card, o.card) } else { None },
        identity: if opts.identity { merged_identity(p.identity, o.identity) } else { None },
        ..p
    }
}

/// Fields of which some were replaced by sealed ones open to what was sealed,
/// and the others to what they opened to before.
proof fn merged_fields_open(
    old_fields: Seq<Option<Seq<char>>>,
    sealed_fields: Seq<Option<Seq<char>>>,
    asked: Seq<Option<Seq<char>>>,
    new_fields: Seq<Option<Seq<char>>>,
    enc: Seq<u8>,
    mac: Seq<u8>,
    ivs: Seq<u8>,
    from: int,
)
    requires
        opened_fields(old_fields, enc, mac) is Ok,
        seals_fields(sealed_fields, asked, enc, mac, ivs, from),
        old_fields.len() == sealed_fields.len(),
        new_fields.len() == sealed_fields.len(),
        forall|i: int|
            0 <= i < new_fields.len() ==> #[trigger] new_fields[i] == changed(
                sealed_fields[i],
                old_fields[i],
            ),
    ensures
        opened_fields(new_fields, enc, mac) == Ok::<
            Seq<Option<Seq<char>>>,
            crate::vault_core::error::Error,
        >(
            Seq::new(
                new_fields.len(),
                |i: int| changed(asked[i], opened_fields(old_fields, enc, mac)->Ok_0[i]),
            ),
        ),
{
    let plain = opened_fields(old_fields, enc, mac)->Ok_0;
    let now = Seq::new(new_fields.len(), |i: int| changed(asked[i], plain[i]));
    assert forall|i: int| 0 <= i < new_fields.len() implies opened_field(
        #[trigger] new_fields[i],
        enc,
        mac,
    ) == Ok::<Option<Seq<char>>, crate::vault_core::error::Error>(now[i]) by {
        each_field_opens(old_fields, enc, mac, i);
        assert(seals_field(sealed_fields[i], asked[i], enc, mac, iv_at(ivs, from + i)));
        sealed_field_opens(sealed_fields[i], asked[i], enc, mac, iv_at(ivs, from + i));
    }
    fields_open(new_fields, now, enc, mac);
}

proof fn edited_card_opens(
    opts: DecryptOptions,
    c: Option<CardView>,
    s: Option<CardView>,
    o: Option<CardView>,
    enc: Seq<u8>,
    mac: Seq<u8>,
    ivs: Seq<u8>,
)
    requires
        opened_card(opts.card, c, enc, mac) is Ok,
        seals_card(s, o, enc, mac, ivs),
    ensures
        opened_card(opts.card, merged_card(c, s), enc, mac) == Ok::<
            Option<CardView>,
            crate::vault_core::error::Error,
        >(
            if opts.card {
                merged_card(opened_card(opts.card, c, enc, mac)->Ok_0, o)
            } else {
                None
            },
        ),
{
    if opts.card && s is Some {
        let fields = card_fields(s->Some_0);
        let asked = card_fields(o->Some_0);
        match c {
            None => {
                sealed_fields_open(fields, asked, enc, mac, ivs, CARD_IV as int);
                assert(card_of_fields(asked) == o->Some_0);
            },
            Some(c) => {
                let now = card_fields(merged_card(Some(c), s)->Some_0);
                merged_fields_open(
                    card_fields(c),
                    fields,
                    asked,
                    now,
                    enc,
                    mac,
                    ivs,
                    CARD_IV as int,
                );
            },
        }
    }
}

#[verifier::rlimit(40)]
proof fn merged_identity_by_field(c: IdentityView, s: IdentityView, i: int)
    requires
        0 <= i < 18,
    ensures
        identity_fields(merged_identity(Some(c), Some(s))->Some_0)[i] == changed(
            identity_fields(s)[i],
            identity_fields(c)[i],
        ),
{
}

proof fn identity_from_changed(
    plain: Seq<Option<Seq<char>>>,
    o: IdentityView,
    now: Seq<Option<Seq<char>>>,
)
    requires
        plain.len() == 18,
        now.len() == 18,
        forall|i: int|
            0 <= i < 18 ==> #[trigger] now[i] == changed(identity_fields(o)[i], plain[i]),
    ensures
        Some(identity_of_fields(now)) == merged_identity(
            Some(identity_of_fields(plain)),
            Some(o),
        ),
{
    let f = identity_fields(o);
    assert(now[0] == changed(f[0], plain[0]) && now[1] == changed(f[1], plain[1]) && now[2]
        == changed(f[2], plain[2]) && now[3] == changed(f[3], plain[3]) && now[4] == changed(
        f[4],
        plain[4],
    ) && now[5] == changed(f[5], plain[5]));
    assert(now[6] == changed(f[6], plain[6]) && now[7] == changed(f[7], plain[7]) && now[8]
        == changed(f[8], plain[8]) && now[9] == changed(f[9], plain[9]) && now[10] == changed(
        f[10],
        plain[10],
    ) && now[11] == changed(f[11], plain[11]));
    assert(now[12] == changed(f[12], plain[12]) && now[13] == changed(f[13], plain[13]) && now[14]
        == changed(f[14], plain[14]) && now[15] == changed(f[15], plain[15]) && now[16] == changed(
        f[16],
        plain[16],
    ) && now[17] == changed(f[17], plain[17]));
}

#[verifier::rlimit(40)]
proof fn edited_identity_opens(
    opts: DecryptOptions,
    c: Option<IdentityView>,
    s: Option<IdentityView>,
    o: Option<IdentityView>,
    enc: Seq<u8>,
    mac: Seq<u8>,
    ivs: Seq<u8>,
)
    requires
        opened_identity(opts.identity, c, enc, mac) is Ok,
        seals_identity(s, o, enc, mac, ivs),
    ensures
        opened_identity(opts.identity, merged_identity(c, s), enc, mac) == Ok::<
            Option<IdentityView>,
            crate::vault_core::error::Error,
        >(
            if opts.identity {
                merged_identity(opened_identity(opts.identity, c, enc, mac)->Ok_0, o)
            } else {
                None
            },
        ),
{
    if opts.identity && s is Some {
        match c {
            None => {
                sealed_fields_open(
                    identity_fields(s->Some_0),
                    identity_fields(o->Some_0),
                    enc,
                    mac,
                    ivs,
                    IDENTITY_IV as int,
                );
                identity_of_its_fields(o->Some_0);
            },
            Some(c) => {
                changed_identity_opens(c, s->Some_0, o->Some_0, enc, mac, ivs);
            },
        }
    }
}

proof fn identity_of_its_fields(i: IdentityView)
    ensures
        identity_of_fields(identity_fields(i)) == i,
        identity_fields(i).len() == 18,
{
}

proof fn changed_identity_opens(
    c: IdentityView,
    s: IdentityView,
    o: IdentityView,
    enc: Seq<u8>,
    mac: Seq<u8>,
    ivs: Seq<u8>,
)
    requires
        opened_fields(identity_fields(c), enc, mac) is Ok,
        seals_fields(identity_fields(s), identity_fields(o), enc, mac, ivs, IDENTITY_IV as int),
    ensures
        ({
            let now = identity_fields(merged_identity(Some(c), Some(s))->Some_0);
            let before = opened_fields(identity_fields(c), enc, mac)->Ok_0;
            &&& opened_fields(now, enc, mac) is Ok
            &&& Some(identity_of_fields(opened_fields(now, enc, mac)->Ok_0)) == merged_identity(
                Some(identity_of_fields(before)),
                Some(o),
            )
        }),
{
    changed_identity_fields_open(
        identity_fields(c),
        identity_fields(s),
        identity_fields(o),
        identity_fields(merged_identity(Some(c), Some(s))->Some_0),
        c,
        s,
        o,
        enc,
        mac,
        ivs,
    );
}

/// The same, over the fields of the identities without the identities.
proof fn changed_identity_fields_open(
    before: Seq<Option<Seq<char>>>,
    fields: Seq<Option<Seq<char>>>,
    asked: Seq<Option<Seq<char>>>,
    now: Seq<Option<Seq<char>>>,
    c: IdentityView,
    s: IdentityView,
    o: IdentityView,
    enc: Seq<u8>,
    mac: Seq<u8>,
    ivs: Seq<u8>,
)
    requires
        before == identity_fields(c),
        fields == identity_fields(s),
        asked == identity_fields(o),
        now == identity_fields(merged_identity(Some(c), Some(s))->Some_0),
        opened_fields(before, enc, mac) is Ok,
        seals_fields(fields, asked, enc, mac, ivs, IDENTITY_IV as int),
    ensures
        opened_fields(now, enc, mac) is Ok,
        Some(identity_of_fields(opened_fields(now, enc, mac)->Ok_0)) == merged_identity(
            Some(identity_of_fields(opened_fields(before, enc, mac)->Ok_0)),
            Some(o),
        ),
{
    identity_of_its_fields(c);
    identity_of_its_fields(s);
    identity_of_its_fields(o);
    identity_of_its_fields(merged_identity(Some(c), Some(s))->Some_0);
    assert forall|i: int| 0 <= i < 18 implies #[trigger] now[i] == changed(
        fields[i],
        before[i],
    ) by {
        merged_identity_by_field(c, s, i);
    }
    merged_fields_open(before, fields, asked, now, enc, mac, ivs, IDENTITY_IV as int);
    each_field_opens(before, enc, mac, 0);
    identity_from_changed(
        opened_fields(before, enc, mac)->Ok_0,
        o,
        opened_fields(now, enc, mac)->Ok_0,
    );
}

#[verifier::rlimit(40)]
proof fn edited_login_opens(
    opts: DecryptOptions,
    c: Option<LoginView>,
    s: OverlayView,
    o: OverlayView,
    enc: Seq<u8>,
    mac: Seq<u8>,
    ivs: Seq<u8>,
)
    requires
        opened_login(c, enc, mac, opts) is Ok,
        seals_overlay(s, o, enc, mac, ivs),
    ensures
        opened_login(merged_login(c, s), enc, mac, opts) is Ok,
        ({
            let before = opened_login(c, enc, mac, opts)->Ok_0;
            let now = opened_login(merged_login(c, s), enc, mac, opts)->Ok_0;
            &&& now[0] == (if opts.username { changed(o.username, before[0]) } else { None })
            &&& now[1] == (if opts.password { changed(o.password, before[1]) } else { None })
            &&& now[2] == (if opts.totp { changed(o.totp, before[2]) } else { None })
            &&& now[3] == (if opts.primary_uri { changed(o.uri, before[3]) } else { None })
        }),
{
    let l = match c {
        Some(l) => l,
        None => empty_login(),
    };
    let masked = seq![
        if opts.username { l.username } else { None },
        if opts.password { l.password } else { None },
        if opts.totp { l.totp } else { None },
        if opts.primary_uri { primary_uri(l.uris) } else { None },
    ];
    let sealed_fields = seq![
        if opts.username { s.username } else { None },
        if opts.password { s.password } else { None },
        if opts.totp { s.totp } else { None },
        if opts.primary_uri { s.uri } else { None },
    ];
    let asked = seq![
        if opts.username { o.username } else { None },
        if opts.password { o.password } else { None },
        if opts.totp { o.totp } else { None },
        if opts.primary_uri { o.uri } else { None },
    ];
    let none = seq![None::<Seq<char>>, None, None, None];
    if c is None {
        assert(masked =~= none);
        fields_open(none, none, enc, mac);
    }
    assert(opened_fields(masked, enc, mac) == opened_login(c, enc, mac, opts));
    each_field_opens(masked, enc, mac, 0);
    each_field_opens(masked, enc, mac, 1);
    each_field_opens(masked, enc, mac, 2);
    each_field_opens(masked, enc, mac, 3);
    if touches_login(s) {
        let n = merged_login(c, s)->Some_0;
        let now = seq![
            if opts.username { n.username } else { None },
            if opts.password { n.password } else { None },
            if opts.totp { n.totp } else { None },
            if opts.primary_uri { primary_uri(n.uris) } else { None },
        ];
        assert(primary_uri(n.uris) == changed(s.uri, primary_uri(l.uris)));
        assert(seals_fields(sealed_fields, asked, enc, mac, ivs, LOGIN_IV as int));
        merged_fields_open(
            masked,
            sealed_fields,
            asked,
            now,
            enc,
            mac,
            ivs,
            LOGIN_IV as int,
        );
    }
}

/// A changed item reads back with the texts of the overlay in place of those it
/// names, and as before otherwise, whichever fields are asked for. It is read
/// under the keys that reading uses: those of the item, where it has its own.
pub proof fn edited_item_reads_back(
    new: CipherView,
    c: CipherView,
    o: OverlayView,
    p: PlainCipherView,
    enc: Seq<u8>,
    mac: Seq<u8>,
    keys: (Seq<u8>, Seq<u8>),
    ivs: Seq<u8>,
    opts: DecryptOptions,
)
    requires
        item_keys(c.key, enc, mac) == Ok::<
            (Seq<u8>, Seq<u8>),
            crate::vault_core::error::Error,
        >(keys),
        edited(new, c, o, keys.0, keys.1, ivs),
        opened_cipher(c, enc, mac, opts) == Ok::<
            PlainCipherView,
            crate::vault_core::error::Error,
        >(p),
    ensures
        opened_cipher(new, enc, mac, opts) == Ok::<
            PlainCipherView,
            crate::vault_core::error::Error,
        >(overlaid(p, o, opts)),
{
    let (k, m) = keys;
    let s = choose|s: OverlayView|
        seals_overlay(s, o, k, m, ivs) && new == #[trigger] merged(c, s);
    sealed_field_opens(s.name, o.name, k, m, iv_at(ivs, NAME_IV as int));
    sealed_field_opens(s.notes, o.notes, k, m, iv_at(ivs, NOTES_IV as int));
    edited_card_opens(opts, c.card, s.card, o.card, k, m, ivs);
    edited_identity_opens(opts, c.identity, s.identity, o.identity, k, m, ivs);
    edited_login_opens(opts, c.login, s, o, k, m, ivs);
}

/// An edit of a card takes the fields that it names, and keeps the others.
pub proof fn card_edit_takes_what_it_names(
    new: CipherView,
    c: CipherView,
    o: OverlayView,
    enc: Seq<u8>,
    mac: Seq<u8>,
    ivs: Seq<u8>,
    i: int,
)
    requires
        edited(new, c, o, enc, mac, ivs),
        o.card is Some,
        0 <= i < 6,
    ensures
        new.card is Some,
        ({
            let asked = card_fields(o.card->Some_0)[i];
            let now = card_fields(new.card->Some_0)[i];
            &&& asked is Some ==> opened_field(now, enc, mac) == Ok::<
                Option<Seq<char>>,
                crate::vault_core::error::Error,
            >(asked)
            &&& asked is None ==> now == (match c.card {
                Some(old_card) => card_fields(old_card)[i],
                None => None,
            })
        }),
{
    let s = choose|s: OverlayView|
        seals_overlay(s, o, enc, mac, ivs) && new == #[trigger] merged(c, s);
    sealed_field_opens(
        card_fields(s.card->Some_0)[i],
        card_fields(o.card->Some_0)[i],
        enc,
        mac,
        iv_at(ivs, CARD_IV + i),
    );
}

/// An edit of an identity takes the fields that it names, and keeps the others.
pub proof fn identity_edit_takes_what_it_names(
    new: CipherView,
    c: CipherView,
    o: OverlayView,
    enc: Seq<u8>,
    mac: Seq<u8>,
    ivs: Seq<u8>,
    i: int,
)
    requires
        edited(new, c, o, enc, mac, ivs),
        o.identity is Some,
        0 <= i < 18,
    ensures
        new.identity is Some,
        ({
            let asked = identity_fields(o.identity->Some_0)[i];
            let now = identity_fields(new.identity->Some_0)[i];
            &&& asked is Some ==> opened_field(now, enc, mac) == Ok::<
                Option<Seq<char>>,
                crate::vault_core::error::Error,
            >(asked)
            &&& asked is None ==> now == (match c.identity {
                Some(old_identity) => identity_fields(old_identity)[i],
                None => None,
            })
        }),
{
    let s = choose|s: OverlayView|
        seals_overlay(s, o, enc, mac, ivs) && new == #[trigger] merged(c, s);
    sealed_field_opens(
        identity_fields(s.identity->Some_0)[i],
        identity_fields(o.identity->Some_0)[i],
        enc,
        mac,
        iv_at(ivs, IDENTITY_IV + i),
    );
}

/// The text of an optional secret, which must be UTF-8.
pub fn bytes_to_string(bytes: Option<Vec<u8>>) -> (r: Result<Option<String>, Error>)
    ensures
        text_is(r, secret_text(bytes)),
{
    match bytes {
        None => Ok(None),
        Some(b) => {
            match utf8_text(b) {
                Some(s) => Ok(Some(s)),
                None => Err(Error::Internal("secret was not valid UTF-8".to_owned())),
            }
        },
    }
}

/// The card that fields to write stand for.
pub fn card_write_to_plain(w: CardWrite) -> (r: Result<PlainCard, Error>)
    ensures
        r matches Ok(c) ==> card_written(w) == Ok::<CardView, ErrorView>(c.deep_view()),
        r matches Err(e) ==> card_written(w) == Err::<CardView, ErrorView>(e.deep_view()),
{
    let number: Option<String> = bytes_to_string(w.number)?;
    let code: Option<String> = bytes_to_string(w.code)?;
    Ok(
        PlainCard {
            cardholder_name: w.cardholder,
            brand: w.brand,
            number,
            exp_month: w.exp_month,
            exp_year: w.exp_year,
            code,
        },
    )
}

/// The identity that fields to write stand for.
pub fn identity_write_to_plain(w: IdentityWrite) -> (r: Result<PlainIdentity, Error>)
    ensures
        r matches Ok(i) ==> identity_written(w) == Ok::<IdentityView, ErrorView>(i.deep_view()),
        r matches Err(e) ==> identity_written(w) == Err::<IdentityView, ErrorView>(e.deep_view()),
{
    let ssn: Option<String> = bytes_to_string(w.ssn)?;
    let passport_number: Option<String> = bytes_to_string(w.passport_number)?;
    let license_number: Option<String> = bytes_to_string(w.license_number)?;
    Ok(
        PlainIdentity {
            title: w.title,
            first_name: w.first_name,
            middle_name: w.middle_name,
            last_name: w.last_name,
            username: w.username,
            company: w.company,
            ssn,
            passport_number,
            license_number,
            email: w.email,
            phone: w.phone,
            address1: w.address1,
            address2: w.address2,
            address3: w.address3,
            city: w.city,
            state: w.state,
            postal_code: w.postal_code,
            country: w.country,
        },
    )
}

/// The folder of a vault that a selector stands for.
pub fn resolve_vault_folder(v: &Vault, folder: &Option<String>) -> (r: Result<
    Option<String>,
    Error,
>)
    ensures
        text_is(r, folder_resolved(v.deep_view(), folder.deep_view())),
{
    let f: &String = match folder {
        None => return Ok(None),
        Some(f) => f,
    };
    let ghost all = folder_view(v.folders@);
    proof {
        folder_lookup(v.folders@, f@);
    }
    if v.folders.contains_key(f.as_str()) {
        return Ok(Some(f.clone()));
    }
    let lower: String = to_lower(f.as_str());
    let mut i: usize = 0;
    while i < v.folders.len()
        invariant
            i <= v.folders@.len(),
            all == folder_view(v.folders@),
            folder.deep_view() == Some(f@),
            lookup(all, f@) is None,
            lower@ == lowercase(f@),
            folder_named(all, f@, 0) == folder_named(all, f@, i as int),
        decreases v.folders@.len() - i,
    {
        let (id, name) = v.folders.at(i);
        assert(all[i as int] == (id@, name@));
        if same_text(to_lower(name.as_str()).as_str(), lower.as_str()) {
            return Ok(Some(id.clone()));
        }
        i += 1;
    }
    let mut what: String = prefixed("folder '", f.as_str());
    what.append("'");
    Err(Error::NoSuchItem(what))
}

/// The plain item that fields to write stand for.
pub fn plain_item(v: &Vault, cipher_type: u8, w: CipherWrite) -> (r: Result<PlainCipher, Error>)
    ensures
        r matches Ok(p) ==> item_written(v.deep_view(), cipher_type, w) == Ok::<
            PlainCipherView,
            ErrorView,
        >(p.deep_view()),
        r matches Err(e) ==> item_written(v.deep_view(), cipher_type, w) == Err::<
            PlainCipherView,
            ErrorView,
        >(e.deep_view()),
{
    let folder_id: Option<String> = resolve_vault_folder(v, &w.folder)?;
    let name: String = match w.name {
        Some(n) => n,
        None => return Err(Error::Internal("add requires a name".to_owned())),
    };
    let card: Option<PlainCard> = match w.card {
        Some(c) if cipher_type == 3 => Some(card_write_to_plain(c)?),
        _ => None,
    };
    let identity: Option<PlainIdentity> = match w.identity {
        Some(i) if cipher_type == 4 => Some(identity_write_to_plain(i)?),
        _ => None,
    };
    let password: Option<String> = bytes_to_string(w.password)?;
    let totp: Option<String> = bytes_to_string(w.totp)?;
    let id: String = String::new();
    assert(id@ =~= Seq::empty());
    Ok(
        PlainCipher {
            id,
            cipher_type,
            folder_id,
            name: Some(name),
            notes: w.notes,
            username: w.username,
            password,
            totp,
            primary_uri: w.uri,
            card,
            identity,
        },
    )
}

fn seal_card(
    card: &Option<CardEdit>,
    enc_key: &[u8; 32],
    mac_key: &[u8; 32],
    ivs: &[u8],
) -> (r: Option<CardEdit>)
    requires
        ivs@.len() == ITEM_IV_BYTES,
    ensures
        seals_card(r.deep_view(), card.deep_view(), enc_key@, mac_key@, ivs@),
{
    match card {
        None => None,
        Some(c) => {
            let plain: Vec<Option<String>> = c.fields();
            assert(plain@.len() == field_texts(plain@).len());
            let fields: Vec<Option<String>> = seal_fields(&plain, enc_key, mac_key, ivs, CARD_IV);
            assert(fields@.len() == field_texts(fields@).len());
            let out: PlainCard = PlainCard::from_fields(fields);
            assert(card_fields(out.deep_view()) =~= field_texts(fields@));
            Some(out)
        },
    }
}

fn seal_identity(
    identity: &Option<IdentityEdit>,
    enc_key: &[u8; 32],
    mac_key: &[u8; 32],
    ivs: &[u8],
) -> (r: Option<IdentityEdit>)
    requires
        ivs@.len() == ITEM_IV_BYTES,
    ensures
        seals_identity(r.deep_view(), identity.deep_view(), enc_key@, mac_key@, ivs@),
{
    match identity {
        None => None,
        Some(i) => {
            let plain: Vec<Option<String>> = i.fields();
            assert(plain@.len() == field_texts(plain@).len());
            let fields: Vec<Option<String>> = seal_fields(
                &plain,
                enc_key,
                mac_key,
                ivs,
                IDENTITY_IV,
            );
            assert(fields@.len() == field_texts(fields@).len());
            let out: PlainIdentity = PlainIdentity::from_fields(fields);
            assert(identity_fields(out.deep_view()) =~= field_texts(fields@));
            Some(out)
        },
    }
}

/// The overlay with each text in an envelope, under the given initialization
/// vectors.
pub fn seal_overlay(o: &EditOverlay, enc_key: &[u8; 32], mac_key: &[u8; 32], ivs: &[u8]) -> (r:
    EditOverlay)
    requires
        ivs@.len() == ITEM_IV_BYTES,
    ensures
        seals_overlay(r.deep_view(), o.deep_view(), enc_key@, mac_key@, ivs@),
{
    let name: Option<String> = seal_field(&o.name, enc_key, mac_key, ivs, NAME_IV);
    let notes: Option<String> = seal_field(&o.notes, enc_key, mac_key, ivs, NOTES_IV);
    let username: Option<String> = seal_field(&o.username, enc_key, mac_key, ivs, LOGIN_IV);
    let password: Option<String> = seal_field(&o.password, enc_key, mac_key, ivs, LOGIN_IV + 1);
    let totp: Option<String> = seal_field(&o.totp, enc_key, mac_key, ivs, LOGIN_IV + 2);
    let uri: Option<String> = seal_field(&o.uri, enc_key, mac_key, ivs, LOGIN_IV + 3);
    let card: Option<CardEdit> = seal_card(&o.card, enc_key, mac_key, ivs);
    let identity: Option<IdentityEdit> = seal_identity(&o.identity, enc_key, mac_key, ivs);
    EditOverlay {
        name,
        folder_id: copy_text(&o.folder_id),
        folder_provided: o.folder_provided,
        notes,
        username,
        password,
        totp,
        uri,
        card,
        identity,
    }
}

fn either(new: &Option<String>, old_value: &Option<String>) -> (r: Option<String>)
    ensures
        r.deep_view() == changed(new.deep_view(), old_value.deep_view()),
{
    match new {
        Some(s) => Some(s.clone()),
        None => copy_text(old_value),
    }
}

fn set_primary(uris: &Option<Vec<LoginUri>>, uri: &String) -> (out: Vec<LoginUri>)
    ensures
        out.deep_view() == with_primary(uris.deep_view(), uri@),
{
    let mut out: Vec<LoginUri> = Vec::new();
    out.push(LoginUri { uri: Some(uri.clone()) });
    if let Some(u) = uris {
        let mut i: usize = 1;
        while i < u.len()
            invariant
                1 <= i,
                u@.len() > 0 ==> i <= u@.len(),
                u@.len() == 0 ==> i == 1,
                out@.len() == i,
                out@[0].deep_view() == (LoginUriView { uri: Some(uri@) }),
                forall|k: int|
                    1 <= k < i ==> (#[trigger] out@[k]).deep_view() == u@[k].deep_view(),
            decreases u.len() - i,
        {
            out.push(u[i].clone());
            i += 1;
        }
        proof {
            let want = with_primary(uris.deep_view(), uri@);
            assert(uris.deep_view() == Some(u.deep_view()));
            assert(u.deep_view().len() == u@.len());
            assert forall|k: int| 0 <= k < out@.len() implies #[trigger] out.deep_view()[k]
                == want[k] by {
                assert(out.deep_view()[k] == out@[k].deep_view());
                if k > 0 {
                    assert(u.deep_view()[k] == u@[k].deep_view());
                }
            }
            assert(out.deep_view() =~= want);
        }
    } else {
        assert(out.deep_view()[0] == out@[0].deep_view());
        assert(out.deep_view() =~= with_primary(uris.deep_view(), uri@));
    }
    out
}

fn merge_login(login: &Option<Login>, s: &EditOverlay) -> (r: Option<Login>)
    ensures
        r.deep_view() == merged_login(login.deep_view(), s.deep_view()),
{
    let base: Login = match login {
        Some(l) => l.clone(),
        None => Login::default(),
    };
    if s.username.is_some() || s.password.is_some() || s.totp.is_some() || s.uri.is_some() {
        Some(
            Login {
                username: either(&s.username, &base.username),
                password: either(&s.password, &base.password),
                totp: either(&s.totp, &base.totp),
                uris: match &s.uri {
                    None => base.uris,
                    Some(u) => Some(set_primary(&base.uris, u)),
                },
            },
        )
    } else {
        match login {
            None => None,
            Some(_) => Some(base),
        }
    }
}

fn merge_card(card: &Option<Card>, edit: &Option<CardEdit>) -> (r: Option<Card>)
    ensures
        r.deep_view() == merged_card(card.deep_view(), edit.deep_view()),
{
    match (card, edit) {
        (None, None) => None,
        (Some(c), None) => Some(c.clone()),
        (None, Some(e)) => Some(
            Card {
                cardholder_name: copy_text(&e.cardholder_name),
                brand: copy_text(&e.brand),
                number: copy_text(&e.number),
                exp_month: copy_text(&e.exp_month),
                exp_year: copy_text(&e.exp_year),
                code: copy_text(&e.code),
            },
        ),
        (Some(c), Some(e)) => Some(
            Card {
                cardholder_name: either(&e.cardholder_name, &c.cardholder_name),
                brand: either(&e.brand, &c.brand),
                number: either(&e.number, &c.number),
                exp_month: either(&e.exp_month, &c.exp_month),
                exp_year: either(&e.exp_year, &c.exp_year),
                code: either(&e.code, &c.code),
            },
        ),
    }
}

fn merge_identity(identity: &Option<Identity>, edit: &Option<IdentityEdit>) -> (r: Option<Identity>)
    ensures
        r.deep_view() == merged_identity(identity.deep_view(), edit.deep_view()),
{
    match (identity, edit) {
        (None, None) => None,
        (Some(i), None) => Some(i.clone()),
        (None, Some(e)) => Some(
            Identity {
                title: copy_text(&e.title),
                first_name: copy_text(&e.first_name),
                middle_name: copy_text(&e.middle_name),
                last_name: copy_text(&e.last_name),
                username: copy_text(&e.username),
                company: copy_text(&e.company),
                ssn: copy_text(&e.ssn),
                passport_number: copy_text(&e.passport_number),
                license_number: copy_text(&e.license_number),
                email: copy_text(&e.email),
                phone: copy_text(&e.phone),
                address1: copy_text(&e.address1),
                address2: copy_text(&e.address2),
                address3: copy_text(&e.address3),
                city: copy_text(&e.city),
                state: copy_text(&e.state),
                postal_code: copy_text(&e.postal_code),
                country: copy_text(&e.country),
            },
        ),
        (Some(i), Some(e)) => Some(
            Identity {
                title: either(&e.title, &i.title),
                first_name: either(&e.first_name, &i.first_name),
                middle_name: either(&e.middle_name, &i.middle_name),
                last_name: either(&e.last_name, &i.last_name),
                username: either(&e.username, &i.username),
                company: either(&e.company, &i.company),
                ssn: either(&e.ssn, &i.ssn),
                passport_number: either(&e.passport_number, &i.passport_number),
                license_number: either(&e.license_number, &i.license_number),
                email: either(&e.email, &i.email),
                phone: either(&e.phone, &i.phone),
                address1: either(&e.address1, &i.address1),
                address2: either(&e.address2, &i.address2),
                address3: either(&e.address3, &i.address3),
                city: either(&e.city, &i.city),
                state: either(&e.state, &i.state),
                postal_code: either(&e.postal_code, &i.postal_code),
                country: either(&e.country, &i.country),
            },
        ),
    }
}

/// Puts the encrypted fields of an overlay into an encrypted item.
pub fn merge_overlay(cipher: &mut Cipher, s: &EditOverlay)
    ensures
        final(cipher).deep_view() == merged(old(cipher).deep_view(), s.deep_view()),
{
    let name: Option<String> = either(&s.name, &cipher.name);
    let notes: Option<String> = either(&s.notes, &cipher.notes);
    let login: Option<Login> = merge_login(&cipher.login, s);
    let card: Option<Card> = merge_card(&cipher.card, &s.card);
    let identity: Option<Identity> = merge_identity(&cipher.identity, &s.identity);
    cipher.name = name;
    if s.folder_provided {
        cipher.folder_id = copy_text(&s.folder_id);
    }
    cipher.notes = notes;
    cipher.login = login;
    cipher.card = card;
    cipher.identity = identity;
}

/// No text is given.
pub open spec fn all_absent(fields: Seq<Option<Seq<char>>>) -> bool {
    forall|i: int| 0 <= i < fields.len() ==> (#[trigger] fields[i]) is None
}

/// An overlay without a text, which at most moves the item to another folder.
pub open spec fn seals_nothing(o: OverlayView) -> bool {
    &&& o.name is None
    &&& o.notes is None
    &&& !touches_login(o)
    &&& o.card matches Some(c) ==> all_absent(card_fields(c))
    &&& o.identity matches Some(i) ==> all_absent(identity_fields(i))
}

fn none_given(fields: &Vec<Option<String>>) -> (b: bool)
    ensures
        b == all_absent(field_texts(fields@)),
{
    let mut i: usize = 0;
    while i < fields.len()
        invariant
            i <= fields@.len(),
            forall|k: int| 0 <= k < i ==> (#[trigger] field_texts(fields@)[k]) is None,
        decreases fields.len() - i,
    {
        if fields[i].is_some() {
            assert(field_texts(fields@)[i as int] is Some);
            return false;
        }
        i += 1;
    }
    assert(field_texts(fields@).len() == fields@.len());
    true
}

/// Whether an overlay has no text.
pub fn has_no_text(o: &EditOverlay) -> (b: bool)
    ensures
        b == seals_nothing(o.deep_view()),
{
    let card: bool = match &o.card {
        None => true,
        Some(c) => none_given(&c.fields()),
    };
    let identity: bool = match &o.identity {
        None => true,
        Some(i) => none_given(&i.fields()),
    };
    o.name.is_none() && o.notes.is_none() && o.username.is_none() && o.password.is_none()
        && o.totp.is_none() && o.uri.is_none() && card && identity
}

/// A change without a text is the same under every key and every
/// initialization vector: the overlay merged as it is.
pub proof fn nothing_to_seal(
    c: CipherView,
    o: OverlayView,
    enc: Seq<u8>,
    mac: Seq<u8>,
    ivs: Seq<u8>,
)
    requires
        seals_nothing(o),
    ensures
        edited(merged(c, o), c, o, enc, mac, ivs),
{
    assert(seals_overlay(o, o, enc, mac, ivs));
}

/// Applies an overlay to an encrypted item, each changed field in an envelope
/// of its own under the given initialization vectors.
pub fn apply_cipher_edits_with(
    cipher: &mut Cipher,
    o: &EditOverlay,
    enc_key: &[u8; 32],
    mac_key: &[u8; 32],
    ivs: &[u8],
)
    requires
        ivs@.len() == ITEM_IV_BYTES,
    ensures
        edited(
            final(cipher).deep_view(),
            old(cipher).deep_view(),
            o.deep_view(),
            enc_key@,
            mac_key@,
            ivs@,
        ),
{
    let s: EditOverlay = seal_overlay(o, enc_key, mac_key, ivs);
    merge_overlay(cipher, &s);
}

/// Applies an overlay to an encrypted item, each changed field in an envelope
/// under a fresh initialization vector. The item stays as it is where there is
/// something to encrypt and the operating system has no randomness to give.
pub fn apply_cipher_edits(
    cipher: &mut Cipher,
    o: &EditOverlay,
    enc_key: &[u8; 32],
    mac_key: &[u8; 32],
) -> (r: Result<(), crate::vault_core::error::Error>)
    ensures
        r is Ok ==> exists|ivs: Seq<u8>|
            ivs.len() == ITEM_IV_BYTES && #[trigger] edited(
                final(cipher).deep_view(),
                old(cipher).deep_view(),
                o.deep_view(),
                enc_key@,
                mac_key@,
                ivs,
            ),
        r matches Err(e) ==> e == crate::vault_core::error::Error::Random && *final(cipher)
            == *old(cipher) && !seals_nothing(o.deep_view()),
{
    if has_no_text(o) {
        let ghost before = cipher.deep_view();
        merge_overlay(cipher, o);
        let ghost any = Seq::new(ITEM_IV_BYTES as nat, |i: int| 0u8);
        proof {
            nothing_to_seal(before, o.deep_view(), enc_key@, mac_key@, any);
        }
        return Ok(());
    }
    match draw_ivs() {
        None => Err(crate::vault_core::error::Error::Random),
        Some(ivs) => {
            apply_cipher_edits_with(cipher, o, enc_key, mac_key, ivs.as_slice());
            assert(edited(
                cipher.deep_view(),
                old(cipher).deep_view(),
                o.deep_view(),
                enc_key@,
                mac_key@,
                ivs@,
            ));
            Ok(())
        },
    }
}

/// `new` holds the text that is asked for, or is as it was where none is.
pub open spec fn takes_text(
    new: Option<Seq<char>>,
    before: Option<Seq<char>>,
    asked: Option<Seq<char>>,
    enc: Seq<u8>,
    mac: Seq<u8>,
) -> bool {
    match asked {
        Some(_) => holds_text(new, asked, enc, mac),
        None => new == before,
    }
}

/// Each field of the card `new` holds what `asked` names, or is as it was.
pub open spec fn takes_card(
    new: CardView,
    before: CardView,
    asked: CardView,
    enc: Seq<u8>,
    mac: Seq<u8>,
) -> bool {
    &&& takes_text(new.cardholder_name, before.cardholder_name, asked.cardholder_name, enc, mac)
    &&& takes_text(new.brand, before.brand, asked.brand, enc, mac)
    &&& takes_text(new.number, before.number, asked.number, enc, mac)
    &&& takes_text(new.exp_month, before.exp_month, asked.exp_month, enc, mac)
    &&& takes_text(new.exp_year, before.exp_year, asked.exp_year, enc, mac)
    &&& takes_text(new.code, before.code, asked.code, enc, mac)
}

/// Each field of the identity `new` holds what `asked` names, or is as it was.
pub open spec fn takes_identity(
    new: IdentityView,
    before: IdentityView,
    asked: IdentityView,
    enc: Seq<u8>,
    mac: Seq<u8>,
) -> bool {
    &&& takes_text(new.title, before.title, asked.title, enc, mac)
    &&& takes_text(new.first_name, before.first_name, asked.first_name, enc, mac)
    &&& takes_text(new.middle_name, before.middle_name, asked.middle_name, enc, mac)
    &&& takes_text(new.last_name, before.last_name, asked.last_name, enc, mac)
    &&& takes_text(new.username, before.username, asked.username, enc, mac)
    &&& takes_text(new.company, before.company, asked.company, enc, mac)
    &&& takes_text(new.ssn, before.ssn, asked.ssn, enc, mac)
    &&& takes_text(new.passport_number, before.passport_number, asked.passport_number, enc, mac)
    &&& takes_text(new.license_number, before.license_number, asked.license_number, enc, mac)
    &&& takes_text(new.email, before.email, asked.email, enc, mac)
    &&& takes_text(new.phone, before.phone, asked.phone, enc, mac)
    &&& takes_text(new.address1, before.address1, asked.address1, enc, mac)
    &&& takes_text(new.address2, before.address2, asked.address2, enc, mac)
    &&& takes_text(new.address3, before.address3, asked.address3, enc, mac)
    &&& takes_text(new.city, before.city, asked.city, enc, mac)
    &&& takes_text(new.state, before.state, asked.state, enc, mac)
    &&& takes_text(new.postal_code, before.postal_code, asked.postal_code, enc, mac)
    &&& takes_text(new.country, before.country, asked.country, enc, mac)
}

/// A card without fields.
pub open spec fn empty_card() -> CardView {
    CardView {
        cardholder_name: None,
        brand: None,
        number: None,
        exp_month: None,
        exp_year: None,
        code: None,
    }
}

/// An identity without fields.
pub open spec fn empty_identity() -> IdentityView {
    IdentityView {
        title: None,
        first_name: None,
        middle_name: None,
        last_name: None,
        username: None,
        company: None,
        ssn: None,
        passport_number: None,
        license_number: None,
        email: None,
        phone: None,
        address1: None,
        address2: None,
        address3: None,
        city: None,
        state: None,
        postal_code: None,
        country: None,
    }
}

/// The login `new` holds what the overlay names, or is as it was, and every
/// address but the first stays.
pub open spec fn takes_login(
    new: LoginView,
    before: LoginView,
    o: OverlayView,
    enc: Seq<u8>,
    mac: Seq<u8>,
) -> bool {
    &&& takes_text(new.username, before.username, o.username, enc, mac)
    &&& takes_text(new.password, before.password, o.password, enc, mac)
    &&& takes_text(new.totp, before.totp, o.totp, enc, mac)
    &&& match o.uri {
        None => new.uris == before.uris,
        Some(_) => match (new.uris, before.uris) {
            (Some(n), Some(b)) if b.len() > 0 => {
                &&& n.len() == b.len()
                &&& holds_text(n[0].uri, o.uri, enc, mac)
                &&& forall|i: int| 0 < i < n.len() ==> #[trigger] n[i] == b[i]
            },
            (Some(n), _) => n.len() == 1 && holds_text(n[0].uri, o.uri, enc, mac),
            (None, _) => false,
        },
    }
}

/// `new` is the item `c` after the overlay: what the overlay names is held under
/// the keys, each text in its own field, and the rest is as it was.
pub open spec fn takes_overlay(
    new: CipherView,
    c: CipherView,
    o: OverlayView,
    enc: Seq<u8>,
    mac: Seq<u8>,
) -> bool {
    &&& new.id == c.id
    &&& new.cipher_type == c.cipher_type
    &&& new.organization_id == c.organization_id
    &&& new.key == c.key
    &&& new.fields == c.fields
    &&& new.folder_id == (if o.folder_provided { o.folder_id } else { c.folder_id })
    &&& takes_text(new.name, c.name, o.name, enc, mac)
    &&& takes_text(new.notes, c.notes, o.notes, enc, mac)
    &&& if o.username is Some || o.password is Some || o.totp is Some || o.uri is Some {
        new.login is Some && takes_login(
            new.login->Some_0,
            match c.login {
                Some(l) => l,
                None => LoginView { username: None, password: None, totp: None, uris: None },
            },
            o,
            enc,
            mac,
        )
    } else {
        new.login == c.login
    }
    &&& match o.card {
        None => new.card == c.card,
        Some(e) => new.card is Some && takes_card(
            new.card->Some_0,
            match c.card {
                Some(x) => x,
                None => empty_card(),
            },
            e,
            enc,
            mac,
        ),
    }
    &&& match o.identity {
        None => new.identity == c.identity,
        Some(e) => new.identity is Some && takes_identity(
            new.identity->Some_0,
            match c.identity {
                Some(x) => x,
                None => empty_identity(),
            },
            e,
            enc,
            mac,
        ),
    }
}

#[verifier::rlimit(40)]
proof fn merged_identity_takes(
    c: Option<IdentityView>,
    s: IdentityView,
    o: IdentityView,
    enc: Seq<u8>,
    mac: Seq<u8>,
)
    requires
        holds_identity(s, o, enc, mac),
    ensures
        merged_identity(c, Some(s)) is Some,
        takes_identity(
            merged_identity(c, Some(s))->Some_0,
            match c {
                Some(x) => x,
                None => empty_identity(),
            },
            o,
            enc,
            mac,
        ),
{
}

/// A change takes every text that the overlay names into the field that it is
/// for, and leaves everything else as it was.
pub proof fn change_takes_the_overlay(
    new: CipherView,
    c: CipherView,
    o: OverlayView,
    enc: Seq<u8>,
    mac: Seq<u8>,
    ivs: Seq<u8>,
)
    requires
        edited(new, c, o, enc, mac, ivs),
    ensures
        takes_overlay(new, c, o, enc, mac),
{
    let s = choose|s: OverlayView|
        seals_overlay(s, o, enc, mac, ivs) && new == #[trigger] merged(c, s);
    sealed_field_holds(s.name, o.name, enc, mac, iv_at(ivs, NAME_IV as int));
    sealed_field_holds(s.notes, o.notes, enc, mac, iv_at(ivs, NOTES_IV as int));
    sealed_field_holds(s.username, o.username, enc, mac, iv_at(ivs, LOGIN_IV as int));
    sealed_field_holds(s.password, o.password, enc, mac, iv_at(ivs, LOGIN_IV + 1));
    sealed_field_holds(s.totp, o.totp, enc, mac, iv_at(ivs, LOGIN_IV + 2));
    sealed_field_holds(s.uri, o.uri, enc, mac, iv_at(ivs, LOGIN_IV + 3));
    sealed_card_holds_each_field(s.card, o.card, enc, mac, ivs);
    sealed_identity_holds_each_field(s.identity, o.identity, enc, mac, ivs);
    if o.identity is Some {
        merged_identity_takes(c.identity, s.identity->Some_0, o.identity->Some_0, enc, mac);
    }
}

/// Where there is no text to take, the change is the same under every key.
pub proof fn textless_change_takes_the_overlay(
    c: CipherView,
    o: OverlayView,
    enc: Seq<u8>,
    mac: Seq<u8>,
)
    requires
        seals_nothing(o),
    ensures
        takes_overlay(merged(c, o), c, o, enc, mac),
{
    nothing_to_seal(c, o, enc, mac, Seq::empty());
    change_takes_the_overlay(merged(c, o), c, o, enc, mac, Seq::empty());
}

proof fn first_folder_named(
    folders: Seq<(Seq<char>, Seq<char>)>,
    name: Seq<char>,
    i: int,
    at: int,
)
    requires
        0 <= i <= at <= folders.len(),
        at < folders.len() ==> lowercase(folders[at].1) == lowercase(name),
        forall|k: int| i <= k < at ==> lowercase((#[trigger] folders[k]).1) != lowercase(name),
    ensures
        at < folders.len() ==> folder_named(folders, name, i) == Some(folders[at].0),
        at == folders.len() ==> folder_named(folders, name, i) is None,
    decreases at - i,
{
    if i < at {
        assert(lowercase(folders[i].1) != lowercase(name));
        first_folder_named(folders, name, i + 1, at);
    }
}

/// A folder is selected by its identifier, else by its name in whichever case;
/// where neither fits there is no such folder, and without a selector there is
/// no folder.
pub proof fn folder_is_selected_by_identifier_or_name(v: VaultView, f: Seq<char>, at: int)
    requires
        0 <= at <= v.folders.len(),
        at < v.folders.len() ==> lowercase(v.folders[at].1) == lowercase(f),
        forall|k: int| 0 <= k < at ==> lowercase((#[trigger] v.folders[k]).1) != lowercase(f),
    ensures
        folder_resolved(v, None) == Ok::<Option<Seq<char>>, ErrorView>(None),
        lookup(v.folders, f) is Some ==> folder_resolved(v, Some(f)) == Ok::<
            Option<Seq<char>>,
            ErrorView,
        >(Some(f)),
        lookup(v.folders, f) is None && at < v.folders.len() ==> folder_resolved(v, Some(f))
            == Ok::<Option<Seq<char>>, ErrorView>(Some(v.folders[at].0)),
        lookup(v.folders, f) is None && at == v.folders.len() ==> folder_resolved(v, Some(f))
            == Err::<Option<Seq<char>>, ErrorView>(
            ErrorView::NoSuchItem("folder '"@ + f + "'"@),
        ),
{
    first_folder_named(v.folders, f, 0, at);
}

/// A secret to write is UTF-8, or there is none.
pub open spec fn is_text(b: Option<Vec<u8>>) -> bool {
    b matches Some(x) ==> valid_utf8(x@)
}

/// The text of a secret to write.
pub open spec fn text_in(b: Option<Vec<u8>>) -> Option<Seq<char>> {
    match b {
        Some(x) => Some(decode_utf8(x@)),
        None => None,
    }
}

/// Card fields to write are taken one by one, each for its own field; the
/// secrets among them must be UTF-8.
pub proof fn card_fields_are_taken_one_by_one(w: CardWrite)
    ensures
        is_text(w.number) && is_text(w.code) ==> (card_written(w) matches Ok(c) && {
            &&& c.cardholder_name == w.cardholder.deep_view()
            &&& c.brand == w.brand.deep_view()
            &&& c.number == text_in(w.number)
            &&& c.exp_month == w.exp_month.deep_view()
            &&& c.exp_year == w.exp_year.deep_view()
            &&& c.code == text_in(w.code)
        }),
        !is_text(w.number) || !is_text(w.code) ==> card_written(w) == Err::<CardView, ErrorView>(
            ErrorView::Internal("secret was not valid UTF-8"@),
        ),
{
}

/// Identity fields to write are taken one by one, each for its own field; the
/// secrets among them must be UTF-8.
pub proof fn identity_fields_are_taken_one_by_one(w: IdentityWrite)
    ensures
        is_text(w.ssn) && is_text(w.passport_number) && is_text(w.license_number) ==> (
        identity_written(w) matches Ok(i) && {
            &&& i.title == w.title.deep_view()
            &&& i.first_name == w.first_name.deep_view()
            &&& i.middle_name == w.middle_name.deep_view()
            &&& i.last_name == w.last_name.deep_view()
            &&& i.username == w.username.deep_view()
            &&& i.company == w.company.deep_view()
            &&& i.ssn == text_in(w.ssn)
            &&& i.passport_number == text_in(w.passport_number)
            &&& i.license_number == text_in(w.license_number)
            &&& i.email == w.email.deep_view()
            &&& i.phone == w.phone.deep_view()
            &&& i.address1 == w.address1.deep_view()
            &&& i.address2 == w.address2.deep_view()
            &&& i.address3 == w.address3.deep_view()
            &&& i.city == w.city.deep_view()
            &&& i.state == w.state.deep_view()
            &&& i.postal_code == w.postal_code.deep_view()
            &&& i.country == w.country.deep_view()
        }),
        !is_text(w.ssn) || !is_text(w.passport_number) || !is_text(w.license_number)
            ==> identity_written(w) == Err::<IdentityView, ErrorView>(
            ErrorView::Internal("secret was not valid UTF-8"@),
        ),
{
}

/// A secret is taken as the text that its bytes encode, and refused where they
/// encode none.
pub proof fn secret_is_taken_as_its_text(b: Option<Vec<u8>>)
    ensures
        is_text(b) ==> secret_text(b) == Ok::<Option<Seq<char>>, ErrorView>(text_in(b)),
        !is_text(b) ==> secret_text(b) == Err::<Option<Seq<char>>, ErrorView>(
            ErrorView::Internal("secret was not valid UTF-8"@),
        ),
{
}

/// A new item is what was written: each text in its own field, in the folder
/// that was selected, with the card of a card and the identity of an identity.
/// Without a name it is refused.
pub proof fn new_item_is_what_was_written(
    v: VaultView,
    cipher_type: u8,
    w: CipherWrite,
    folder: Option<Seq<char>>,
)
    requires
        folder_resolved(v, w.folder.deep_view()) == Ok::<Option<Seq<char>>, ErrorView>(folder),
        is_text(w.password),
        is_text(w.totp),
        cipher_type == 3 ==> (w.card matches Some(c) ==> is_text(c.number) && is_text(c.code)),
        cipher_type == 4 ==> (w.identity matches Some(i) ==> is_text(i.ssn) && is_text(
            i.passport_number,
        ) && is_text(i.license_number)),
    ensures
        w.name is None ==> item_written(v, cipher_type, w) == Err::<PlainCipherView, ErrorView>(
            ErrorView::Internal("add requires a name"@),
        ),
        w.name matches Some(name) ==> (item_written(v, cipher_type, w) matches Ok(p) && {
            &&& p.cipher_type == cipher_type
            &&& p.folder_id == folder
            &&& p.name == Some(name@)
            &&& p.notes == w.notes.deep_view()
            &&& p.username == w.username.deep_view()
            &&& p.password == text_in(w.password)
            &&& p.totp == text_in(w.totp)
            &&& p.primary_uri == w.uri.deep_view()
            &&& p.card is Some <==> cipher_type == 3 && w.card is Some
            &&& p.card matches Some(c) ==> card_written(w.card->Some_0) == Ok::<
                CardView,
                ErrorView,
            >(c)
            &&& p.identity is Some <==> cipher_type == 4 && w.identity is Some
            &&& p.identity matches Some(i) ==> identity_written(w.identity->Some_0) == Ok::<
                IdentityView,
                ErrorView,
            >(i)
        }),
{
}

} // verus!
