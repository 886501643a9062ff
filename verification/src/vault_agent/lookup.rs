//! Finding items and reading their fields.
use vstd::prelude::*;
use vstd::string::*;
use crate::text::{copy_text, join, join_texts, lowercase, same_text, texts, to_lower};
use crate::vault_agent::edit::{
    changed, edit_keeps_the_rest, edited, edited_item_reads_back, empty_login, merged, overlaid,
    seals_overlay, OverlayView,
};
use crate::vault_agent::vault::{base_keys, Vault, VaultView};
use crate::vault_core::cipher::{
    decrypt_optional, field_texts, fields_open, held_text_opens, holds_item, holds_text, item_keys,
    item_reads_as_its_envelopes_hold, iv_at, nothing_asked, opened_cipher, opened_field, opened_name, opened_under, primary_uri, sealed_field_opens, seals_cipher,
    stored_item_reads_back, stored_part, CardView, Cipher, CipherView, CustomField,
    CustomFieldView, DecryptOptions, IdentityView, PlainCard, PlainCipher, PlainCipherView,
    PlainIdentity, LOGIN_IV, NAME_IV, NOTES_IV,
};
use crate::vault_core::error::{error_text, prefixed};
use crate::vault_core::totp::{code_now, totp_now};
use crate::vault_ipc::proto::{field_name, Error, ErrorView, Field, Item, ItemView};

verus! {

/// Whether the name of an item is `wanted`, in whichever case.
pub open spec fn name_is(name: Option<Seq<char>>, wanted: Seq<char>) -> bool {
    match name {
        None => false,
        Some(n) => lowercase(n) == lowercase(wanted),
    }
}

/// Whether an item's name decrypts, and is `wanted` in whichever case.
pub open spec fn named(v: VaultView, c: CipherView, wanted: Seq<char>) -> bool {
    let (enc, mac) = base_keys(v, c);
    match opened_name(c, enc, mac) {
        Err(_) => false,
        Ok(name) => name_is(name, wanted),
    }
}

/// The least index from `i` on whose item has the identifier, or the length.
pub open spec fn id_index(ciphers: Seq<CipherView>, id: Seq<char>, i: int) -> int
    decreases ciphers.len() - i,
{
    if i >= ciphers.len() {
        ciphers.len() as int
    } else if ciphers[i].id == id {
        i
    } else {
        id_index(ciphers, id, i + 1)
    }
}

/// Which of the first `n` items have the name.
pub open spec fn hits(v: VaultView, wanted: Seq<char>, n: nat) -> Seq<int>
    decreases n,
{
    if n == 0 {
        Seq::empty()
    } else if named(v, v.ciphers[n - 1], wanted) {
        hits(v, wanted, (n - 1) as nat).push(n - 1)
    } else {
        hits(v, wanted, (n - 1) as nat)
    }
}

/// What a selection by name comes to, given the items with the name and their
/// identifiers.
pub open spec fn selected(found: Seq<int>, ids: Seq<Seq<char>>, selector: Seq<char>) -> Result<
    int,
    ErrorView,
> {
    if found.len() == 0 {
        Err(ErrorView::NoSuchItem(selector))
    } else if found.len() == 1 {
        Ok(found[0])
    } else {
        Err(ErrorView::AmbiguousItem { name: selector, ids })
    }
}

/// The item that a selector stands for: the one with that identifier, else the
/// one with that name, if no other has it.
pub open spec fn resolved(v: VaultView, selector: Seq<char>) -> Result<int, ErrorView> {
    let at = id_index(v.ciphers, selector, 0);
    if at < v.ciphers.len() {
        Ok(at)
    } else {
        let found = hits(v, selector, v.ciphers.len());
        selected(found, found.map_values(|i: int| v.ciphers[i].id), selector)
    }
}

proof fn hits_are_items(v: VaultView, wanted: Seq<char>, n: nat)
    requires
        n <= v.ciphers.len(),
    ensures
        forall|k: int|
            0 <= k < hits(v, wanted, n).len() ==> 0 <= #[trigger] hits(v, wanted, n)[k] < n && named(
                v,
                v.ciphers[hits(v, wanted, n)[k]],
                wanted,
            ),
    decreases n,
{
    if n > 0 {
        hits_are_items(v, wanted, (n - 1) as nat);
        let before = hits(v, wanted, (n - 1) as nat);
        let all = hits(v, wanted, n);
        assert forall|k: int| 0 <= k < all.len() implies 0 <= #[trigger] all[k] < n && named(
            v,
            v.ciphers[all[k]],
            wanted,
        ) by {
            if k < before.len() {
                assert(all[k] == before[k]);
            }
        }
    }
}

/// A selector stands for an item of the vault: one that has it as its
/// identifier, or as its name in whichever case.
pub proof fn resolved_item_matches(v: VaultView, selector: Seq<char>)
    ensures
        resolved(v, selector) matches Ok(i) ==> 0 <= i < v.ciphers.len() && (v.ciphers[i].id
            == selector || named(v, v.ciphers[i], selector)),
{
    id_index_is_first(v.ciphers, selector, 0);
    hits_are_items(v, selector, v.ciphers.len());
}

/// An identifier wins outright: where some item has the selector as its
/// identifier, the selector stands for such an item, whatever the names are.
pub proof fn identifier_wins(v: VaultView, selector: Seq<char>, k: int)
    requires
        0 <= k < v.ciphers.len(),
        v.ciphers[k].id == selector,
    ensures
        resolved(v, selector) matches Ok(i) && v.ciphers[i].id == selector,
{
    id_index_is_first(v.ciphers, selector, 0);
    id_index_is_before(v.ciphers, selector, 0, k);
}

proof fn id_index_is_before(ciphers: Seq<CipherView>, id: Seq<char>, i: int, k: int)
    requires
        0 <= i <= k < ciphers.len(),
        ciphers[k].id == id,
    ensures
        id_index(ciphers, id, i) <= k,
    decreases ciphers.len() - i,
{
    if ciphers[i].id != id {
        id_index_is_before(ciphers, id, i + 1, k);
    }
}

proof fn id_index_is_first(ciphers: Seq<CipherView>, id: Seq<char>, i: int)
    requires
        0 <= i <= ciphers.len(),
    ensures
        i <= id_index(ciphers, id, i) <= ciphers.len(),
        id_index(ciphers, id, i) < ciphers.len() ==> ciphers[id_index(ciphers, id, i)].id == id,
    decreases ciphers.len() - i,
{
    if i < ciphers.len() && ciphers[i].id != id {
        id_index_is_first(ciphers, id, i + 1);
    }
}

/// Whether an item is the one asked for: by identifier where one is given, by
/// name otherwise. One whose name does not decrypt is not.
pub open spec fn is_target(
    v: VaultView,
    c: CipherView,
    id: Option<Seq<char>>,
    query: Seq<char>,
) -> bool {
    let (enc, mac) = base_keys(v, c);
    match opened_name(c, enc, mac) {
        Err(_) => false,
        Ok(name) => match id {
            Some(want) => c.id == want,
            None => name_is(name, query),
        },
    }
}

/// The least index from `i` on whose item is the one asked for, or the length.
pub open spec fn target_index(v: VaultView, id: Option<Seq<char>>, query: Seq<char>, i: int) -> int
    decreases v.ciphers.len() - i,
{
    if i >= v.ciphers.len() {
        v.ciphers.len() as int
    } else if is_target(v, v.ciphers[i], id, query) {
        i
    } else {
        target_index(v, id, query, i + 1)
    }
}

/// What reading a field asks of an item.
pub open spec fn options_for(f: Field) -> DecryptOptions {
    match f {
        Field::Password => DecryptOptions { password: true, ..nothing_asked() },
        Field::Username => DecryptOptions { username: true, ..nothing_asked() },
        Field::Totp => DecryptOptions { totp: true, ..nothing_asked() },
        Field::Notes => DecryptOptions { notes: true, ..nothing_asked() },
        Field::Uri => DecryptOptions { primary_uri: true, ..nothing_asked() },
        Field::Custom(_) => nothing_asked(),
        Field::CardCardholder
        | Field::CardNumber
        | Field::CardBrand
        | Field::CardExpiry
        | Field::CardCode => DecryptOptions { card: true, ..nothing_asked() },
        _ => DecryptOptions { identity: true, ..nothing_asked() },
    }
}

/// A card's expiry as `MM/YYYY`, a month of one digit with a zero before it.
pub open spec fn expiry_of(c: CardView) -> Option<Seq<char>> {
    match (c.exp_month, c.exp_year) {
        (None, None) => None,
        (month, year) => {
            let m = match month {
                Some(m) => m,
                None => Seq::empty(),
            };
            let y = match year {
                Some(y) => y,
                None => Seq::empty(),
            };
            let mm = if vstd::utf8::encode_utf8(m).len() == 1 { "0"@ + m } else { m };
            Some(mm + "/"@ + y)
        },
    }
}

/// The texts among optional ones that are present and not empty.
pub open spec fn present(parts: Seq<Option<Seq<char>>>) -> Seq<Seq<char>>
    decreases parts.len(),
{
    if parts.len() == 0 {
        Seq::empty()
    } else {
        match parts.last() {
            Some(s) if s.len() > 0 => present(parts.drop_last()).push(s),
            _ => present(parts.drop_last()),
        }
    }
}

/// The texts joined, none where there are none.
pub open spec fn joined(parts: Seq<Seq<char>>, sep: Seq<char>) -> Option<Seq<char>> {
    if parts.len() == 0 {
        None
    } else {
        Some(join(parts, sep))
    }
}

/// The whole name of an identity.
pub open spec fn full_name(i: IdentityView) -> Option<Seq<char>> {
    joined(present(seq![i.first_name, i.middle_name, i.last_name]), " "@)
}

/// The whole address of an identity: the address lines, then city, state and
/// postal code on one line, then the country.
pub open spec fn full_address(i: IdentityView) -> Option<Seq<char>> {
    let city = present(seq![i.city, i.state, i.postal_code]);
    joined(
        present(seq![i.address1, i.address2, i.address3, joined(city, " "@), i.country]),
        "\n"@,
    )
}

/// The current one-time code of a stored secret.
pub open spec fn totp_value(secret: Option<Seq<char>>, clock: Option<u64>) -> Result<
    Option<Seq<char>>,
    ErrorView,
> {
    match secret {
        None => Ok(None),
        Some(s) => match totp_now(s, clock) {
            Err(e) => Err(ErrorView::Internal("totp: "@ + error_text(e))),
            Ok(code) => Ok(Some(code)),
        },
    }
}

/// A field of a decrypted card.
pub open spec fn card_value(c: CardView, f: Field) -> Option<Seq<char>> {
    match f {
        Field::CardCardholder => c.cardholder_name,
        Field::CardNumber => c.number,
        Field::CardBrand => c.brand,
        Field::CardCode => c.code,
        Field::CardExpiry => expiry_of(c),
        _ => None,
    }
}

/// A field of a decrypted identity.
pub open spec fn identity_value(i: IdentityView, f: Field) -> Option<Seq<char>> {
    match f {
        Field::IdentityName => full_name(i),
        Field::IdentityAddress => full_address(i),
        Field::IdentityTitle => i.title,
        Field::IdentityFirstName => i.first_name,
        Field::IdentityMiddleName => i.middle_name,
        Field::IdentityLastName => i.last_name,
        Field::IdentityUsername => i.username,
        Field::IdentityCompany => i.company,
        Field::IdentitySsn => i.ssn,
        Field::IdentityPassport => i.passport_number,
        Field::IdentityLicense => i.license_number,
        Field::IdentityEmail => i.email,
        Field::IdentityPhone => i.phone,
        Field::IdentityAddress1 => i.address1,
        Field::IdentityAddress2 => i.address2,
        Field::IdentityAddress3 => i.address3,
        Field::IdentityCity => i.city,
        Field::IdentityState => i.state,
        Field::IdentityPostal => i.postal_code,
        Field::IdentityCountry => i.country,
        _ => None,
    }
}

/// A field of a decrypted item.
pub open spec fn field_value(p: PlainCipherView, f: Field, clock: Option<u64>) -> Result<
    Option<Seq<char>>,
    ErrorView,
> {
    match f {
        Field::Password => Ok(p.password),
        Field::Username => Ok(p.username),
        Field::Totp => totp_value(p.totp, clock),
        Field::Notes => Ok(p.notes),
        Field::Uri => Ok(p.primary_uri),
        _ => match (p.card, p.identity) {
            (Some(c), _) => Ok(card_value(c, f)),
            (None, Some(i)) => Ok(identity_value(i, f)),
            (None, None) => Ok(None),
        },
    }
}

/// The least index from `i` on whose user-defined field has the name, or the
/// length. One whose name does not decrypt is passed over.
pub open spec fn custom_index(
    fields: Seq<CustomFieldView>,
    enc: Seq<u8>,
    mac: Seq<u8>,
    name: Seq<char>,
    i: int,
) -> int
    decreases fields.len() - i,
{
    if i >= fields.len() {
        fields.len() as int
    } else if opened_field(fields[i].name, enc, mac) == Ok::<
        Option<Seq<char>>,
        crate::vault_core::error::Error,
    >(Some(name)) {
        i
    } else {
        custom_index(fields, enc, mac, name, i + 1)
    }
}

/// The value of a user-defined field.
pub open spec fn custom_value(c: CipherView, enc: Seq<u8>, mac: Seq<u8>, name: Seq<char>) -> Result<
    Option<Seq<char>>,
    ErrorView,
> {
    match (c.fields, item_keys(c.key, enc, mac)) {
        (None, _) => Ok(None),
        (_, Err(e)) => Err(ErrorView::Decrypt(error_text(e))),
        (Some(fields), Ok((k, m))) => {
            let at = custom_index(fields, k, m, name, 0);
            if at >= fields.len() {
                Ok(None)
            } else {
                match opened_field(fields[at].value, k, m) {
                    Err(e) => Err(ErrorView::Decrypt(error_text(e))),
                    Ok(value) => Ok(value),
                }
            }
        },
    }
}

/// The value of a field of an item.
pub open spec fn item_value(
    c: CipherView,
    enc: Seq<u8>,
    mac: Seq<u8>,
    f: Field,
    clock: Option<u64>,
) -> Result<Option<Seq<char>>, ErrorView> {
    match opened_cipher(c, enc, mac, options_for(f)) {
        Err(e) => Err(ErrorView::Decrypt(error_text(e))),
        Ok(p) => match f {
            Field::Custom(name) => custom_value(c, enc, mac, name@),
            _ => field_value(p, f, clock),
        },
    }
}

/// The name under which an item is told: its own, or the query where it has
/// none.
pub open spec fn shown_name(v: VaultView, c: CipherView, query: Seq<char>) -> Seq<char> {
    let (enc, mac) = base_keys(v, c);
    match opened_name(c, enc, mac) {
        Ok(Some(n)) => n,
        _ => query,
    }
}

/// What reading a field at a reading of the clock gives.
pub open spec fn item_read(
    v: VaultView,
    id: Option<Seq<char>>,
    query: Seq<char>,
    f: Field,
    clock: Option<u64>,
) -> Result<ItemView, ErrorView> {
    let at = target_index(v, id, query, 0);
    if at >= v.ciphers.len() {
        Err(ErrorView::NoSuchItem(query))
    } else {
        let c = v.ciphers[at];
        let (enc, mac) = base_keys(v, c);
        let name = shown_name(v, c, query);
        match item_value(c, enc, mac, f, clock) {
            Err(e) => Err(e),
            Ok(None) => Err(ErrorView::NoSuchField { item: name, field: field_name(f) }),
            Ok(Some(value)) => Ok(
                ItemView { id: c.id, name, cipher_type: c.cipher_type, field: f, value },
            ),
        }
    }
}

proof fn only_match_is_the_target(v: VaultView, id: Seq<char>, query: Seq<char>, i: int)
    requires
        0 <= i < v.ciphers.len(),
        forall|k: int| 0 <= k < v.ciphers.len() - 1 ==> (#[trigger] v.ciphers[k]).id != id,
        is_target(v, v.ciphers.last(), Some(id), query),
    ensures
        target_index(v, Some(id), query, i) == v.ciphers.len() - 1,
    decreases v.ciphers.len() - i,
{
    if i < v.ciphers.len() - 1 {
        only_match_is_the_target(v, id, query, i + 1);
    }
}

/// A field of an item that was added is read as it was written: once the item
/// is kept under an identifier that no other item has, asking for that
/// identifier gives the value that was stored, or says that there is none.
pub proof fn added_field_is_read(
    v: VaultView,
    c: CipherView,
    p: PlainCipherView,
    ivs: Seq<u8>,
    id: Seq<char>,
    query: Seq<char>,
    f: Field,
    clock: Option<u64>,
)
    requires
        seals_cipher(c, p, v.user_enc, v.user_mac, ivs),
        forall|k: int| 0 <= k < v.ciphers.len() ==> (#[trigger] v.ciphers[k]).id != id,
        !(f is Custom),
    ensures
        ({
            let after = VaultView { ciphers: v.ciphers.push(CipherView { id, ..c }), ..v };
            let name = match p.name {
                Some(n) => n,
                None => query,
            };
            item_read(after, Some(id), query, f, clock) == (match field_value(
                stored_part(p),
                f,
                clock,
            ) {
                Err(e) => Err::<ItemView, ErrorView>(e),
                Ok(None) => Err(ErrorView::NoSuchField { item: name, field: field_name(f) }),
                Ok(Some(value)) => Ok(
                    ItemView { id, name, cipher_type: p.cipher_type, field: f, value },
                ),
            })
        }),
{
    let added = CipherView { id, ..c };
    let after = VaultView { ciphers: v.ciphers.push(added), ..v };
    let plain = PlainCipherView { id, ..p };
    stored_item_reads_back(added, plain, v.user_enc, v.user_mac, ivs, options_for(f));
    sealed_field_opens(
        added.name,
        p.name,
        v.user_enc,
        v.user_mac,
        iv_at(ivs, NAME_IV as int),
    );
    assert(base_keys(after, added) == (v.user_enc, v.user_mac));
    assert(after.ciphers.last() == added);
    only_match_is_the_target(after, id, query, 0);
}

proof fn same_identifiers_same_target(
    v: VaultView,
    id: Seq<char>,
    query: Seq<char>,
    at: int,
    i: int,
)
    requires
        0 <= i <= at < v.ciphers.len(),
        forall|k: int| 0 <= k < v.ciphers.len() && k != at ==> (#[trigger] v.ciphers[k]).id != id,
        is_target(v, v.ciphers[at], Some(id), query),
    ensures
        target_index(v, Some(id), query, i) == at,
    decreases at - i,
{
    if i < at {
        same_identifiers_same_target(v, id, query, at, i + 1);
    }
}

/// The value of a field of an item that was changed: that of the overlay where
/// it names the field, else what it was.
pub open spec fn edited_value(
    c: CipherView,
    p: PlainCipherView,
    o: OverlayView,
    enc: Seq<u8>,
    mac: Seq<u8>,
    f: Field,
    clock: Option<u64>,
) -> Result<Option<Seq<char>>, ErrorView> {
    match f {
        Field::Custom(name) => custom_value(c, enc, mac, name@),
        _ => field_value(overlaid(p, o, options_for(f)), f, clock),
    }
}

/// A field of an item that was changed is read as the change has it: once the
/// item is replaced, asking for its identifier, which no other item has, gives
/// the text of the overlay where it names the field, and what was there before
/// otherwise.
pub proof fn edited_field_is_read(
    v: VaultView,
    at: int,
    new: CipherView,
    o: OverlayView,
    p: PlainCipherView,
    keys: (Seq<u8>, Seq<u8>),
    ivs: Seq<u8>,
    query: Seq<char>,
    f: Field,
    clock: Option<u64>,
)
    requires
        0 <= at < v.ciphers.len(),
        v.ciphers[at].organization_id is None,
        forall|k: int|
            0 <= k < v.ciphers.len() && k != at ==> (#[trigger] v.ciphers[k]).id
                != v.ciphers[at].id,
        item_keys(v.ciphers[at].key, v.user_enc, v.user_mac) == Ok::<
            (Seq<u8>, Seq<u8>),
            crate::vault_core::error::Error,
        >(keys),
        edited(new, v.ciphers[at], o, keys.0, keys.1, ivs),
        opened_cipher(v.ciphers[at], v.user_enc, v.user_mac, options_for(f)) == Ok::<
            PlainCipherView,
            crate::vault_core::error::Error,
        >(p),
    ensures
        ({
            let c = v.ciphers[at];
            let after = VaultView { ciphers: v.ciphers.update(at, new), ..v };
            let name = match changed(o.name, p.name) {
                Some(n) => n,
                None => query,
            };
            item_read(after, Some(c.id), query, f, clock) == (match edited_value(
                c,
                p,
                o,
                v.user_enc,
                v.user_mac,
                f,
                clock,
            ) {
                Err(e) => Err::<ItemView, ErrorView>(e),
                Ok(None) => Err(ErrorView::NoSuchField { item: name, field: field_name(f) }),
                Ok(Some(value)) => Ok(
                    ItemView { id: c.id, name, cipher_type: c.cipher_type, field: f, value },
                ),
            })
        }),
{
    let c = v.ciphers[at];
    let after = VaultView { ciphers: v.ciphers.update(at, new), ..v };
    edit_keeps_the_rest(new, c, o, keys.0, keys.1, ivs);
    edited_item_reads_back(
        new,
        c,
        o,
        p,
        v.user_enc,
        v.user_mac,
        keys,
        ivs,
        options_for(f),
    );
    assert(base_keys(after, new) == (v.user_enc, v.user_mac));
    assert(opened_name(new, v.user_enc, v.user_mac) == Ok::<
        Option<Seq<char>>,
        crate::vault_core::error::Error,
    >(changed(o.name, p.name)));
    assert forall|k: int| 0 <= k < after.ciphers.len() && k != at implies (
    #[trigger] after.ciphers[k]).id != c.id by {
        assert(after.ciphers[k] == v.ciphers[k]);
    }
    same_identifiers_same_target(after, c.id, query, at, 0);
}

/// The text that an overlay gives for a field that is a text of its own.
pub open spec fn text_given(o: OverlayView, f: Field) -> Option<Seq<char>> {
    match f {
        Field::Password => o.password,
        Field::Username => o.username,
        Field::Totp => o.totp,
        Field::Notes => o.notes,
        Field::Uri => o.uri,
        _ => None,
    }
}

#[verifier::spinoff_prover]
#[verifier::rlimit(60)]
proof fn replaced_text_opens(
    new: CipherView,
    c: CipherView,
    o: OverlayView,
    enc: Seq<u8>,
    mac: Seq<u8>,
    ivs: Seq<u8>,
    name: Option<Seq<char>>,
    f: Field,
)
    requires
        edited(new, c, o, enc, mac, ivs),
        text_given(o, f) is Some,
        o.name is Some ==> name == o.name,
        o.name is None ==> opened_field(c.name, enc, mac) == Ok::<
            Option<Seq<char>>,
            crate::vault_core::error::Error,
        >(name),
    ensures
        ({
            let text = text_given(o, f);
            let opts = options_for(f);
            opened_under(new, enc, mac, opts) == Ok::<
                PlainCipherView,
                crate::vault_core::error::Error,
            >(
                PlainCipherView {
                    id: new.id,
                    cipher_type: new.cipher_type,
                    folder_id: new.folder_id,
                    name,
                    notes: if opts.notes { text } else { None },
                    username: if opts.username { text } else { None },
                    password: if opts.password { text } else { None },
                    totp: if opts.totp { text } else { None },
                    primary_uri: if opts.primary_uri { text } else { None },
                    card: None,
                    identity: None,
                },
            )
        }),
{
    let s = choose|s: OverlayView|
        seals_overlay(s, o, enc, mac, ivs) && new == #[trigger] merged(c, s);
    let opts = options_for(f);
    let text = text_given(o, f);
    sealed_field_opens(s.name, o.name, enc, mac, iv_at(ivs, NAME_IV as int));
    sealed_field_opens(s.notes, o.notes, enc, mac, iv_at(ivs, NOTES_IV as int));
    sealed_field_opens(s.username, o.username, enc, mac, iv_at(ivs, LOGIN_IV as int));
    sealed_field_opens(s.password, o.password, enc, mac, iv_at(ivs, LOGIN_IV + 1));
    sealed_field_opens(s.totp, o.totp, enc, mac, iv_at(ivs, LOGIN_IV + 2));
    sealed_field_opens(s.uri, o.uri, enc, mac, iv_at(ivs, LOGIN_IV + 3));
    let l = match new.login {
        Some(l) => l,
        None => empty_login(),
    };
    let fields = seq![
        if opts.username { l.username } else { None },
        if opts.password { l.password } else { None },
        if opts.totp { l.totp } else { None },
        if opts.primary_uri { primary_uri(l.uris) } else { None },
    ];
    let plain = seq![
        if opts.username { text } else { None },
        if opts.password { text } else { None },
        if opts.totp { text } else { None },
        if opts.primary_uri { text } else { None },
    ];
    fields_open(fields, plain, enc, mac);
}

/// A text that a change gives is what reading gives, whatever was in its place
/// before, so that a field that no longer decrypts is mended by replacing it.
pub proof fn replaced_text_is_read(
    v: VaultView,
    at: int,
    new: CipherView,
    o: OverlayView,
    name: Option<Seq<char>>,
    keys: (Seq<u8>, Seq<u8>),
    ivs: Seq<u8>,
    query: Seq<char>,
    f: Field,
    clock: Option<u64>,
)
    requires
        0 <= at < v.ciphers.len(),
        v.ciphers[at].organization_id is None,
        forall|k: int|
            0 <= k < v.ciphers.len() && k != at ==> (#[trigger] v.ciphers[k]).id
                != v.ciphers[at].id,
        item_keys(v.ciphers[at].key, v.user_enc, v.user_mac) == Ok::<
            (Seq<u8>, Seq<u8>),
            crate::vault_core::error::Error,
        >(keys),
        edited(new, v.ciphers[at], o, keys.0, keys.1, ivs),
        text_given(o, f) is Some,
        o.name is Some ==> name == o.name,
        o.name is None ==> opened_field(v.ciphers[at].name, keys.0, keys.1) == Ok::<
            Option<Seq<char>>,
            crate::vault_core::error::Error,
        >(name),
    ensures
        ({
            let c = v.ciphers[at];
            let after = VaultView { ciphers: v.ciphers.update(at, new), ..v };
            let shown = match name {
                Some(n) => n,
                None => query,
            };
            let value = match f {
                Field::Totp => totp_value(o.totp, clock),
                _ => Ok(text_given(o, f)),
            };
            item_read(after, Some(c.id), query, f, clock) == (match value {
                Err(e) => Err::<ItemView, ErrorView>(e),
                Ok(None) => Err(ErrorView::NoSuchField { item: shown, field: field_name(f) }),
                Ok(Some(value)) => Ok(
                    ItemView {
                        id: c.id,
                        name: shown,
                        cipher_type: c.cipher_type,
                        field: f,
                        value,
                    },
                ),
            })
        }),
{
    let c = v.ciphers[at];
    let after = VaultView { ciphers: v.ciphers.update(at, new), ..v };
    edit_keeps_the_rest(new, c, o, keys.0, keys.1, ivs);
    replaced_text_opens(new, c, o, keys.0, keys.1, ivs, name, f);
    assert(base_keys(after, new) == (v.user_enc, v.user_mac));
    assert(opened_name(new, v.user_enc, v.user_mac) == Ok::<
        Option<Seq<char>>,
        crate::vault_core::error::Error,
    >(name));
    assert forall|k: int| 0 <= k < after.ciphers.len() && k != at implies (
    #[trigger] after.ciphers[k]).id != c.id by {
        assert(after.ciphers[k] == v.ciphers[k]);
    }
    same_identifiers_same_target(after, c.id, query, at, 0);
}

proof fn absent_identifier_has_no_target(v: VaultView, id: Seq<char>, query: Seq<char>, i: int)
    requires
        0 <= i <= v.ciphers.len(),
        forall|k: int| 0 <= k < v.ciphers.len() ==> (#[trigger] v.ciphers[k]).id != id,
    ensures
        target_index(v, Some(id), query, i) == v.ciphers.len(),
    decreases v.ciphers.len() - i,
{
    if i < v.ciphers.len() {
        absent_identifier_has_no_target(v, id, query, i + 1);
    }
}

/// An item that was dropped is gone: where no other item has its identifier,
/// asking for that finds nothing, whichever field is asked for.
pub proof fn removed_item_is_gone(
    v: VaultView,
    at: int,
    query: Seq<char>,
    f: Field,
    clock: Option<u64>,
)
    requires
        0 <= at < v.ciphers.len(),
        forall|k: int|
            0 <= k < v.ciphers.len() && k != at ==> (#[trigger] v.ciphers[k]).id
                != v.ciphers[at].id,
    ensures
        item_read(
            VaultView { ciphers: v.ciphers.remove(at), ..v },
            Some(v.ciphers[at].id),
            query,
            f,
            clock,
        ) == Err::<ItemView, ErrorView>(ErrorView::NoSuchItem(query)),
{
    let after = VaultView { ciphers: v.ciphers.remove(at), ..v };
    assert forall|k: int| 0 <= k < after.ciphers.len() implies (#[trigger] after.ciphers[k]).id
        != v.ciphers[at].id by {
        let j = if k < at { k } else { k + 1 };
        assert(after.ciphers[k] == v.ciphers[j]);
    }
    absent_identifier_has_no_target(after, v.ciphers[at].id, query, 0);
}

/// `r` is the value `v`, or the error `v`.
pub open spec fn value_is(
    r: Result<Option<String>, Error>,
    v: Result<Option<Seq<char>>, ErrorView>,
) -> bool {
    match (r, v) {
        (Ok(a), Ok(b)) => a.deep_view() == b,
        (Err(a), Err(b)) => a.deep_view() == b,
        _ => false,
    }
}

/// `r` is the item `v`, or the error `v`.
pub open spec fn item_is(r: Result<Item, Error>, v: Result<ItemView, ErrorView>) -> bool {
    match (r, v) {
        (Ok(a), Ok(b)) => a.deep_view() == b,
        (Err(a), Err(b)) => a.deep_view() == b,
        _ => false,
    }
}

/// `r` is the index `v`, or the error `v`.
pub open spec fn index_is(r: Result<usize, Error>, v: Result<int, ErrorView>) -> bool {
    match (r, v) {
        (Ok(a), Ok(b)) => a == b,
        (Err(a), Err(b)) => a.deep_view() == b,
        _ => false,
    }
}

fn name_matches(name: &Option<String>, lower: &str, Ghost(wanted): Ghost<Seq<char>>) -> (b: bool)
    requires
        lower@ == lowercase(wanted),
    ensures
        b == name_is(name.deep_view(), wanted),
{
    match name {
        None => false,
        Some(n) => same_text(to_lower(n.as_str()).as_str(), lower),
    }
}

/// What a selection by name comes to.
pub fn select_hit(found: &Vec<usize>, ids: Vec<String>, selector: &str) -> (r: Result<usize, Error>)
    ensures
        index_is(r, selected(found@.map_values(|i: usize| i as int), texts(ids@), selector@)),
{
    if found.len() == 0 {
        Err(Error::NoSuchItem(selector.to_owned()))
    } else if found.len() == 1 {
        Ok(found[0])
    } else {
        Err(Error::AmbiguousItem { name: selector.to_owned(), ids })
    }
}

fn id_position(ciphers: &Vec<Cipher>, id: &str) -> (at: usize)
    ensures
        at == id_index(ciphers.deep_view(), id@, 0),
        at <= ciphers@.len(),
{
    let mut i: usize = 0;
    while i < ciphers.len()
        invariant
            i <= ciphers@.len(),
            id_index(ciphers.deep_view(), id@, 0) == id_index(ciphers.deep_view(), id@, i as int),
        decreases ciphers.len() - i,
    {
        if same_text(ciphers[i].id.as_str(), id) {
            return i;
        }
        i += 1;
    }
    i
}

/// The item of a vault that a selector stands for.
pub fn resolve(v: &Vault, selector: &str) -> (r: Result<usize, Error>)
    ensures
        index_is(r, resolved(v.deep_view(), selector@)),
        r matches Ok(i) ==> i < v.ciphers@.len(),
{
    let ghost view = v.deep_view();
    let at: usize = id_position(&v.ciphers, selector);
    if at < v.ciphers.len() {
        return Ok(at);
    }
    let lower: String = to_lower(selector);
    let mut found: Vec<usize> = Vec::new();
    let mut ids: Vec<String> = Vec::new();
    let mut i: usize = 0;
    assert(found@.map_values(|k: usize| k as int) =~= Seq::empty());
    assert(texts(ids@) =~= Seq::empty());
    while i < v.ciphers.len()
        invariant
            i <= v.ciphers@.len(),
            view == v.deep_view(),
            lower@ == lowercase(selector@),
            found@.map_values(|k: usize| k as int) =~= hits(view, selector@, i as nat),
            texts(ids@) =~= hits(view, selector@, i as nat).map_values(
                |k: int| view.ciphers[k].id,
            ),
            forall|k: int| 0 <= k < found@.len() ==> (#[trigger] found@[k]) < v.ciphers@.len(),
        decreases v.ciphers.len() - i,
    {
        let c: &Cipher = &v.ciphers[i];
        let (enc, mac) = v.base_keys(c);
        assert(view.ciphers[i as int] == c.deep_view());
        if let Ok(name) = c.decrypt_name(&enc, &mac) {
            if name_matches(&name, lower.as_str(), Ghost(selector@)) {
                let ghost before = hits(view, selector@, i as nat);
                let ghost ids_before = ids@;
                found.push(i);
                ids.push(c.id.clone());
                assert(hits(view, selector@, (i + 1) as nat) =~= before.push(i as int));
                assert(texts(ids@) =~= texts(ids_before).push(c.id@));
                assert(before.push(i as int).map_values(|k: int| view.ciphers[k].id)
                    =~= before.map_values(|k: int| view.ciphers[k].id).push(c.id@));
            }
        }
        i += 1;
    }
    select_hit(&found, ids, selector)
}

fn find_target(v: &Vault, id: Option<&str>, query: &str) -> (at: usize)
    ensures
        at == target_index(
            v.deep_view(),
            match id {
                Some(s) => Some(s@),
                None => None,
            },
            query@,
            0,
        ),
        at <= v.ciphers@.len(),
{
    let ghost view = v.deep_view();
    let ghost want: Option<Seq<char>> = match id {
        Some(s) => Some(s@),
        None => None,
    };
    let lower: String = to_lower(query);
    let mut i: usize = 0;
    while i < v.ciphers.len()
        invariant
            i <= v.ciphers@.len(),
            view == v.deep_view(),
            want == (match id {
                Some(s) => Some(s@),
                None => None,
            }),
            lower@ == lowercase(query@),
            target_index(view, want, query@, 0) == target_index(view, want, query@, i as int),
        decreases v.ciphers.len() - i,
    {
        let c: &Cipher = &v.ciphers[i];
        let (enc, mac) = v.base_keys(c);
        assert(view.ciphers[i as int] == c.deep_view());
        if let Ok(name) = c.decrypt_name(&enc, &mac) {
            let hit: bool = match id {
                Some(s) => same_text(c.id.as_str(), s),
                None => name_matches(&name, lower.as_str(), Ghost(query@)),
            };
            if hit {
                return i;
            }
        }
        i += 1;
    }
    i
}

/// What reading a field asks of an item.
pub fn decrypt_options(f: &Field) -> (r: DecryptOptions)
    ensures
        r == options_for(*f),
{
    let mut r: DecryptOptions = DecryptOptions::default();
    match f {
        Field::Password => {
            r.password = true;
        },
        Field::Username => {
            r.username = true;
        },
        Field::Totp => {
            r.totp = true;
        },
        Field::Notes => {
            r.notes = true;
        },
        Field::Uri => {
            r.primary_uri = true;
        },
        Field::Custom(_) => {},
        Field::CardCardholder
        | Field::CardNumber
        | Field::CardBrand
        | Field::CardExpiry
        | Field::CardCode => {
            r.card = true;
        },
        _ => {
            r.identity = true;
        },
    }
    r
}

/// A card's expiry as `MM/YYYY`.
pub fn card_expiry(c: &PlainCard) -> (r: Option<String>)
    ensures
        r.deep_view() == expiry_of(c.deep_view()),
{
    if c.exp_month.is_none() && c.exp_year.is_none() {
        return None;
    }
    let month: String = match &c.exp_month {
        Some(m) => m.clone(),
        None => String::new(),
    };
    let year: String = match &c.exp_year {
        Some(y) => y.clone(),
        None => String::new(),
    };
    proof {
        assert(month@ == (match c.deep_view().exp_month {
            Some(m) => m,
            None => Seq::empty(),
        }));
    }
    let width: usize = month.as_str().as_bytes().len();
    let mut out: String = if width == 1 {
        prefixed("0", month.as_str())
    } else {
        month
    };
    out.append("/");
    out.append(year.as_str());
    Some(out)
}

fn present_texts(parts: &Vec<Option<String>>) -> (out: Vec<String>)
    ensures
        texts(out@) == present(field_texts(parts@)),
{
    let ghost all = field_texts(parts@);
    let mut out: Vec<String> = Vec::new();
    let mut i: usize = 0;
    assert(texts(out@) =~= Seq::empty());
    assert(all.take(0) =~= Seq::empty());
    while i < parts.len()
        invariant
            i <= parts.len(),
            all == field_texts(parts@),
            texts(out@) == present(all.take(i as int)),
        decreases parts.len() - i,
    {
        let ghost before = out@;
        assert(all.take(i + 1).drop_last() =~= all.take(i as int));
        assert(all.take(i + 1).last() == parts@[i as int].deep_view());
        if let Some(s) = &parts[i] {
            if !s.as_str().is_empty() {
                out.push(s.clone());
                assert(texts(out@) =~= texts(before).push(s@));
            }
        }
        i += 1;
    }
    assert(all.take(all.len() as int) =~= all);
    out
}

fn joined_parts(parts: &Vec<Option<String>>, sep: &str) -> (r: Option<String>)
    ensures
        r.deep_view() == joined(present(field_texts(parts@)), sep@),
{
    let out: Vec<String> = present_texts(parts);
    assert(texts(out@).len() == out@.len());
    if out.len() == 0 {
        None
    } else {
        Some(join_texts(&out, sep))
    }
}

/// The whole name of an identity.
pub fn identity_name(i: &PlainIdentity) -> (r: Option<String>)
    ensures
        r.deep_view() == full_name(i.deep_view()),
{
    let mut parts: Vec<Option<String>> = Vec::new();
    parts.push(copy_text(&i.first_name));
    parts.push(copy_text(&i.middle_name));
    parts.push(copy_text(&i.last_name));
    let ghost v = i.deep_view();
    assert(field_texts(parts@) =~= seq![
        v.first_name,
        v.middle_name,
        v.last_name,
    ]);
    joined_parts(&parts, " ")
}

/// The whole address of an identity.
pub fn identity_address(i: &PlainIdentity) -> (r: Option<String>)
    ensures
        r.deep_view() == full_address(i.deep_view()),
{
    let ghost v = i.deep_view();
    let mut city: Vec<Option<String>> = Vec::new();
    city.push(copy_text(&i.city));
    city.push(copy_text(&i.state));
    city.push(copy_text(&i.postal_code));
    assert(field_texts(city@) =~= seq![v.city, v.state, v.postal_code]);
    let line: Option<String> = joined_parts(&city, " ");
    let mut lines: Vec<Option<String>> = Vec::new();
    lines.push(copy_text(&i.address1));
    lines.push(copy_text(&i.address2));
    lines.push(copy_text(&i.address3));
    lines.push(line);
    lines.push(copy_text(&i.country));
    assert(field_texts(lines@) =~= seq![
        v.address1,
        v.address2,
        v.address3,
        joined(present(seq![v.city, v.state, v.postal_code]), " "@),
        v.country,
    ]);
    joined_parts(&lines, "\n")
}

fn card_field(c: &PlainCard, f: &Field) -> (r: Option<String>)
    ensures
        r.deep_view() == card_value(c.deep_view(), *f),
{
    match f {
        Field::CardCardholder => copy_text(&c.cardholder_name),
        Field::CardNumber => copy_text(&c.number),
        Field::CardBrand => copy_text(&c.brand),
        Field::CardCode => copy_text(&c.code),
        Field::CardExpiry => card_expiry(c),
        _ => None,
    }
}

fn identity_field(i: &PlainIdentity, f: &Field) -> (r: Option<String>)
    ensures
        r.deep_view() == identity_value(i.deep_view(), *f),
{
    match f {
        Field::IdentityName => identity_name(i),
        Field::IdentityAddress => identity_address(i),
        Field::IdentityTitle => copy_text(&i.title),
        Field::IdentityFirstName => copy_text(&i.first_name),
        Field::IdentityMiddleName => copy_text(&i.middle_name),
        Field::IdentityLastName => copy_text(&i.last_name),
        Field::IdentityUsername => copy_text(&i.username),
        Field::IdentityCompany => copy_text(&i.company),
        Field::IdentitySsn => copy_text(&i.ssn),
        Field::IdentityPassport => copy_text(&i.passport_number),
        Field::IdentityLicense => copy_text(&i.license_number),
        Field::IdentityEmail => copy_text(&i.email),
        Field::IdentityPhone => copy_text(&i.phone),
        Field::IdentityAddress1 => copy_text(&i.address1),
        Field::IdentityAddress2 => copy_text(&i.address2),
        Field::IdentityAddress3 => copy_text(&i.address3),
        Field::IdentityCity => copy_text(&i.city),
        Field::IdentityState => copy_text(&i.state),
        Field::IdentityPostal => copy_text(&i.postal_code),
        Field::IdentityCountry => copy_text(&i.country),
        _ => None,
    }
}

fn totp_code(secret: &Option<String>, clock: Option<u64>) -> (r: Result<Option<String>, Error>)
    ensures
        value_is(r, totp_value(secret.deep_view(), clock)),
{
    match secret {
        None => Ok(None),
        Some(s) => match code_now(s.as_str(), clock) {
            Ok(code) => Ok(Some(code)),
            Err(e) => Err(Error::Internal(prefixed("totp: ", e.message().as_str()))),
        },
    }
}

/// A field of a decrypted item at a time, in seconds since the Unix epoch.
pub fn plain_field(p: &PlainCipher, f: &Field, clock: Option<u64>) -> (r: Result<Option<String>, Error>)
    ensures
        value_is(r, field_value(p.deep_view(), *f, clock)),
{
    match f {
        Field::Password => Ok(copy_text(&p.password)),
        Field::Username => Ok(copy_text(&p.username)),
        Field::Totp => totp_code(&p.totp, clock),
        Field::Notes => Ok(copy_text(&p.notes)),
        Field::Uri => Ok(copy_text(&p.primary_uri)),
        _ => {
            if let Some(c) = &p.card {
                return Ok(card_field(c, f));
            }
            match &p.identity {
                Some(i) => Ok(identity_field(i, f)),
                None => Ok(None),
            }
        },
    }
}

fn custom_position(fields: &Vec<CustomField>, enc: &[u8; 32], mac: &[u8; 32], name: &str) -> (at:
    usize)
    ensures
        at == custom_index(fields.deep_view(), enc@, mac@, name@, 0),
        at <= fields@.len(),
{
    let ghost views = fields.deep_view();
    let mut i: usize = 0;
    while i < fields.len()
        invariant
            i <= fields@.len(),
            views == fields.deep_view(),
            custom_index(views, enc@, mac@, name@, 0) == custom_index(
                views,
                enc@,
                mac@,
                name@,
                i as int,
            ),
        decreases fields.len() - i,
    {
        assert(views[i as int] == fields@[i as int].deep_view());
        if let Ok(Some(n)) = decrypt_optional(&fields[i].name, enc, mac) {
            if same_text(n.as_str(), name) {
                return i;
            }
        }
        i += 1;
    }
    i
}

/// The value of a user-defined field.
pub fn custom_field(c: &Cipher, enc_key: &[u8; 32], mac_key: &[u8; 32], name: &str) -> (r: Result<
    Option<String>,
    Error,
>)
    ensures
        value_is(r, custom_value(c.deep_view(), enc_key@, mac_key@, name@)),
{
    let fields: &Vec<CustomField> = match &c.fields {
        None => return Ok(None),
        Some(f) => f,
    };
    let (enc, mac) = match c.effective_keys(enc_key, mac_key) {
        Ok(k) => k,
        Err(e) => return Err(Error::Decrypt(e.message())),
    };
    let at: usize = custom_position(fields, &enc, &mac, name);
    if at == fields.len() {
        return Ok(None);
    }
    assert(fields.deep_view()[at as int] == fields@[at as int].deep_view());
    match decrypt_optional(&fields[at].value, &enc, &mac) {
        Ok(v) => Ok(v),
        Err(e) => Err(Error::Decrypt(e.message())),
    }
}

fn read_value(c: &Cipher, enc: &[u8; 32], mac: &[u8; 32], f: &Field, clock: Option<u64>) -> (r: Result<
    Option<String>,
    Error,
>)
    ensures
        value_is(r, item_value(c.deep_view(), enc@, mac@, *f, clock)),
{
    let plain: PlainCipher = match c.decrypt(enc, mac, decrypt_options(f)) {
        Ok(p) => p,
        Err(e) => return Err(Error::Decrypt(e.message())),
    };
    match f {
        Field::Custom(name) => custom_field(c, enc, mac, name.as_str()),
        _ => plain_field(&plain, f, clock),
    }
}

/// Reads a field of an item at a reading of the clock.
pub fn read_item(v: &Vault, id: Option<&str>, query: &str, field: Field, clock: Option<u64>) -> (r: Result<
    Item,
    Error,
>)
    ensures
        item_is(
            r,
            item_read(
                v.deep_view(),
                match id {
                    Some(s) => Some(s@),
                    None => None,
                },
                query@,
                field,
                clock,
            ),
        ),
{
    let at: usize = find_target(v, id, query);
    if at == v.ciphers.len() {
        return Err(Error::NoSuchItem(query.to_owned()));
    }
    let c: &Cipher = &v.ciphers[at];
    assert(v.deep_view().ciphers[at as int] == c.deep_view());
    let (enc, mac) = v.base_keys(c);
    let name: String = match c.decrypt_name(&enc, &mac) {
        Ok(Some(n)) => n,
        _ => query.to_owned(),
    };
    let value: Option<String> = read_value(c, &enc, &mac, &field, clock)?;
    match value {
        None => Err(Error::NoSuchField { item: name, field: field.name() }),
        Some(value) => Ok(
            Item { id: c.id.clone(), name, cipher_type: c.cipher_type, field, value },
        ),
    }
}

/// `v` is the value of the field in `Some`, none where there is nothing.
pub open spec fn value_given(v: Result<Option<Seq<char>>, ErrorView>, t: Option<Seq<char>>) -> bool {
    v == Ok::<Option<Seq<char>>, ErrorView>(t)
}

/// Reading a field of a login or the notes of an item gives the text that the
/// item holds in that field and in no other; of a one-time-password secret, the
/// current code.
pub proof fn reading_gives_the_field_asked(
    c: CipherView,
    p: PlainCipherView,
    enc: Seq<u8>,
    mac: Seq<u8>,
    keys: (Seq<u8>, Seq<u8>),
    clock: Option<u64>,
)
    requires
        item_keys(c.key, enc, mac) == Ok::<
            (Seq<u8>, Seq<u8>),
            crate::vault_core::error::Error,
        >(keys),
        holds_item(c, p, keys.0, keys.1),
    ensures
        value_given(item_value(c, enc, mac, Field::Password, clock), p.password),
        value_given(item_value(c, enc, mac, Field::Username, clock), p.username),
        value_given(item_value(c, enc, mac, Field::Notes, clock), p.notes),
        value_given(item_value(c, enc, mac, Field::Uri, clock), p.primary_uri),
        p.totp is None ==> value_given(item_value(c, enc, mac, Field::Totp, clock), None),
        p.totp matches Some(s) ==> match totp_now(s, clock) {
            Ok(code) => value_given(item_value(c, enc, mac, Field::Totp, clock), Some(code)),
            Err(e) => item_value(c, enc, mac, Field::Totp, clock) == Err::<
                Option<Seq<char>>,
                ErrorView,
            >(ErrorView::Internal("totp: "@ + error_text(e))),
        },
{
    item_reads_as_its_envelopes_hold(c, p, enc, mac, keys, options_for(Field::Password));
    item_reads_as_its_envelopes_hold(c, p, enc, mac, keys, options_for(Field::Username));
    item_reads_as_its_envelopes_hold(c, p, enc, mac, keys, options_for(Field::Notes));
    item_reads_as_its_envelopes_hold(c, p, enc, mac, keys, options_for(Field::Uri));
    item_reads_as_its_envelopes_hold(c, p, enc, mac, keys, options_for(Field::Totp));
}

/// Reading a field of a card gives the text that the card holds in that field
/// and in no other, and the expiry as the month and the year.
pub proof fn reading_gives_the_card_field_asked(
    c: CipherView,
    p: PlainCipherView,
    card: CardView,
    enc: Seq<u8>,
    mac: Seq<u8>,
    keys: (Seq<u8>, Seq<u8>),
    clock: Option<u64>,
)
    requires
        item_keys(c.key, enc, mac) == Ok::<
            (Seq<u8>, Seq<u8>),
            crate::vault_core::error::Error,
        >(keys),
        holds_item(c, p, keys.0, keys.1),
        p.card == Some(card),
    ensures
        value_given(item_value(c, enc, mac, Field::CardCardholder, clock), card.cardholder_name),
        value_given(item_value(c, enc, mac, Field::CardNumber, clock), card.number),
        value_given(item_value(c, enc, mac, Field::CardBrand, clock), card.brand),
        value_given(item_value(c, enc, mac, Field::CardCode, clock), card.code),
        value_given(item_value(c, enc, mac, Field::CardExpiry, clock), expiry_of(card)),
{
    item_reads_as_its_envelopes_hold(c, p, enc, mac, keys, options_for(Field::CardNumber));
}

/// Reading a field of an identity gives the text that the identity holds in that
/// field and in no other, and the whole name and the whole address.
pub proof fn reading_gives_the_identity_field_asked(
    c: CipherView,
    p: PlainCipherView,
    identity: IdentityView,
    enc: Seq<u8>,
    mac: Seq<u8>,
    keys: (Seq<u8>, Seq<u8>),
    clock: Option<u64>,
)
    requires
        item_keys(c.key, enc, mac) == Ok::<
            (Seq<u8>, Seq<u8>),
            crate::vault_core::error::Error,
        >(keys),
        holds_item(c, p, keys.0, keys.1),
        p.identity == Some(identity),
    ensures
        value_given(item_value(c, enc, mac, Field::IdentityTitle, clock), identity.title),
        value_given(item_value(c, enc, mac, Field::IdentityFirstName, clock), identity.first_name),
        value_given(item_value(c, enc, mac, Field::IdentityMiddleName, clock), identity.middle_name),
        value_given(item_value(c, enc, mac, Field::IdentityLastName, clock), identity.last_name),
        value_given(item_value(c, enc, mac, Field::IdentityUsername, clock), identity.username),
        value_given(item_value(c, enc, mac, Field::IdentityCompany, clock), identity.company),
        value_given(item_value(c, enc, mac, Field::IdentitySsn, clock), identity.ssn),
        value_given(item_value(c, enc, mac, Field::IdentityPassport, clock), identity.passport_number),
        value_given(item_value(c, enc, mac, Field::IdentityLicense, clock), identity.license_number),
        value_given(item_value(c, enc, mac, Field::IdentityEmail, clock), identity.email),
        value_given(item_value(c, enc, mac, Field::IdentityPhone, clock), identity.phone),
        value_given(item_value(c, enc, mac, Field::IdentityAddress1, clock), identity.address1),
        value_given(item_value(c, enc, mac, Field::IdentityAddress2, clock), identity.address2),
        value_given(item_value(c, enc, mac, Field::IdentityAddress3, clock), identity.address3),
        value_given(item_value(c, enc, mac, Field::IdentityCity, clock), identity.city),
        value_given(item_value(c, enc, mac, Field::IdentityState, clock), identity.state),
        value_given(item_value(c, enc, mac, Field::IdentityPostal, clock), identity.postal_code),
        value_given(item_value(c, enc, mac, Field::IdentityCountry, clock), identity.country),
        value_given(item_value(c, enc, mac, Field::IdentityName, clock), full_name(identity)),
        value_given(item_value(c, enc, mac, Field::IdentityAddress, clock), full_address(identity)),
{
    item_reads_as_its_envelopes_hold(c, p, enc, mac, keys, options_for(Field::IdentityName));
}

/// An item without a card has no card field, and one without an identity no
/// identity field.
pub proof fn absent_parts_have_no_fields(
    c: CipherView,
    p: PlainCipherView,
    enc: Seq<u8>,
    mac: Seq<u8>,
    keys: (Seq<u8>, Seq<u8>),
    clock: Option<u64>,
)
    requires
        item_keys(c.key, enc, mac) == Ok::<
            (Seq<u8>, Seq<u8>),
            crate::vault_core::error::Error,
        >(keys),
        holds_item(c, p, keys.0, keys.1),
    ensures
        p.card is None ==> value_given(
            item_value(c, enc, mac, Field::CardNumber, clock),
            None,
        ) && value_given(item_value(c, enc, mac, Field::CardExpiry, clock), None),
        p.identity is None ==> value_given(
            item_value(c, enc, mac, Field::IdentityName, clock),
            None,
        ) && value_given(item_value(c, enc, mac, Field::IdentityAddress, clock), None),
{
    item_reads_as_its_envelopes_hold(c, p, enc, mac, keys, options_for(Field::CardNumber));
    item_reads_as_its_envelopes_hold(c, p, enc, mac, keys, options_for(Field::IdentityName));
}

/// An expiry is the month, a slash and the year, the month with a zero before it
/// where it has one character of one byte; a part that is missing is empty, and
/// without both there is none.
pub proof fn expiry_is_month_and_year(c: CardView, m: Seq<char>, y: Seq<char>)
    ensures
        c.exp_month == Some(m) && c.exp_year == Some(y) && vstd::utf8::encode_utf8(m).len() == 1
            ==> expiry_of(c) == Some("0"@ + m + "/"@ + y),
        c.exp_month == Some(m) && c.exp_year == Some(y) && vstd::utf8::encode_utf8(m).len() != 1
            ==> expiry_of(c) == Some(m + "/"@ + y),
        c.exp_month is None && c.exp_year is None ==> expiry_of(c) is None,
        c.exp_month is Some || c.exp_year is Some ==> expiry_of(c) is Some,
{
}

/// Of texts, those that are present and not empty are taken, in order.
pub proof fn present_texts_are_taken_in_order(
    parts: Seq<Option<Seq<char>>>,
    t: Option<Seq<char>>,
)
    ensures
        present(Seq::empty()) == Seq::<Seq<char>>::empty(),
        present(parts.push(t)) == (match t {
            Some(s) => if s.len() > 0 {
                present(parts).push(s)
            } else {
                present(parts)
            },
            None => present(parts),
        }),
{
    assert(parts.push(t).drop_last() =~= parts);
}

/// `a` and `b` with the separator between them where both are there.
pub open spec fn with_between(a: Option<Seq<char>>, sep: Seq<char>, b: Option<Seq<char>>) -> Option<
    Seq<char>,
> {
    match (a, b) {
        (Some(x), Some(y)) => Some(x + sep + y),
        (Some(x), None) => Some(x),
        (None, b) => b,
    }
}

/// `t` where it is there and not empty.
pub open spec fn not_empty(t: Option<Seq<char>>) -> Option<Seq<char>> {
    match t {
        Some(s) if s.len() > 0 => Some(s),
        _ => None,
    }
}

proof fn joined_step(parts: Seq<Option<Seq<char>>>, t: Option<Seq<char>>, sep: Seq<char>)
    ensures
        joined(present(parts.push(t)), sep) == with_between(
            joined(present(parts), sep),
            sep,
            not_empty(t),
        ),
{
    present_texts_are_taken_in_order(parts, t);
    if let Some(s) = not_empty(t) {
        crate::text::joining_separates(s, s, present(parts), sep);
        assert(present(parts).len() == 0 ==> present(parts).push(s) =~= seq![s]);
    }
}

/// The whole name of an identity is the first, the middle and the last name, as
/// far as there are any, with spaces between.
pub proof fn whole_name_is_its_parts(i: IdentityView)
    ensures
        full_name(i) == with_between(
            with_between(not_empty(i.first_name), " "@, not_empty(i.middle_name)),
            " "@,
            not_empty(i.last_name),
        ),
{
    let none = Seq::<Option<Seq<char>>>::empty();
    joined_step(none, i.first_name, " "@);
    joined_step(none.push(i.first_name), i.middle_name, " "@);
    joined_step(none.push(i.first_name).push(i.middle_name), i.last_name, " "@);
    assert(seq![i.first_name, i.middle_name, i.last_name] =~= none.push(i.first_name).push(
        i.middle_name,
    ).push(i.last_name));
}

/// The whole address of an identity is the address lines, then city, state and
/// postal code on one line, then the country, as far as there are any, each on
/// a line.
pub proof fn whole_address_is_its_lines(i: IdentityView)
    ensures
        ({
            let city = with_between(
                with_between(not_empty(i.city), " "@, not_empty(i.state)),
                " "@,
                not_empty(i.postal_code),
            );
            let street = with_between(
                with_between(not_empty(i.address1), "\n"@, not_empty(i.address2)),
                "\n"@,
                not_empty(i.address3),
            );
            full_address(i) == with_between(
                with_between(street, "\n"@, not_empty(city)),
                "\n"@,
                not_empty(i.country),
            )
        }),
{
    let none = Seq::<Option<Seq<char>>>::empty();
    joined_step(none, i.city, " "@);
    joined_step(none.push(i.city), i.state, " "@);
    joined_step(none.push(i.city).push(i.state), i.postal_code, " "@);
    assert(seq![i.city, i.state, i.postal_code] =~= none.push(i.city).push(i.state).push(
        i.postal_code,
    ));
    let city = joined(present(seq![i.city, i.state, i.postal_code]), " "@);
    let p1 = none.push(i.address1);
    let p2 = p1.push(i.address2);
    let p3 = p2.push(i.address3);
    let p4 = p3.push(city);
    joined_step(none, i.address1, "\n"@);
    joined_step(p1, i.address2, "\n"@);
    joined_step(p2, i.address3, "\n"@);
    joined_step(p3, city, "\n"@);
    joined_step(p4, i.country, "\n"@);
    assert(seq![i.address1, i.address2, i.address3, city, i.country] =~= p4.push(i.country));
}

proof fn first_target_is(
    v: VaultView,
    id: Option<Seq<char>>,
    query: Seq<char>,
    i: int,
    at: int,
)
    requires
        0 <= i <= at <= v.ciphers.len(),
        at < v.ciphers.len() ==> is_target(v, v.ciphers[at], id, query),
        forall|k: int| i <= k < at ==> !is_target(v, #[trigger] v.ciphers[k], id, query),
    ensures
        target_index(v, id, query, i) == at,
    decreases at - i,
{
    if i < at {
        assert(!is_target(v, v.ciphers[i], id, query));
        first_target_is(v, id, query, i + 1, at);
    }
}

/// The name that an item decrypts to under its owner's key is `n` in whichever
/// case.
pub open spec fn bears_name(v: VaultView, c: CipherView, n: Seq<char>) -> bool {
    let (enc, mac) = base_keys(v, c);
    opened_name(c, enc, mac) matches Ok(name) && name matches Some(t) && lowercase(t) == lowercase(n)
}

/// What reading a field of an item that is told as `name` comes to.
pub open spec fn told_as(
    v: VaultView,
    c: CipherView,
    name: Seq<char>,
    f: Field,
    clock: Option<u64>,
) -> Result<ItemView, ErrorView> {
    let (enc, mac) = base_keys(v, c);
    match item_value(c, enc, mac, f, clock) {
        Err(e) => Err(e),
        Ok(None) => Err(ErrorView::NoSuchField { item: name, field: field_name(f) }),
        Ok(Some(value)) => Ok(
            ItemView { id: c.id, name, cipher_type: c.cipher_type, field: f, value },
        ),
    }
}

/// Asking by name reads the first item that bears the name, in whichever case,
/// whatever its kind and whoever owns it; where none does, there is no such
/// item.
pub proof fn asking_by_name_reads_the_item_with_it(
    v: VaultView,
    query: Seq<char>,
    at: int,
    name: Seq<char>,
    f: Field,
    clock: Option<u64>,
)
    requires
        0 <= at <= v.ciphers.len(),
        forall|k: int| 0 <= k < at ==> !bears_name(v, #[trigger] v.ciphers[k], query),
        at < v.ciphers.len() ==> bears_name(v, v.ciphers[at], query) && ({
            let (enc, mac) = base_keys(v, v.ciphers[at]);
            opened_name(v.ciphers[at], enc, mac) == Ok::<
                Option<Seq<char>>,
                crate::vault_core::error::Error,
            >(Some(name))
        }),
    ensures
        at < v.ciphers.len() ==> item_read(v, None, query, f, clock) == told_as(
            v,
            v.ciphers[at],
            name,
            f,
            clock,
        ),
        at == v.ciphers.len() ==> item_read(v, None, query, f, clock) == Err::<
            ItemView,
            ErrorView,
        >(ErrorView::NoSuchItem(query)),
{
    assert forall|k: int| 0 <= k < at implies !is_target(v, #[trigger] v.ciphers[k], None, query) by {
        assert(!bears_name(v, v.ciphers[k], query));
    }
    first_target_is(v, None, query, 0, at);
}

/// Asking by identifier reads the item that has it, where its name decrypts;
/// where no item has it, there is no such item.
pub proof fn asking_by_identifier_reads_the_item_with_it(
    v: VaultView,
    id: Seq<char>,
    query: Seq<char>,
    at: int,
    name: Option<Seq<char>>,
    f: Field,
    clock: Option<u64>,
)
    requires
        0 <= at <= v.ciphers.len(),
        forall|k: int| 0 <= k < at ==> (#[trigger] v.ciphers[k]).id != id,
        at < v.ciphers.len() ==> v.ciphers[at].id == id && ({
            let (enc, mac) = base_keys(v, v.ciphers[at]);
            opened_name(v.ciphers[at], enc, mac) == Ok::<
                Option<Seq<char>>,
                crate::vault_core::error::Error,
            >(name)
        }),
    ensures
        at < v.ciphers.len() ==> item_read(v, Some(id), query, f, clock) == told_as(
            v,
            v.ciphers[at],
            match name {
                Some(n) => n,
                None => query,
            },
            f,
            clock,
        ),
        at == v.ciphers.len() ==> item_read(v, Some(id), query, f, clock) == Err::<
            ItemView,
            ErrorView,
        >(ErrorView::NoSuchItem(query)),
{
    assert forall|k: int| 0 <= k < at implies !is_target(
        v,
        #[trigger] v.ciphers[k],
        Some(id),
        query,
    ) by {
        assert(v.ciphers[k].id != id);
    }
    first_target_is(v, Some(id), query, 0, at);
}

proof fn custom_index_is(
    fields: Seq<CustomFieldView>,
    enc: Seq<u8>,
    mac: Seq<u8>,
    name: Seq<char>,
    i: int,
    at: int,
)
    requires
        0 <= i <= at <= fields.len(),
        at < fields.len() ==> opened_field(fields[at].name, enc, mac) == Ok::<
            Option<Seq<char>>,
            crate::vault_core::error::Error,
        >(Some(name)),
        forall|k: int|
            i <= k < at ==> opened_field((#[trigger] fields[k]).name, enc, mac) != Ok::<
                Option<Seq<char>>,
                crate::vault_core::error::Error,
            >(Some(name)),
    ensures
        custom_index(fields, enc, mac, name, i) == at,
    decreases at - i,
{
    if i < at {
        assert(opened_field(fields[i].name, enc, mac) != Ok::<
            Option<Seq<char>>,
            crate::vault_core::error::Error,
        >(Some(name)));
        custom_index_is(fields, enc, mac, name, i + 1, at);
    }
}

/// Reading a user-defined field gives the value of the first one whose name
/// decrypts to the name asked for, letter for letter, whatever its kind.
pub proof fn custom_field_is_read_by_its_name(
    c: CipherView,
    enc: Seq<u8>,
    mac: Seq<u8>,
    keys: (Seq<u8>, Seq<u8>),
    fields: Seq<CustomFieldView>,
    name: Seq<char>,
    at: int,
    value: Option<Seq<char>>,
)
    requires
        c.fields == Some(fields),
        item_keys(c.key, enc, mac) == Ok::<
            (Seq<u8>, Seq<u8>),
            crate::vault_core::error::Error,
        >(keys),
        0 <= at <= fields.len(),
        forall|k: int|
            0 <= k < at ==> opened_field((#[trigger] fields[k]).name, keys.0, keys.1) != Ok::<
                Option<Seq<char>>,
                crate::vault_core::error::Error,
            >(Some(name)),
        at < fields.len() ==> holds_text(fields[at].name, Some(name), keys.0, keys.1)
            && holds_text(fields[at].value, value, keys.0, keys.1),
    ensures
        at < fields.len() ==> custom_value(c, enc, mac, name) == Ok::<
            Option<Seq<char>>,
            ErrorView,
        >(value),
        at == fields.len() ==> custom_value(c, enc, mac, name) == Ok::<
            Option<Seq<char>>,
            ErrorView,
        >(None),
{
    if at < fields.len() {
        held_text_opens(fields[at].name, Some(name), keys.0, keys.1);
        held_text_opens(fields[at].value, value, keys.0, keys.1);
    }
    custom_index_is(fields, keys.0, keys.1, name, 0, at);
}

proof fn hits_hold_named(v: VaultView, wanted: Seq<char>, n: nat, k: int)
    requires
        0 <= k < n <= v.ciphers.len(),
        named(v, v.ciphers[k], wanted),
    ensures
        hits(v, wanted, n).contains(k),
    decreases n,
{
    let before = hits(v, wanted, (n - 1) as nat);
    let all = hits(v, wanted, n);
    if k == n - 1 {
        assert(all[all.len() - 1] == k);
    } else {
        hits_hold_named(v, wanted, (n - 1) as nat, k);
        let i = choose|i: int| 0 <= i < before.len() && before[i] == k;
        assert(all[i] == k);
    }
}

proof fn hits_are_distinct(v: VaultView, wanted: Seq<char>, n: nat)
    requires
        n <= v.ciphers.len(),
    ensures
        forall|i: int, j: int|
            0 <= i < j < hits(v, wanted, n).len() ==> #[trigger] hits(v, wanted, n)[i]
                < #[trigger] hits(v, wanted, n)[j],
    decreases n,
{
    if n > 0 {
        hits_are_distinct(v, wanted, (n - 1) as nat);
        hits_are_items(v, wanted, (n - 1) as nat);
        let before = hits(v, wanted, (n - 1) as nat);
        let all = hits(v, wanted, n);
        assert forall|i: int, j: int| 0 <= i < j < all.len() implies #[trigger] all[i]
            < #[trigger] all[j] by {
            assert(all[i] == before[i]);
            if j < before.len() {
                assert(all[j] == before[j]);
            }
        }
    }
}

proof fn no_identifier(ciphers: Seq<CipherView>, id: Seq<char>, i: int)
    requires
        0 <= i <= ciphers.len(),
        forall|k: int| i <= k < ciphers.len() ==> (#[trigger] ciphers[k]).id != id,
    ensures
        id_index(ciphers, id, i) == ciphers.len(),
    decreases ciphers.len() - i,
{
    if i < ciphers.len() {
        assert(ciphers[i].id != id);
        no_identifier(ciphers, id, i + 1);
    }
}

/// A selector that is no identifier stands for the one item that bears it as its
/// name, in whichever case; where none does there is no such item, and where
/// several do it stands for none of them, and their identifiers are told.
pub proof fn name_stands_for_the_one_item_with_it(
    v: VaultView,
    selector: Seq<char>,
    i: int,
    j: int,
)
    requires
        forall|k: int| 0 <= k < v.ciphers.len() ==> (#[trigger] v.ciphers[k]).id != selector,
    ensures
        (0 <= i < v.ciphers.len() && bears_name(v, v.ciphers[i], selector) && (forall|k: int|
            0 <= k < v.ciphers.len() && k != i ==> !bears_name(
                v,
                #[trigger] v.ciphers[k],
                selector,
            ))) ==> resolved(v, selector) == Ok::<int, ErrorView>(i),
        (forall|k: int|
            0 <= k < v.ciphers.len() ==> !bears_name(v, #[trigger] v.ciphers[k], selector))
            ==> resolved(v, selector) == Err::<int, ErrorView>(ErrorView::NoSuchItem(selector)),
        0 <= i < j < v.ciphers.len() && bears_name(v, v.ciphers[i], selector) && bears_name(
            v,
            v.ciphers[j],
            selector,
        ) ==> (resolved(v, selector) matches Err(e) && e matches ErrorView::AmbiguousItem {
            name,
            ids,
        } && name == selector && ids.contains(v.ciphers[i].id) && ids.contains(v.ciphers[j].id)),
{
    let n = v.ciphers.len();
    let found = hits(v, selector, n);
    no_identifier(v.ciphers, selector, 0);
    hits_are_items(v, selector, n);
    hits_are_distinct(v, selector, n);
    assert forall|k: int| 0 <= k < n implies named(v, #[trigger] v.ciphers[k], selector)
        == bears_name(v, v.ciphers[k], selector) by {}
    if 0 <= i < n && bears_name(v, v.ciphers[i], selector) {
        hits_hold_named(v, selector, n, i);
        let at = choose|at: int| 0 <= at < found.len() && found[at] == i;
        if forall|k: int|
            0 <= k < n && k != i ==> !bears_name(v, #[trigger] v.ciphers[k], selector) {
            if found.len() > 1 {
                let other = if at == 0 { 1int } else { 0int };
                assert(named(v, v.ciphers[found[other]], selector));
                assert(found[other] == i);
                if at == 0 {
                    assert(found[0] < found[1]);
                } else {
                    assert(found[0] < found[at]);
                }
            }
            assert(found.len() == 1 && found[0] == i);
        }
        if i < j < n && bears_name(v, v.ciphers[j], selector) {
            hits_hold_named(v, selector, n, j);
            let bt = choose|bt: int| 0 <= bt < found.len() && found[bt] == j;
            assert(at != bt);
            assert(found.len() > 1);
            let ids = found.map_values(|i: int| v.ciphers[i].id);
            assert(ids[at] == v.ciphers[i].id);
            assert(ids[bt] == v.ciphers[j].id);
        }
    }
    if forall|k: int| 0 <= k < n ==> !bears_name(v, #[trigger] v.ciphers[k], selector) {
        if found.len() > 0 {
            assert(named(v, v.ciphers[found[0]], selector));
        }
    }
}

/// The text that an item holds in a field that is a text of its own.
pub open spec fn field_envelope(c: CipherView, f: Field) -> Option<Seq<char>> {
    match (f, c.login) {
        (Field::Notes, _) => c.notes,
        (Field::Password, Some(l)) => l.password,
        (Field::Username, Some(l)) => l.username,
        (Field::Totp, Some(l)) => l.totp,
        (Field::Uri, Some(l)) => match l.uris {
            Some(u) if u.len() > 0 => u[0].uri,
            _ => None,
        },
        _ => None,
    }
}

/// A text that an item holds is what reading its field by the item's identifier
/// gives, whatever its other fields hold, where its name decrypts.
pub proof fn held_text_is_read(
    v: VaultView,
    at: int,
    keys: (Seq<u8>, Seq<u8>),
    name: Seq<char>,
    text: Seq<char>,
    query: Seq<char>,
    f: Field,
    clock: Option<u64>,
)
    requires
        0 <= at < v.ciphers.len(),
        forall|k: int| 0 <= k < at ==> (#[trigger] v.ciphers[k]).id != v.ciphers[at].id,
        ({
            let (enc, mac) = base_keys(v, v.ciphers[at]);
            item_keys(v.ciphers[at].key, enc, mac) == Ok::<
                (Seq<u8>, Seq<u8>),
                crate::vault_core::error::Error,
            >(keys)
        }),
        holds_text(v.ciphers[at].name, Some(name), keys.0, keys.1),
        f is Password || f is Username || f is Notes || f is Uri,
        holds_text(field_envelope(v.ciphers[at], f), Some(text), keys.0, keys.1),
    ensures
        item_read(v, Some(v.ciphers[at].id), query, f, clock) == Ok::<ItemView, ErrorView>(
            ItemView {
                id: v.ciphers[at].id,
                name,
                cipher_type: v.ciphers[at].cipher_type,
                field: f,
                value: text,
            },
        ),
{
    let c = v.ciphers[at];
    let (enc, mac) = base_keys(v, c);
    let p = PlainCipherView {
        id: c.id,
        cipher_type: c.cipher_type,
        folder_id: c.folder_id,
        name: Some(name),
        notes: if f is Notes { Some(text) } else { None },
        username: if f is Username { Some(text) } else { None },
        password: if f is Password { Some(text) } else { None },
        totp: None,
        primary_uri: if f is Uri { Some(text) } else { None },
        card: None,
        identity: None,
    };
    item_reads_as_its_envelopes_hold(c, p, enc, mac, keys, options_for(f));
    asking_by_identifier_reads_the_item_with_it(v, c.id, query, at, Some(name), f, clock);
}

/// A result that is as described succeeds exactly where the description does,
/// with the same item, index or value, and fails with the same error otherwise.
pub proof fn results_are_as_described(
    r: Result<Item, Error>,
    v: Result<ItemView, ErrorView>,
    i: Result<usize, Error>,
    j: Result<int, ErrorView>,
    a: Result<Option<String>, Error>,
    b: Result<Option<Seq<char>>, ErrorView>,
)
    ensures
        item_is(r, v) ==> (r is Ok <==> v is Ok),
        item_is(r, v) && r is Ok ==> r->Ok_0.deep_view() == v->Ok_0,
        item_is(r, v) && r is Err ==> r->Err_0.deep_view() == v->Err_0,
        index_is(i, j) ==> (i is Ok <==> j is Ok),
        index_is(i, j) && i is Ok ==> i->Ok_0 == j->Ok_0,
        index_is(i, j) && i is Err ==> i->Err_0.deep_view() == j->Err_0,
        value_is(a, b) ==> (a is Ok <==> b is Ok),
        value_is(a, b) && a is Ok ==> a->Ok_0.deep_view() == b->Ok_0,
        value_is(a, b) && a is Err ==> a->Err_0.deep_view() == b->Err_0,
{
}

} // verus!
