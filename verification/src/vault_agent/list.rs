//! The list of a vault's items.
use vstd::prelude::*;
use vstd::string::*;
use crate::text::{
    copy_text, lowercase, text_in_order, text_le, text_le_total, text_le_transitive, to_lower,
};
use crate::vault_agent::vault::{base_keys, folder_name, Vault, VaultView};
use crate::vault_core::cipher::{
    nothing_asked, opened_cipher, Cipher, CipherView, DecryptOptions, PlainCipher, PlainCipherView,
};
use crate::vault_ipc::proto::{ListEntry, ListEntryView};

verus! {

/// What a row of the list asks of an item: the username of a login.
pub open spec fn row_options(cipher_type: u8) -> DecryptOptions {
    if cipher_type == 1 {
        DecryptOptions { username: true, ..nothing_asked() }
    } else {
        nothing_asked()
    }
}

/// The row of an item; none where it does not decrypt or has no name.
pub open spec fn list_row(v: VaultView, c: CipherView) -> Option<ListEntryView> {
    let (enc, mac) = base_keys(v, c);
    match opened_cipher(c, enc, mac, row_options(c.cipher_type)) {
        Err(_) => None,
        Ok(p) => match p.name {
            None => None,
            Some(name) => Some(
                ListEntryView {
                    id: c.id,
                    name,
                    cipher_type: c.cipher_type,
                    username: p.username,
                    folder: folder_name(v, c.folder_id),
                },
            ),
        },
    }
}

/// The rows of the first `n` items.
pub open spec fn list_rows(v: VaultView, n: nat) -> Seq<ListEntryView>
    decreases n,
{
    if n == 0 {
        Seq::empty()
    } else {
        match list_row(v, v.ciphers[n - 1]) {
            None => list_rows(v, (n - 1) as nat),
            Some(row) => list_rows(v, (n - 1) as nat).push(row),
        }
    }
}

/// What the list is ordered by.
pub open spec fn row_key(row: ListEntryView) -> Seq<char> {
    lowercase(row.name)
}

/// The least index from `i` on whose row comes after `key`, or the length.
pub open spec fn slot(rows: Seq<ListEntryView>, key: Seq<char>, i: int) -> int
    decreases rows.len() - i,
{
    if i >= rows.len() {
        rows.len() as int
    } else if text_le(row_key(rows[i]), key) {
        slot(rows, key, i + 1)
    } else {
        i
    }
}

/// The rows in the order of their names in lower case; rows with the same
/// name stay in the order in which they came.
pub open spec fn sorted_rows(rows: Seq<ListEntryView>) -> Seq<ListEntryView>
    decreases rows.len(),
{
    if rows.len() == 0 {
        rows
    } else {
        let front = sorted_rows(rows.drop_last());
        front.insert(slot(front, row_key(rows.last()), 0), rows.last())
    }
}

/// The list of a vault's items.
pub open spec fn listed(v: VaultView) -> Seq<ListEntryView> {
    sorted_rows(list_rows(v, v.ciphers.len()))
}

/// Each row comes no later than those behind it.
pub open spec fn in_order(rows: Seq<ListEntryView>) -> bool {
    forall|i: int, j: int|
        0 <= i < j < rows.len() ==> text_le(#[trigger] row_key(rows[i]), #[trigger] row_key(rows[j]))
}

proof fn slot_bounds(rows: Seq<ListEntryView>, key: Seq<char>, i: int)
    requires
        0 <= i <= rows.len(),
    ensures
        i <= slot(rows, key, i) <= rows.len(),
        forall|k: int| i <= k < slot(rows, key, i) ==> text_le(#[trigger] row_key(rows[k]), key),
        slot(rows, key, i) < rows.len() ==> !text_le(row_key(rows[slot(rows, key, i)]), key),
    decreases rows.len() - i,
{
    if i < rows.len() && text_le(row_key(rows[i]), key) {
        slot_bounds(rows, key, i + 1);
    }
}

/// The list is ordered by name in lower case and holds the rows it was made
/// of, neither more nor fewer.
pub proof fn sorted_rows_are_in_order(rows: Seq<ListEntryView>)
    ensures
        in_order(sorted_rows(rows)),
        sorted_rows(rows).len() == rows.len(),
        sorted_rows(rows).to_multiset() == rows.to_multiset(),
    decreases rows.len(),
{
    broadcast use vstd::seq_lib::group_to_multiset_ensures;

    if rows.len() > 0 {
        let front = sorted_rows(rows.drop_last());
        let row = rows.last();
        let at = slot(front, row_key(row), 0);
        let out = front.insert(at, row);
        sorted_rows_are_in_order(rows.drop_last());
        slot_bounds(front, row_key(row), 0);
        assert forall|i: int, j: int| 0 <= i < j < out.len() implies text_le(
            #[trigger] row_key(out[i]),
            #[trigger] row_key(out[j]),
        ) by {
            let a = if i < at { i } else { i - 1 };
            let b = if j < at { j } else { j - 1 };
            if j == at {
                assert(text_le(row_key(front[i]), row_key(row)));
            } else if i == at {
                text_le_total(row_key(front[at]), row_key(row));
                if b > at {
                    assert(text_le(row_key(front[at]), row_key(front[b])));
                    text_le_transitive(row_key(row), row_key(front[at]), row_key(front[b]));
                }
            } else {
                assert(text_le(row_key(front[a]), row_key(front[b])));
            }
        }
        assert(rows =~= rows.drop_last().push(row));
        vstd::seq_lib::to_multiset_insert(front, at, row);
        vstd::seq_lib::to_multiset_build(rows.drop_last(), row);
        assert(out.to_multiset() =~= rows.to_multiset());
    }
}

/// The texts of rows.
pub open spec fn row_views(rows: Seq<ListEntry>) -> Seq<ListEntryView> {
    rows.map_values(|r: ListEntry| r.deep_view())
}

fn row_of(v: &Vault, c: &Cipher) -> (r: Option<ListEntry>)
    ensures
        r.deep_view() == list_row(v.deep_view(), c.deep_view()),
{
    let opts: DecryptOptions = if c.cipher_type == 1 {
        DecryptOptions::username_only()
    } else {
        DecryptOptions::default()
    };
    let (enc, mac) = v.base_keys(c);
    let plain: PlainCipher = match c.decrypt(&enc, &mac, opts) {
        Ok(p) => p,
        Err(_) => return None,
    };
    match copy_text(&plain.name) {
        None => None,
        Some(name) => Some(
            ListEntry {
                id: c.id.clone(),
                name,
                cipher_type: c.cipher_type,
                username: copy_text(&plain.username),
                folder: v.folder_name(&c.folder_id),
            },
        ),
    }
}

fn slot_for(rows: &Vec<ListEntry>, key: &str) -> (i: usize)
    ensures
        i == slot(row_views(rows@), key@, 0),
        i <= rows@.len(),
{
    let ghost views = row_views(rows@);
    let mut i: usize = 0;
    while i < rows.len()
        invariant
            i <= rows@.len(),
            views == row_views(rows@),
            slot(views, key@, 0) == slot(views, key@, i as int),
        decreases rows.len() - i,
    {
        let here: String = to_lower(rows[i].name.as_str());
        assert(here@ == row_key(views[i as int]));
        if !text_in_order(here.as_str(), key) {
            return i;
        }
        i += 1;
    }
    i
}

fn place_row(rows: &mut Vec<ListEntry>, row: ListEntry)
    ensures
        row_views(final(rows)@) == row_views(old(rows)@).insert(
            slot(row_views(old(rows)@), row_key(row.deep_view()), 0),
            row.deep_view(),
        ),
{
    let key: String = to_lower(row.name.as_str());
    let i: usize = slot_for(rows, key.as_str());
    let ghost views = row_views(rows@);
    rows.insert(i, row);
    assert(row_views(rows@) =~= views.insert(i as int, row.deep_view()));
}

/// The list of a vault's items.
pub fn list_vault(v: &Vault) -> (out: Vec<ListEntry>)
    ensures
        row_views(out@) == listed(v.deep_view()),
        in_order(row_views(out@)),
{
    let ghost view = v.deep_view();
    let mut out: Vec<ListEntry> = Vec::new();
    assert(row_views(out@) =~= Seq::empty());
    let mut i: usize = 0;
    while i < v.ciphers.len()
        invariant
            i <= v.ciphers@.len(),
            view == v.deep_view(),
            row_views(out@) == sorted_rows(list_rows(view, i as nat)),
        decreases v.ciphers.len() - i,
    {
        assert(view.ciphers[i as int] == v.ciphers@[i as int].deep_view());
        if let Some(row) = row_of(v, &v.ciphers[i]) {
            proof {
                let rows = list_rows(view, (i + 1) as nat);
                assert(rows.drop_last() =~= list_rows(view, i as nat));
                assert(rows.last() == row.deep_view());
            }
            place_row(&mut out, row);
        }
        i += 1;
    }
    proof {
        sorted_rows_are_in_order(list_rows(view, view.ciphers.len()));
    }
    out
}

proof fn rows_of_items(v: VaultView, n: nat, k: int)
    requires
        0 <= k < n <= v.ciphers.len(),
        list_row(v, v.ciphers[k]) is Some,
    ensures
        list_rows(v, n).contains(list_row(v, v.ciphers[k])->Some_0),
    decreases n,
{
    let before = list_rows(v, (n - 1) as nat);
    let all = list_rows(v, n);
    let row = list_row(v, v.ciphers[k])->Some_0;
    if k == n - 1 {
        assert(all[all.len() - 1] == row);
    } else {
        rows_of_items(v, (n - 1) as nat, k);
        let i = choose|i: int| 0 <= i < before.len() && before[i] == row;
        assert(all[i] == row);
    }
}

proof fn rows_come_from_items(v: VaultView, n: nat, i: int)
    requires
        n <= v.ciphers.len(),
        0 <= i < list_rows(v, n).len(),
    ensures
        exists|k: int|
            0 <= k < n && list_row(v, #[trigger] v.ciphers[k]) == Some(list_rows(v, n)[i]),
        list_rows(v, n).len() <= n,
    decreases n,
{
    if n > 0 {
        let before = list_rows(v, (n - 1) as nat);
        row_count(v, (n - 1) as nat);
        row_count(v, n);
        if i < before.len() {
            rows_come_from_items(v, (n - 1) as nat, i);
            let k = choose|k: int|
                0 <= k < n - 1 && list_row(v, #[trigger] v.ciphers[k]) == Some(before[i]);
            assert(list_row(v, v.ciphers[k]) == Some(list_rows(v, n)[i]));
        } else {
            assert(list_row(v, v.ciphers[n - 1]) == Some(list_rows(v, n)[i]));
        }
    }
}

proof fn row_count(v: VaultView, n: nat)
    requires
        n <= v.ciphers.len(),
    ensures
        list_rows(v, n).len() <= n,
        (forall|k: int| 0 <= k < n ==> list_row(v, #[trigger] v.ciphers[k]) is Some)
            ==> list_rows(v, n).len() == n,
    decreases n,
{
    if n > 0 {
        row_count(v, (n - 1) as nat);
    }
}

proof fn sorting_keeps_rows(rows: Seq<ListEntryView>, row: ListEntryView)
    ensures
        rows.contains(row) <==> sorted_rows(rows).contains(row),
{
    sorted_rows_are_in_order(rows);
    vstd::seq_lib::to_multiset_contains(rows, row);
    vstd::seq_lib::to_multiset_contains(sorted_rows(rows), row);
}

/// Every item whose name decrypts, and with it the username of a login, has a
/// row in the list, whatever its kind and whoever owns it: with its identifier,
/// its name, its kind, the username where it is a login, and the name of its
/// folder.
pub proof fn every_named_item_is_listed(v: VaultView, k: int, p: PlainCipherView, name: Seq<char>)
    requires
        0 <= k < v.ciphers.len(),
        ({
            let c = v.ciphers[k];
            let (enc, mac) = base_keys(v, c);
            let opts = DecryptOptions {
                notes: false,
                username: c.cipher_type == 1,
                password: false,
                totp: false,
                primary_uri: false,
                card: false,
                identity: false,
            };
            opened_cipher(c, enc, mac, opts) == Ok::<
                PlainCipherView,
                crate::vault_core::error::Error,
            >(p)
        }),
        p.name == Some(name),
    ensures
        listed(v).contains(
            ListEntryView {
                id: v.ciphers[k].id,
                name,
                cipher_type: v.ciphers[k].cipher_type,
                username: p.username,
                folder: folder_name(v, v.ciphers[k].folder_id),
            },
        ),
{
    let c = v.ciphers[k];
    assert(row_options(c.cipher_type) == (DecryptOptions {
        notes: false,
        username: c.cipher_type == 1,
        password: false,
        totp: false,
        primary_uri: false,
        card: false,
        identity: false,
    }));
    rows_of_items(v, v.ciphers.len(), k);
    sorting_keeps_rows(list_rows(v, v.ciphers.len()), list_row(v, c)->Some_0);
}

/// Every row of the list is that of an item, which decrypts to the name in it,
/// and there are no more rows than items.
pub proof fn every_row_is_that_of_an_item(v: VaultView, i: int)
    requires
        0 <= i < listed(v).len(),
    ensures
        exists|k: int| 0 <= k < v.ciphers.len() && row_tells(v, #[trigger] v.ciphers[k], listed(v)[i]),
        listed(v).len() <= v.ciphers.len(),
{
    let rows = list_rows(v, v.ciphers.len());
    let row = listed(v)[i];
    row_count(v, v.ciphers.len());
    sorted_rows_are_in_order(rows);
    assert(listed(v).contains(row));
    sorting_keeps_rows(rows, row);
    let j = choose|j: int| 0 <= j < rows.len() && rows[j] == row;
    rows_come_from_items(v, v.ciphers.len(), j);
    let k = choose|k: int|
        0 <= k < v.ciphers.len() && list_row(v, #[trigger] v.ciphers[k]) == Some(rows[j]);
    assert(row_tells(v, v.ciphers[k], row));
}

/// `row` tells of the item `c` what decrypting it gives.
pub open spec fn row_tells(v: VaultView, c: CipherView, row: ListEntryView) -> bool {
    let (enc, mac) = base_keys(v, c);
    &&& row.id == c.id
    &&& row.cipher_type == c.cipher_type
    &&& row.folder == folder_name(v, c.folder_id)
    &&& opened_cipher(c, enc, mac, row_options(c.cipher_type)) matches Ok(p) && p.name == Some(
        row.name,
    ) && row.username == p.username
}

/// Where every item has a row, the list has as many rows as the vault items.
pub proof fn whole_vault_is_listed(v: VaultView)
    requires
        forall|k: int| 0 <= k < v.ciphers.len() ==> list_row(v, #[trigger] v.ciphers[k]) is Some,
    ensures
        listed(v).len() == v.ciphers.len(),
{
    row_count(v, v.ciphers.len());
    sorted_rows_are_in_order(list_rows(v, v.ciphers.len()));
}

/// The list is ordered by the names in lower case.
pub proof fn list_is_in_the_order_of_names(v: VaultView, i: int, j: int)
    requires
        0 <= i < j < listed(v).len(),
    ensures
        text_le(lowercase(listed(v)[i].name), lowercase(listed(v)[j].name)),
{
    sorted_rows_are_in_order(list_rows(v, v.ciphers.len()));
    assert(text_le(row_key(listed(v)[i]), row_key(listed(v)[j])));
}

/// A row goes behind all whose names do not come after its own, so that rows
/// with the same name stay in the order of the items.
pub proof fn row_goes_behind_its_equals(rows: Seq<ListEntryView>, row: ListEntryView)
    ensures
        exists|at: int|
            0 <= at <= sorted_rows(rows).len() && sorted_rows(rows.push(row))
                == #[trigger] sorted_rows(rows).insert(at, row) && (forall|i: int|
                0 <= i < at ==> text_le(
                    lowercase((#[trigger] sorted_rows(rows)[i]).name),
                    lowercase(row.name),
                )) && (forall|i: int|
                at <= i < sorted_rows(rows).len() ==> !text_le(
                    lowercase((#[trigger] sorted_rows(rows)[i]).name),
                    lowercase(row.name),
                )),
{
    let front = sorted_rows(rows);
    assert(rows.push(row).drop_last() =~= rows);
    let at = slot(front, row_key(row), 0);
    slot_bounds(front, row_key(row), 0);
    sorted_rows_are_in_order(rows);
    assert forall|i: int| 0 <= i < at implies text_le(
        lowercase((#[trigger] front[i]).name),
        lowercase(row.name),
    ) by {
        assert(text_le(row_key(front[i]), row_key(row)));
    }
    assert forall|i: int| at <= i < front.len() implies !text_le(
        lowercase((#[trigger] front[i]).name),
        lowercase(row.name),
    ) by {
        if text_le(row_key(front[i]), row_key(row)) {
            if i > at {
                assert(text_le(row_key(front[at]), row_key(front[i])));
                text_le_transitive(row_key(front[at]), row_key(front[i]), row_key(row));
            }
        }
    }
    assert(sorted_rows(rows.push(row)) == front.insert(at, row));
}

} // verus!
