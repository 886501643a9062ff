//! The server's answer to a sync.
use vstd::prelude::*;
use vstd::string::*;
use crate::text::copy_text;
use crate::vault_core::cipher::Cipher;

verus! {

/// A folder in a sync. What the server left out, or wrote as something other
/// than a text, is absent.
#[derive(Clone, Debug)]
pub struct SyncFolder {
    /// Identifier.
    pub id: Option<String>,
    /// Envelope around the name.
    pub name: Option<String>,
}

/// An organization in the profile of a sync.
#[derive(Clone, Debug)]
pub struct SyncOrganization {
    /// Identifier.
    pub id: Option<String>,
    /// Wrapped key.
    pub key: Option<String>,
}

/// The server's answer to a sync, as far as it is read.
#[derive(Clone, Debug)]
pub struct SyncResponse {
    /// Envelope around the account's RSA private key.
    pub private_key: Option<String>,
    /// Organizations of the account.
    pub organizations: Vec<SyncOrganization>,
    /// Folders.
    pub folders: Vec<SyncFolder>,
    /// Items; absent where an item does not have the expected form.
    pub ciphers: Vec<Option<Cipher>>,
}

/// The identifiers and wrapped keys of the organizations that have both.
pub open spec fn keyed_organizations(orgs: Seq<SyncOrganization>) -> Seq<(Seq<char>, Seq<char>)>
    decreases orgs.len(),
{
    if orgs.len() == 0 {
        Seq::empty()
    } else {
        let front = keyed_organizations(orgs.drop_last());
        match (orgs.last().id, orgs.last().key) {
            (Some(id), Some(key)) => front.push((id@, key@)),
            _ => front,
        }
    }
}

/// The texts of pairs.
pub open spec fn pair_texts(pairs: Seq<(String, String)>) -> Seq<(Seq<char>, Seq<char>)> {
    pairs.map_values(|p: (String, String)| (p.0@, p.1@))
}

impl SyncResponse {
    /// Number of items.
    pub fn cipher_count(&self) -> (n: usize)
        ensures
            n == self.ciphers@.len(),
    {
        self.ciphers.len()
    }

    /// Number of folders.
    pub fn folder_count(&self) -> (n: usize)
        ensures
            n == self.folders@.len(),
    {
        self.folders.len()
    }

    /// Envelope around the account's RSA private key.
    pub fn private_key(&self) -> (r: Option<String>)
        ensures
            r.deep_view() == self.private_key.deep_view(),
    {
        copy_text(&self.private_key)
    }

    /// The identifier and the wrapped key of each organization that has both.
    pub fn organization_keys(&self) -> (out: Vec<(String, String)>)
        ensures
            pair_texts(out@) == keyed_organizations(self.organizations@),
    {
        let orgs: &Vec<SyncOrganization> = &self.organizations;
        let mut out: Vec<(String, String)> = Vec::new();
        let mut i: usize = 0;
        while i < orgs.len()
            invariant
                i <= orgs.len(),
                pair_texts(out@) =~= keyed_organizations(orgs@.take(i as int)),
            decreases orgs.len() - i,
        {
            let ghost before = out@;
            assert(orgs@.take(i + 1).drop_last() =~= orgs@.take(i as int));
            assert(orgs@.take(i + 1).last() == orgs@[i as int]);
            if let Some(id) = &orgs[i].id {
                if let Some(key) = &orgs[i].key {
                    out.push((id.clone(), key.clone()));
                    assert(pair_texts(out@) =~= pair_texts(before).push((id@, key@)));
                }
            }
            i += 1;
        }
        assert(orgs@.take(orgs@.len() as int) =~= orgs@);
        out
    }
}

/// Every organization that has an identifier and a key is taken, with both, in
/// order; the others are passed over.
pub proof fn organizations_with_a_key_are_taken(
    orgs: Seq<SyncOrganization>,
    org: SyncOrganization,
)
    ensures
        keyed_organizations(Seq::empty()) == Seq::<(Seq<char>, Seq<char>)>::empty(),
        org.id is Some && org.key is Some ==> keyed_organizations(orgs.push(org))
            == keyed_organizations(orgs).push((org.id->Some_0@, org.key->Some_0@)),
        org.id is None || org.key is None ==> keyed_organizations(orgs.push(org))
            == keyed_organizations(orgs),
{
    assert(orgs.push(org).drop_last() =~= orgs);
}

/// An organization with an identifier and a key is among those taken, and no
/// identifier is taken that none has.
pub proof fn keyed_organization_is_taken(orgs: Seq<SyncOrganization>, i: int, id: Seq<char>)
    requires
        0 <= i < orgs.len(),
    ensures
        orgs[i].id matches Some(own) ==> orgs[i].key matches Some(key) ==> keyed_organizations(
            orgs,
        ).contains((own@, key@)),
        (forall|k: int|
            0 <= k < orgs.len() ==> ((#[trigger] orgs[k]).id matches Some(x) ==> x@ != id))
            ==> forall|j: int|
            0 <= j < keyed_organizations(orgs).len() ==> (#[trigger] keyed_organizations(
                orgs,
            )[j]).0 != id,
    decreases orgs.len(),
{
    let front = orgs.drop_last();
    let before = keyed_organizations(front);
    let all = keyed_organizations(orgs);
    assert(orgs =~= front.push(orgs.last()));
    if front.len() > 0 {
        let k = if i < front.len() { i } else { 0 };
        keyed_organization_is_taken(front, k, id);
    }
    if let Some(own) = orgs[i].id {
        if let Some(key) = orgs[i].key {
            if i < front.len() {
                let j = choose|j: int| 0 <= j < before.len() && before[j] == (own@, key@);
                assert(all[j] == (own@, key@));
            } else {
                assert(all[all.len() - 1] == (own@, key@));
            }
        }
    }
    if forall|k: int|
        0 <= k < orgs.len() ==> ((#[trigger] orgs[k]).id matches Some(x) ==> x@ != id) {
        assert forall|k: int| 0 <= k < front.len() implies ((
        #[trigger] front[k]).id matches Some(x) ==> x@ != id) by {
            assert(front[k] == orgs[k]);
        }
        assert forall|j: int| 0 <= j < all.len() implies (#[trigger] all[j]).0 != id by {
            if j < before.len() {
                assert(all[j] == before[j]);
            } else {
                assert(orgs[orgs.len() - 1] == orgs.last());
            }
        }
    }
}

} // verus!
