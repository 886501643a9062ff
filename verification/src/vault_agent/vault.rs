//! An unlocked vault.
use vstd::prelude::*;
use vstd::string::*;
use crate::text_map::{key_index, lookup, lookup_gives_the_entry, unique_keys, TextMap};
use crate::vault_agent::sealed::SealedKey;
use crate::vault_api::client::{BitwardenClient, ClientView};
use crate::vault_core::cipher::{Cipher, CipherView};
use crate::vault_core::kdf::KdfParams;

verus! {

/// The keys and the items of an unlocked vault.
pub struct Vault {
    /// Server origin.
    pub server: String,
    /// Account email, in lower case.
    pub email: String,
    /// User key for encryption.
    pub user_enc: SealedKey,
    /// User key for authentication.
    pub user_mac: SealedKey,
    /// Items, their fields encrypted.
    pub ciphers: Vec<Cipher>,
    /// Names of the folders by identifier.
    pub folders: TextMap<String>,
    /// Keys of the organizations by identifier.
    pub org_keys: TextMap<([u8; 32], [u8; 32])>,
    /// Client of the server; absent in a session without access to it.
    pub client: Option<BitwardenClient>,
    /// Envelope around the user key.
    pub protected_user_key: String,
    /// Key-derivation parameters of the account.
    pub kdf: KdfParams,
    /// Refresh token.
    pub refresh_token: Option<String>,
    /// Identifier of this device.
    pub device_id: String,
    /// Time of the last sync.
    pub last_sync: Option<String>,
}

/// What a [`Vault`] holds.
pub struct VaultView {
    /// Server origin.
    pub server: Seq<char>,
    /// Account email.
    pub email: Seq<char>,
    /// User key for encryption.
    pub user_enc: Seq<u8>,
    /// User key for authentication.
    pub user_mac: Seq<u8>,
    /// Items.
    pub ciphers: Seq<CipherView>,
    /// Names of the folders by identifier.
    pub folders: Seq<(Seq<char>, Seq<char>)>,
    /// Keys of the organizations by identifier.
    pub org_keys: Seq<(Seq<char>, (Seq<u8>, Seq<u8>))>,
    /// Client of the server.
    pub client: Option<ClientView>,
    /// Envelope around the user key.
    pub protected_user_key: Seq<char>,
    /// Key-derivation parameters of the account.
    pub kdf: KdfParams,
    /// Refresh token.
    pub refresh_token: Option<Seq<char>>,
    /// Identifier of this device.
    pub device_id: Seq<char>,
    /// Time of the last sync.
    pub last_sync: Option<Seq<char>>,
}

/// The texts in a map of folders.
pub open spec fn folder_view(m: Seq<(Seq<char>, String)>) -> Seq<(Seq<char>, Seq<char>)> {
    m.map_values(|e: (Seq<char>, String)| (e.0, e.1@))
}

/// The bytes in a map of keys.
pub open spec fn key_view(m: Seq<(Seq<char>, ([u8; 32], [u8; 32]))>) -> Seq<
    (Seq<char>, (Seq<u8>, Seq<u8>)),
> {
    m.map_values(|e: (Seq<char>, ([u8; 32], [u8; 32]))| (e.0, (e.1.0@, e.1.1@)))
}

impl DeepView for Vault {
    type V = VaultView;

    open spec fn deep_view(&self) -> VaultView {
        VaultView {
            server: self.server@,
            email: self.email@,
            user_enc: self.user_enc@,
            user_mac: self.user_mac@,
            ciphers: self.ciphers.deep_view(),
            folders: folder_view(self.folders@),
            org_keys: key_view(self.org_keys@),
            client: self.client.deep_view(),
            protected_user_key: self.protected_user_key@,
            kdf: self.kdf,
            refresh_token: self.refresh_token.deep_view(),
            device_id: self.device_id@,
            last_sync: self.last_sync.deep_view(),
        }
    }
}

/// A folder stands at the same place in a map and in its texts.
pub proof fn folder_index(m: Seq<(Seq<char>, String)>, k: Seq<char>, i: int)
    requires
        0 <= i <= m.len(),
    ensures
        key_index(folder_view(m), k, i) == key_index(m, k, i),
        i <= key_index(m, k, i) <= m.len(),
    decreases m.len() - i,
{
    if i < m.len() {
        folder_index(m, k, i + 1);
    }
}

/// Looking up a folder's name.
pub proof fn folder_lookup(m: Seq<(Seq<char>, String)>, k: Seq<char>)
    ensures
        lookup(folder_view(m), k) == (match lookup(m, k) {
            Some(s) => Some(s@),
            None => None,
        }),
{
    folder_index(m, k, 0);
}

/// An organization stands at the same place in a map and in its bytes.
pub proof fn org_index(m: Seq<(Seq<char>, ([u8; 32], [u8; 32]))>, k: Seq<char>, i: int)
    requires
        0 <= i <= m.len(),
    ensures
        key_index(key_view(m), k, i) == key_index(m, k, i),
        i <= key_index(m, k, i) <= m.len(),
    decreases m.len() - i,
{
    if i < m.len() {
        org_index(m, k, i + 1);
    }
}

/// Looking up an organization's key.
pub proof fn org_lookup(m: Seq<(Seq<char>, ([u8; 32], [u8; 32]))>, k: Seq<char>)
    ensures
        lookup(key_view(m), k) == (match lookup(m, k) {
            Some(p) => Some((p.0@, p.1@)),
            None => None,
        }),
{
    org_index(m, k, 0);
}

/// The key pair that an item's fields, or its own key, are encrypted under:
/// that of its organization where it has one whose key is held, else the user
/// key.
pub open spec fn base_keys(v: VaultView, c: CipherView) -> (Seq<u8>, Seq<u8>) {
    match c.organization_id {
        None => (v.user_enc, v.user_mac),
        Some(id) => match lookup(v.org_keys, id) {
            Some(keys) => keys,
            None => (v.user_enc, v.user_mac),
        },
    }
}

impl Vault {
    /// The key pair that an item's fields, or its own key, are encrypted under.
    pub fn base_keys(&self, cipher: &Cipher) -> (r: ([u8; 32], [u8; 32]))
        ensures
            (r.0@, r.1@) == base_keys(self.deep_view(), cipher.deep_view()),
    {
        if let Some(id) = &cipher.organization_id {
            proof {
                org_lookup(self.org_keys@, id@);
            }
            if let Some(keys) = self.org_keys.get(id.as_str()) {
                return (keys.0, keys.1);
            }
        }
        (*self.user_enc.bytes(), *self.user_mac.bytes())
    }

    /// The name of a folder.
    pub fn folder_name(&self, id: &Option<String>) -> (r: Option<String>)
        ensures
            r.deep_view() == folder_name(self.deep_view(), id.deep_view()),
    {
        match id {
            None => None,
            Some(f) => {
                proof {
                    folder_lookup(self.folders@, f@);
                }
                match self.folders.get(f.as_str()) {
                    Some(n) => Some(n.clone()),
                    None => None,
                }
            },
        }
    }
}

/// The name of a folder, where it is known.
pub open spec fn folder_name(v: VaultView, id: Option<Seq<char>>) -> Option<Seq<char>> {
    match id {
        None => None,
        Some(f) => lookup(v.folders, f),
    }
}

/// The fields of a personal item are under the user key, those of an item of an
/// organization under that organization's key, or under the user key where that
/// key is not held.
pub proof fn items_are_under_their_owners_key(
    v: VaultView,
    c: CipherView,
    org: Seq<char>,
    keys: (Seq<u8>, Seq<u8>),
    k: int,
)
    ensures
        c.organization_id is None ==> base_keys(v, c) == (v.user_enc, v.user_mac),
        c.organization_id == Some(org) && unique_keys(v.org_keys) && 0 <= k < v.org_keys.len()
            && v.org_keys[k] == (org, keys) ==> base_keys(v, c) == keys,
        c.organization_id == Some(org) && unique_keys(v.org_keys) && (forall|j: int|
            0 <= j < v.org_keys.len() ==> (#[trigger] v.org_keys[j]).0 != org) ==> base_keys(v, c)
            == (v.user_enc, v.user_mac),
{
    if unique_keys(v.org_keys) {
        lookup_gives_the_entry(v.org_keys, org, k);
    }
}

/// A folder is told by the name that is kept for its identifier.
pub proof fn folders_are_told_by_name(v: VaultView, id: Seq<char>, name: Seq<char>, k: int)
    requires
        unique_keys(v.folders),
    ensures
        folder_name(v, None) is None,
        0 <= k < v.folders.len() && v.folders[k] == (id, name) ==> folder_name(v, Some(id))
            == Some(name),
        (forall|j: int| 0 <= j < v.folders.len() ==> (#[trigger] v.folders[j]).0 != id)
            ==> folder_name(v, Some(id)) is None,
{
    lookup_gives_the_entry(v.folders, id, k);
}

} // verus!
