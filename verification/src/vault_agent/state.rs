//! The state of the agent: whether it holds a vault, and what it does with it.
use vstd::prelude::*;
use vstd::string::*;
use crate::clock::{or_zero, seconds_or_zero, unix_seconds};
use crate::text::{copy_text, same_text};
use crate::vault_agent::clipboard::{
    clear_due, should_clear_clipboard, write_result, Backend, BackendChoice, ClipboardCall,
};
use crate::vault_agent::edit::{
    apply_cipher_edits_with, bytes_to_string, card_fields_are_taken_one_by_one,
    card_write_to_plain, card_written, change_takes_the_overlay, edited, empty_card,
    empty_identity, folder_resolved, has_no_text, identity_fields_are_taken_one_by_one,
    identity_write_to_plain, identity_written, is_text, item_written, merge_overlay, merged,
    new_item_is_what_was_written, plain_item, resolve_vault_folder, seals_nothing,
    secret_is_taken_as_its_text, secret_text, takes_text, text_in, text_is,
    textless_change_takes_the_overlay, CipherWrite, EditOverlay, OverlayView,
};
use crate::vault_agent::list::{in_order, list_vault, listed, row_views};
use crate::vault_agent::lookup::{
    held_text_is_read, index_is, item_is, item_read, read_item, resolve, resolved,
    resolved_item_matches,
};
use crate::vault_agent::server::SessionEffect;
use crate::vault_agent::session::{deadline, session_deadline, SessionBlob};
use crate::vault_agent::unlock::{
    build_org_keys, ciphers_and_folders, crypto_err, crypto_failure, enroll_pin,
    pin_protect_with, recovered, secret_keys, sync_folders, sync_items, sync_org_keys,
    KeyRecoverView,
};
use crate::vault_agent::vault::{base_keys, Vault, VaultView};
use crate::vault_api::sync::SyncResponse;
use crate::vault_core::cipher::{
    asked_part, draw_ivs, drawn, enough_ivs, holds_text, item_keys,
    new_item_holds_what_its_kind_stores, opened_cipher, opened_name, seals_cipher,
    stored_item_reads_back, stored_part, CardView, Cipher, CipherView, DecryptOptions,
    IdentityView, LoginView, PlainCard, PlainCipher, PlainCipherView, PlainIdentity,
};
use crate::vault_core::enc_string::{draw_iv, sealed, serialized};
use crate::vault_core::error::error_text;
use crate::vault_ipc::proto::{
    CardWrite, Error, ErrorView, Field, IdentityWrite, Item, ItemView, ListEntry, NamedView,
    Removed, Saved, Status, StatusView,
};
use crate::vault_store::{VaultCache, VaultCacheView};
use crate::VERSION;

verus! {

/// Fewest seconds between two renewals of a stored session.
pub const SESSION_REFRESH_THROTTLE_SECS: u64 = 30;

/// Seconds after which a copied value is cleared, where nothing else is asked.
pub const DEFAULT_CLEAR_SECS: u64 = 30;

/// The time, twice: of a clock that never goes back, in milliseconds, and of
/// the calendar, in seconds since the Unix epoch.
#[derive(Clone, Copy, Debug, PartialEq, Eq, Structural)]
pub struct Moment {
    /// Milliseconds of the steady clock.
    pub ms: u64,
    /// Seconds since the Unix epoch, where the calendar has reached it.
    pub unix: Option<u64>,
}

impl Moment {
    /// The moment `ms` milliseconds into the steady clock, with the time of the
    /// calendar as the system has it.
    pub fn at(ms: u64) -> (r: Moment)
        ensures
            r.ms == ms,
    {
        Moment { ms, unix: unix_seconds() }
    }
}

/// The state of the agent.
pub struct AgentState {
    /// The vault, while the agent is unlocked.
    pub vault: Option<Vault>,
    /// When the last request was handled, in milliseconds of the steady clock.
    pub last_activity: u64,
    /// Seconds without a request after which the agent locks.
    pub idle_lock_secs: u64,
    /// Whether sessions are stored so that a new agent can resume them.
    pub session_keyring: bool,
    /// Whether a fingerprint is asked for before a session is resumed.
    pub fingerprint_unlock: bool,
    /// Seconds for which a session can be resumed by fingerprint; zero for no
    /// end.
    pub fingerprint_ttl_secs: u64,
    /// Seconds between two syncs in the background; zero for none.
    pub sync_interval_secs: u64,
    /// When the session was last stored, in milliseconds of the steady clock.
    pub last_session_refresh: Option<u64>,
    /// Whether the agent is to shut down.
    pub shutdown_requested: bool,
    /// The clipboard.
    pub clipboard: Option<Box<dyn Backend>>,
    /// Which clipboard was asked for.
    pub clipboard_backend: BackendChoice,
    /// The value copied last, while it may still be on the clipboard (secret).
    pub last_copied: Option<String>,
    /// Seconds after which a copied value is cleared, where the request does
    /// not say; zero for never.
    pub clipboard_clear_secs: u64,
}

/// What is known of a clipboard.
pub struct ClipboardView {
    /// Its short name.
    pub label: Seq<char>,
    /// The calls made so far.
    pub calls: Seq<ClipboardCall>,
}

/// What an [`AgentState`] holds.
pub struct AgentView {
    /// The vault, while the agent is unlocked.
    pub vault: Option<VaultView>,
    /// When the last request was handled.
    pub last_activity: u64,
    /// Seconds without a request after which the agent locks.
    pub idle_lock_secs: u64,
    /// Whether sessions are stored.
    pub session_keyring: bool,
    /// Whether a fingerprint is asked for before a session is resumed.
    pub fingerprint_unlock: bool,
    /// Seconds for which a session can be resumed by fingerprint.
    pub fingerprint_ttl_secs: u64,
    /// Seconds between two syncs in the background.
    pub sync_interval_secs: u64,
    /// When the session was last stored.
    pub last_session_refresh: Option<u64>,
    /// Whether the agent is to shut down.
    pub shutdown_requested: bool,
    /// The clipboard.
    pub clipboard: Option<ClipboardView>,
    /// Which clipboard was asked for.
    pub clipboard_backend: BackendChoice,
    /// The value copied last, while it may still be on the clipboard.
    pub last_copied: Option<Seq<char>>,
    /// Seconds after which a copied value is cleared.
    pub clipboard_clear_secs: u64,
}

/// What is known of the clipboard in a slot.
pub open spec fn clipboard_view(slot: Option<Box<dyn Backend>>) -> Option<ClipboardView> {
    match slot {
        None => None,
        Some(b) => Some(ClipboardView { label: b.label(), calls: b.calls() }),
    }
}

impl View for AgentState {
    type V = AgentView;

    open spec fn view(&self) -> AgentView {
        AgentView {
            vault: self.vault.deep_view(),
            last_activity: self.last_activity,
            idle_lock_secs: self.idle_lock_secs,
            session_keyring: self.session_keyring,
            fingerprint_unlock: self.fingerprint_unlock,
            fingerprint_ttl_secs: self.fingerprint_ttl_secs,
            sync_interval_secs: self.sync_interval_secs,
            last_session_refresh: self.last_session_refresh,
            shutdown_requested: self.shutdown_requested,
            clipboard: clipboard_view(self.clipboard),
            clipboard_backend: self.clipboard_backend,
            last_copied: self.last_copied.deep_view(),
            clipboard_clear_secs: self.clipboard_clear_secs,
        }
    }
}

/// A session to be stored.
pub struct SessionStore {
    /// The session.
    pub blob: SessionBlob,
    /// Seconds for which it is stored; zero for no end.
    pub ttl: u64,
}

/// What a [`SessionStore`] holds.
pub struct SessionStoreView {
    /// Server origin.
    pub server: Seq<char>,
    /// Account email.
    pub email: Seq<char>,
    /// User key for encryption.
    pub user_enc: Seq<u8>,
    /// User key for authentication.
    pub user_mac: Seq<u8>,
    /// Second since the Unix epoch from which on the session is void.
    pub deadline_unix: u64,
    /// Seconds for which it is stored.
    pub ttl: u64,
}

impl DeepView for SessionStore {
    type V = SessionStoreView;

    open spec fn deep_view(&self) -> SessionStoreView {
        SessionStoreView {
            server: self.blob.server@,
            email: self.blob.email@,
            user_enc: self.blob.user_enc@,
            user_mac: self.blob.user_mac@,
            deadline_unix: self.blob.deadline_unix,
            ttl: self.ttl,
        }
    }
}

/// How long a session is stored for: by the fingerprint's window where one is
/// asked for, else as long as the agent stays unlocked without a request.
pub open spec fn session_ttl(a: AgentView) -> u64 {
    if a.fingerprint_unlock {
        a.fingerprint_ttl_secs
    } else {
        a.idle_lock_secs
    }
}

/// The session to be stored at a time, if any.
pub open spec fn session_of(a: AgentView, now: Moment) -> Option<SessionStoreView> {
    match a.vault {
        Some(v) if a.session_keyring => Some(
            SessionStoreView {
                server: v.server,
                email: v.email,
                user_enc: v.user_enc,
                user_mac: v.user_mac,
                deadline_unix: deadline(or_zero(now.unix), session_ttl(a)),
                ttl: session_ttl(a),
            },
        ),
        _ => None,
    }
}

/// The agent after it stored its session, where it does.
pub open spec fn session_stored(a: AgentView, now: Moment) -> AgentView {
    if session_of(a, now) is Some {
        AgentView { last_session_refresh: Some(now.ms), ..a }
    } else {
        a
    }
}

/// Whole seconds from `then` to `now`; none where the clock has not advanced.
pub open spec fn seconds_since(then: u64, now: u64) -> int {
    if now >= then {
        (now - then) / 1000
    } else {
        0
    }
}

/// Whether the stored session is due for renewal.
pub open spec fn refresh_due(a: AgentView, now: Moment) -> bool {
    &&& a.session_keyring
    &&& a.vault is Some
    &&& match a.last_session_refresh {
        None => true,
        Some(t) => seconds_since(t, now.ms) >= SESSION_REFRESH_THROTTLE_SECS,
    }
}

/// The agent after a request: the time is noted, and the stored session renewed
/// where that is due.
pub open spec fn touched(a: AgentView, now: Moment) -> AgentView {
    let t = AgentView { last_activity: now.ms, ..a };
    if refresh_due(t, now) {
        session_stored(t, now)
    } else {
        t
    }
}

/// The session to be stored after a request, if any.
pub open spec fn touch_session(a: AgentView, now: Moment) -> Option<SessionStoreView> {
    if refresh_due(a, now) {
        session_of(a, now)
    } else {
        None
    }
}

/// Whether the agent has been without a request for so long that it locks.
pub open spec fn idle_due(a: AgentView, now_ms: u64) -> bool {
    a.vault is Some && seconds_since(a.last_activity, now_ms) >= a.idle_lock_secs
}

/// A locked agent is never due, and one that has just handled a request is not
/// due before the time has passed.
pub proof fn activity_defers_the_idle_lock(a: AgentView, now: Moment, later_ms: u64)
    ensures
        a.vault is None ==> !idle_due(a, later_ms),
        seconds_since(now.ms, later_ms) < a.idle_lock_secs ==> !idle_due(
            touched(a, now),
            later_ms,
        ),
{
}

/// The state of the agent as it is told.
pub open spec fn status_of(a: AgentView) -> StatusView {
    StatusView {
        unlocked: a.vault is Some,
        server: match a.vault {
            Some(v) => Some(v.server),
            None => None,
        },
        email: match a.vault {
            Some(v) => Some(v.email),
            None => None,
        },
        items: match a.vault {
            Some(v) => Some(v.ciphers.len() as usize),
            None => None,
        },
        last_sync: match a.vault {
            Some(v) => v.last_sync,
            None => None,
        },
        agent_version: VERSION@,
        clipboard_backend: backend_name(a),
    }
}

/// The name of the clipboard as it is told: that of the one in use, else of
/// the terminal where the client is to copy through it.
pub open spec fn backend_name(a: AgentView) -> Option<Seq<char>> {
    match a.clipboard {
        Some(c) => Some(c.label),
        None => if a.clipboard_backend == BackendChoice::Osc52 {
            Some("osc52"@)
        } else {
            None
        },
    }
}

/// The calls of a clipboard that is asked to clear `written` if it still holds
/// it: it is read, and cleared where that is due.
pub open spec fn clearing_calls(
    before: Seq<ClipboardCall>,
    after: Seq<ClipboardCall>,
    written: Seq<char>,
) -> bool {
    exists|read: Option<Seq<char>>| #[trigger]
        cleared_after(before, read, written) == after
}

/// The calls of a clipboard that gave `read` when it was asked to clear
/// `written` if it still holds it.
pub open spec fn cleared_after(
    before: Seq<ClipboardCall>,
    read: Option<Seq<char>>,
    written: Seq<char>,
) -> Seq<ClipboardCall> {
    let asked = before.push(ClipboardCall::Read(read));
    if clear_due(read, written) {
        asked.push(ClipboardCall::Cleared)
    } else {
        asked
    }
}

/// A clipboard that was found to hold something else is left alone, and one
/// that holds the value, or cannot be read, is cleared.
pub proof fn only_our_copy_is_cleared(
    before: Seq<ClipboardCall>,
    read: Option<Seq<char>>,
    written: Seq<char>,
)
    ensures
        read is Some && read != Some(written) ==> cleared_after(before, read, written)
            == before.push(ClipboardCall::Read(read)),
        read is None || read == Some(written) ==> cleared_after(before, read, written).last()
            == ClipboardCall::Cleared,
{
}

/// The clipboard after it was asked to clear `written` if it still holds it.
pub open spec fn clipboard_cleared(
    before: Option<ClipboardView>,
    after: Option<ClipboardView>,
    written: Seq<char>,
) -> bool {
    match (before, after) {
        (None, None) => true,
        (Some(b), Some(c)) => b.label == c.label && clearing_calls(b.calls, c.calls, written),
        _ => false,
    }
}

/// The clipboard after the value copied last, if any, was swept off it.
pub open spec fn clipboard_swept(
    before: Option<ClipboardView>,
    after: Option<ClipboardView>,
    pending: Option<Seq<char>>,
) -> bool {
    match pending {
        None => after == before,
        Some(p) => clipboard_cleared(before, after, p),
    }
}

/// The agent after it locked: the vault and the value copied last are gone,
/// the latter from the clipboard too.
pub open spec fn locked_from(before: AgentView, after: AgentView) -> bool {
    &&& after == (AgentView {
        vault: None,
        last_session_refresh: None,
        last_copied: None,
        clipboard: after.clipboard,
        ..before
    })
    &&& clipboard_swept(before.clipboard, after.clipboard, before.last_copied)
}

/// The vault of an unlocked agent, the error of a locked one.
pub open spec fn unlocked(a: AgentView) -> Result<VaultView, ErrorView> {
    match a.vault {
        Some(v) => Ok(v),
        None => Err(ErrorView::Locked),
    }
}

/// The item that a selector stands for in an agent's vault.
pub open spec fn agent_resolved(a: AgentView, selector: Seq<char>) -> Result<int, ErrorView> {
    match a.vault {
        Some(v) => resolved(v, selector),
        None => Err(ErrorView::Locked),
    }
}

/// The folder that a selector stands for in an agent's vault.
pub open spec fn agent_folder(a: AgentView, folder: Option<Seq<char>>) -> Result<
    Option<Seq<char>>,
    ErrorView,
> {
    match (folder, a.vault) {
        (None, _) => Ok(None),
        (_, None) => Err(ErrorView::Locked),
        (_, Some(v)) => folder_resolved(v, folder),
    }
}

/// What reading a field from an agent's vault gives.
pub open spec fn agent_item(
    a: AgentView,
    id: Option<Seq<char>>,
    query: Seq<char>,
    f: Field,
    clock: Option<u64>,
) -> Result<ItemView, ErrorView> {
    match a.vault {
        Some(v) => item_read(v, id, query, f, clock),
        None => Err(ErrorView::Locked),
    }
}

/// A text where one is given.
pub open spec fn text_opt(s: Option<&str>) -> Option<Seq<char>> {
    match s {
        Some(t) => Some(t@),
        None => None,
    }
}

/// A deletion to be made at the server.
pub struct RemovePlan {
    /// Position of the item.
    pub index: usize,
    /// Its identifier.
    pub id: String,
    /// Its name.
    pub name: String,
}

/// What a [`RemovePlan`] holds.
pub struct RemovePlanView {
    /// Position of the item.
    pub index: int,
    /// Its identifier.
    pub id: Seq<char>,
    /// Its name.
    pub name: Seq<char>,
}

impl DeepView for RemovePlan {
    type V = RemovePlanView;

    open spec fn deep_view(&self) -> RemovePlanView {
        RemovePlanView { index: self.index as int, id: self.id@, name: self.name@ }
    }
}

/// The deletion that a selector asks for. An item that does not decrypt is not
/// deleted; one without a name is told as `<unnamed>`.
pub open spec fn removal(a: AgentView, selector: Seq<char>) -> Result<RemovePlanView, ErrorView> {
    match agent_resolved(a, selector) {
        Err(e) => Err(e),
        Ok(i) => {
            let v = a.vault->Some_0;
            let c = v.ciphers[i];
            let (enc, mac) = base_keys(v, c);
            match opened_name(c, enc, mac) {
                Err(e) => Err(ErrorView::Decrypt(error_text(e))),
                Ok(name) => Ok(
                    RemovePlanView {
                        index: i,
                        id: c.id,
                        name: match name {
                            Some(n) => n,
                            None => "<unnamed>"@,
                        },
                    },
                ),
            }
        },
    }
}

/// A creation to be made at the server.
pub struct AddPlan {
    /// The item, without an identifier.
    pub cipher: Cipher,
    /// Its name.
    pub name: String,
}

/// A change to be made at the server.
pub struct EditPlan {
    /// Position of the item.
    pub index: usize,
    /// The item as it is to be.
    pub cipher: Cipher,
}

/// The overlay that fields to write stand for, once the folder is resolved and
/// the secrets are read.
pub open spec fn overlay_of(
    w: CipherWrite,
    folder_id: Option<Seq<char>>,
    password: Option<Seq<char>>,
    totp: Option<Seq<char>>,
    card: Option<CardView>,
    identity: Option<IdentityView>,
) -> OverlayView {
    OverlayView {
        name: w.name.deep_view(),
        folder_id,
        folder_provided: w.folder is Some,
        notes: w.notes.deep_view(),
        username: w.username.deep_view(),
        password,
        totp,
        uri: w.uri.deep_view(),
        card,
        identity,
    }
}

/// The card fields to change.
pub open spec fn card_edit(w: Option<CardWrite>) -> Result<Option<CardView>, ErrorView> {
    match w {
        None => Ok(None),
        Some(c) => match card_written(c) {
            Err(e) => Err(e),
            Ok(v) => Ok(Some(v)),
        },
    }
}

/// The identity fields to change.
pub open spec fn identity_edit(w: Option<IdentityWrite>) -> Result<Option<IdentityView>, ErrorView> {
    match w {
        None => Ok(None),
        Some(i) => match identity_written(i) {
            Err(e) => Err(e),
            Ok(v) => Ok(Some(v)),
        },
    }
}

/// Why an item cannot be changed as asked, if it cannot: items of
/// organizations cannot, and card and identity fields only on their own kind.
pub open spec fn edit_fault(c: CipherView, card: bool, identity: bool) -> Option<ErrorView> {
    if c.organization_id is Some {
        Some(ErrorView::Internal("editing organization items is not supported yet"@))
    } else if card && c.cipher_type != 3 {
        Some(ErrorView::Internal("card fields can only be edited on a card item"@))
    } else if identity && c.cipher_type != 4 {
        Some(ErrorView::Internal("identity fields can only be edited on an identity item"@))
    } else {
        None
    }
}

/// The change that is asked for: which item, and what of it.
pub open spec fn edit_asked(a: AgentView, selector: Seq<char>, w: CipherWrite) -> Result<
    (int, OverlayView),
    ErrorView,
> {
    match (
        agent_resolved(a, selector),
        agent_folder(a, w.folder.deep_view()),
        secret_text(w.password),
        secret_text(w.totp),
        card_edit(w.card),
        identity_edit(w.identity),
    ) {
        (Err(e), _, _, _, _, _) => Err(e),
        (_, Err(e), _, _, _, _) => Err(e),
        (_, _, Err(e), _, _, _) => Err(e),
        (_, _, _, Err(e), _, _) => Err(e),
        (_, _, _, _, Err(e), _) => Err(e),
        (_, _, _, _, _, Err(e)) => Err(e),
        (Ok(i), Ok(folder), Ok(password), Ok(totp), Ok(card), Ok(identity)) => match edit_fault(
            a.vault->Some_0.ciphers[i],
            w.card is Some,
            w.identity is Some,
        ) {
            Some(e) => Err(e),
            None => Ok((i, overlay_of(w, folder, password, totp, card, identity))),
        },
    }
}

/// What planning a creation gives: the item, encrypted under the user key and
/// the initialization vectors that were drawn, or the error. Where nothing is
/// wrong with the fields, that none were drawn is one.
pub open spec fn add_outcome(
    a: AgentView,
    cipher_type: u8,
    w: CipherWrite,
    ivs: Option<Seq<u8>>,
    r: Result<AddPlan, Error>,
) -> bool {
    match a.vault {
        None => r == Err::<AddPlan, Error>(Error::Locked),
        Some(v) => match (item_written(v, cipher_type, w), ivs) {
            (Err(x), _) => r matches Err(e) && e.deep_view() == x,
            (Ok(_), None) => r matches Err(e) && e.deep_view() == crypto_failure(
                crate::vault_core::error::Error::Random,
            ),
            (Ok(plain), Some(b)) => r matches Ok(p) && seals_cipher(
                p.cipher.deep_view(),
                plain,
                v.user_enc,
                v.user_mac,
                b,
            ) && plain.name == Some(p.name@),
        },
    }
}

/// What planning a change gives: the item with the fields changed, each in an
/// envelope under the item's keys and an initialization vector that was drawn,
/// or the error. Where nothing is wrong with what is asked, an item key that
/// does not unwrap is one, and so is that none were drawn. Neither matters to a
/// change without a text, for which there is nothing to encrypt.
pub open spec fn edit_outcome(
    a: AgentView,
    selector: Seq<char>,
    w: CipherWrite,
    ivs: Option<Seq<u8>>,
    r: Result<EditPlan, Error>,
) -> bool {
    match edit_asked(a, selector, w) {
        Err(x) => r matches Err(e) && e.deep_view() == x,
        Ok((i, o)) => {
            let v = a.vault->Some_0;
            let c = v.ciphers[i];
            if seals_nothing(o) {
                r matches Ok(p) && p.index == i && p.cipher.deep_view() == merged(c, o)
            } else {
                match (item_keys(c.key, v.user_enc, v.user_mac), ivs) {
                    (Err(x), _) => r matches Err(e) && e.deep_view() == ErrorView::Decrypt(
                        error_text(x),
                    ),
                    (Ok(_), None) => r matches Err(e) && e.deep_view() == crypto_failure(
                        crate::vault_core::error::Error::Random,
                    ),
                    (Ok(keys), Some(b)) => r matches Ok(p) && p.index == i && edited(
                        p.cipher.deep_view(),
                        c,
                        o,
                        keys.0,
                        keys.1,
                        b,
                    ),
                }
            }
        },
    }
}

/// A new item, once it is kept under the identifier that the server gave it,
/// reads back as it was written, whichever fields are asked for.
pub proof fn added_item_reads_back(
    v: VaultView,
    c: CipherView,
    p: PlainCipherView,
    ivs: Seq<u8>,
    id: Seq<char>,
    opts: DecryptOptions,
)
    requires
        seals_cipher(c, p, v.user_enc, v.user_mac, ivs),
    ensures
        ({
            let added = CipherView { id, ..c };
            let (enc, mac) = base_keys(v, added);
            opened_cipher(added, enc, mac, opts) == Ok::<
                PlainCipherView,
                crate::vault_core::error::Error,
            >(asked_part(stored_part(PlainCipherView { id, ..p }), opts))
        }),
{
    stored_item_reads_back(
        CipherView { id, ..c },
        PlainCipherView { id, ..p },
        v.user_enc,
        v.user_mac,
        ivs,
        opts,
    );
}

impl AgentState {
    /// A locked agent that has just started.
    pub fn new(idle_lock_secs: u64, now_ms: u64) -> (r: AgentState)
        ensures
            r@ == (AgentView {
                vault: None,
                last_activity: now_ms,
                idle_lock_secs,
                session_keyring: false,
                fingerprint_unlock: false,
                fingerprint_ttl_secs: 0,
                sync_interval_secs: 0,
                last_session_refresh: None,
                shutdown_requested: false,
                clipboard: None,
                clipboard_backend: BackendChoice::Auto,
                last_copied: None,
                clipboard_clear_secs: DEFAULT_CLEAR_SECS,
            }),
    {
        AgentState {
            vault: None,
            last_activity: now_ms,
            idle_lock_secs,
            session_keyring: false,
            fingerprint_unlock: false,
            fingerprint_ttl_secs: 0,
            sync_interval_secs: 0,
            last_session_refresh: None,
            shutdown_requested: false,
            clipboard: None,
            clipboard_backend: BackendChoice::Auto,
            last_copied: None,
            clipboard_clear_secs: DEFAULT_CLEAR_SECS,
        }
    }

    /// Whether the agent holds a vault.
    pub fn is_unlocked(&self) -> (b: bool)
        ensures
            b == (self@.vault is Some),
    {
        self.vault.is_some()
    }

    /// Takes a vault.
    pub fn install(&mut self, vault: Vault)
        ensures
            final(self)@ == (AgentView { vault: Some(vault.deep_view()), ..old(self)@ }),
    {
        self.vault = Some(vault);
    }

    /// The session to be stored at a time, if any.
    pub fn persist_session(&mut self, now: Moment) -> (r: Option<SessionStore>)
        ensures
            r.deep_view() == session_of(old(self)@, now),
            final(self)@ == session_stored(old(self)@, now),
    {
        if !self.session_keyring {
            return None;
        }
        let ttl: u64 = if self.fingerprint_unlock {
            self.fingerprint_ttl_secs
        } else {
            self.idle_lock_secs
        };
        let blob: SessionBlob = match &self.vault {
            None => return None,
            Some(v) => SessionBlob {
                server: v.server.clone(),
                email: v.email.clone(),
                user_enc: *v.user_enc.bytes(),
                user_mac: *v.user_mac.bytes(),
                deadline_unix: session_deadline(seconds_or_zero(now.unix), ttl),
            },
        };
        self.last_session_refresh = Some(now.ms);
        Some(SessionStore { blob, ttl })
    }

    /// Notes that a request was handled, and gives the session to be stored
    /// where its renewal is due.
    pub fn touch(&mut self, now: Moment) -> (r: Option<SessionStore>)
        ensures
            final(self)@ == touched(old(self)@, now),
            r.deep_view() == touch_session(old(self)@, now),
    {
        self.last_activity = now.ms;
        let due: bool = match self.last_session_refresh {
            None => true,
            Some(t) => elapsed_secs(t, now.ms) >= SESSION_REFRESH_THROTTLE_SECS,
        };
        if self.session_keyring && self.vault.is_some() && due {
            self.persist_session(now)
        } else {
            None
        }
    }

    /// Whether the agent has been without a request for so long that it locks.
    pub fn idle_lock_due(&self, now_ms: u64) -> (b: bool)
        ensures
            b == idle_due(self@, now_ms),
    {
        self.vault.is_some() && elapsed_secs(self.last_activity, now_ms) >= self.idle_lock_secs
    }

    /// Unlocks the agent with a resumed vault, after a fingerprint matched.
    /// Refused where fingerprints are not asked for; then nothing changes.
    pub fn resume_after_fingerprint(&mut self, resumed: Result<Option<Vault>, Error>) -> (r: Result<
        (),
        Error,
    >)
        ensures
            !old(self)@.fingerprint_unlock ==> (r matches Err(e) && e.deep_view()
                == ErrorView::FingerprintUnavailable("fingerprint unlock is not enabled"@)),
            old(self)@.fingerprint_unlock ==> match resumed {
                Err(e) => r == Err::<(), Error>(e),
                Ok(None) => r matches Err(e) && e.deep_view() == ErrorView::FingerprintUnavailable(
                    "no resumable session — unlock with your master password"@,
                ),
                Ok(Some(v)) => r is Ok && final(self)@ == (AgentView {
                    vault: Some(v.deep_view()),
                    ..old(self)@
                }),
            },
            r is Err ==> final(self)@ == old(self)@,
    {
        if !self.fingerprint_unlock {
            return Err(
                Error::FingerprintUnavailable("fingerprint unlock is not enabled".to_owned()),
            );
        }
        match resumed {
            Err(e) => Err(e),
            Ok(None) => Err(
                Error::FingerprintUnavailable(
                    "no resumable session — unlock with your master password".to_owned(),
                ),
            ),
            Ok(Some(v)) => {
                self.vault = Some(v);
                Ok(())
            },
        }
    }

    /// Puts a value on the clipboard and remembers it.
    pub fn clipboard_set(&mut self, value: &str) -> (r: Result<(), Error>)
        ensures
            old(self)@.clipboard is None ==> r == Err::<(), Error>(Error::ClipboardUnavailable)
                && final(self)@ == old(self)@,
            old(self)@.clipboard matches Some(c) ==> final(self)@ == (AgentView {
                clipboard: Some(
                    ClipboardView {
                        label: c.label,
                        calls: c.calls.push(ClipboardCall::Wrote(value@, write_result(r))),
                    },
                ),
                last_copied: if r is Ok { Some(value@) } else { old(self)@.last_copied },
                ..old(self)@
            }),
    {
        match &mut self.clipboard {
            None => return Err(Error::ClipboardUnavailable),
            Some(b) => {
                b.set_text(value)?;
            },
        }
        self.last_copied = Some(value.to_owned());
        Ok(())
    }

    /// Clears the clipboard if it still holds `written` or cannot be read, and
    /// forgets the value where it is the one copied last.
    pub fn clipboard_clear_if_ours(&mut self, written: &str)
        ensures
            final(self)@ == (AgentView {
                clipboard: final(self)@.clipboard,
                last_copied: if old(self)@.clipboard is Some && old(self)@.last_copied == Some(
                    written@,
                ) {
                    None
                } else {
                    old(self)@.last_copied
                },
                ..old(self)@
            }),
            clipboard_cleared(old(self)@.clipboard, final(self)@.clipboard, written@),
    {
        match &mut self.clipboard {
            None => return ,
            Some(b) => {
                let ghost before = b.calls();
                let read: Option<String> = b.get_text();
                let current: Option<&str> = match &read {
                    Some(s) => Some(s.as_str()),
                    None => None,
                };
                if should_clear_clipboard(current, written) {
                    b.clear();
                }
                assert(b.calls() == cleared_after(before, read.deep_view(), written@));
            },
        }
        let ours: bool = match &self.last_copied {
            Some(s) => same_text(s.as_str(), written),
            None => false,
        };
        if ours {
            self.last_copied = None;
        }
    }

    /// Sweeps the value copied last, if any, off the clipboard.
    pub fn clipboard_sweep(&mut self)
        ensures
            final(self)@ == (AgentView {
                clipboard: final(self)@.clipboard,
                last_copied: None,
                ..old(self)@
            }),
            clipboard_swept(
                old(self)@.clipboard,
                final(self)@.clipboard,
                old(self)@.last_copied,
            ),
    {
        let pending: Option<String> = self.last_copied.take();
        if let Some(p) = pending {
            self.clipboard_clear_if_ours(p.as_str());
        }
    }

    /// Drops the vault, and sweeps a copied value off the clipboard. A stored
    /// session stays.
    pub fn lock(&mut self)
        ensures
            locked_from(old(self)@, final(self)@),
    {
        self.vault = None;
        self.last_session_refresh = None;
        self.clipboard_sweep();
    }

    /// Drops the vault, sweeps a copied value off the clipboard, and has the
    /// stored session cleared.
    pub fn lock_and_clear_session(&mut self) -> (r: SessionEffect)
        ensures
            locked_from(old(self)@, final(self)@),
            r is Clear,
    {
        self.lock();
        SessionEffect::Clear
    }

    /// The name of the clipboard as it is told.
    pub fn clipboard_backend_name(&self) -> (r: Option<String>)
        ensures
            r.deep_view() == backend_name(self@),
    {
        match &self.clipboard {
            Some(b) => Some(b.name().to_owned()),
            None => match self.clipboard_backend {
                BackendChoice::Osc52 => Some("osc52".to_owned()),
                _ => None,
            },
        }
    }

    /// The state of the agent as it is told.
    pub fn status_snapshot(&self) -> (r: Status)
        ensures
            r.deep_view() == status_of(self@),
    {
        let clipboard_backend: Option<String> = self.clipboard_backend_name();
        match &self.vault {
            None => Status {
                unlocked: false,
                server: None,
                email: None,
                items: None,
                last_sync: None,
                agent_version: VERSION.to_owned(),
                clipboard_backend,
            },
            Some(v) => Status {
                unlocked: true,
                server: Some(v.server.clone()),
                email: Some(v.email.clone()),
                items: Some(v.ciphers.len()),
                last_sync: copy_text(&v.last_sync),
                agent_version: VERSION.to_owned(),
                clipboard_backend,
            },
        }
    }

    /// The list of the vault's items.
    pub fn list_entries(&self) -> (r: Result<Vec<ListEntry>, Error>)
        ensures
            self@.vault is None ==> r == Err::<Vec<ListEntry>, Error>(Error::Locked),
            self@.vault matches Some(v) ==> (r matches Ok(rows) && row_views(rows@) == listed(v)
                && in_order(row_views(rows@))),
    {
        match &self.vault {
            None => Err(Error::Locked),
            Some(v) => Ok(list_vault(v)),
        }
    }

    /// The item that a selector stands for.
    pub fn resolve_cipher(&self, selector: &str) -> (r: Result<usize, Error>)
        ensures
            index_is(r, agent_resolved(self@, selector@)),
            r matches Ok(i) ==> self@.vault is Some && i < self@.vault->Some_0.ciphers.len(),
    {
        match &self.vault {
            None => Err(Error::Locked),
            Some(v) => resolve(v, selector),
        }
    }

    /// The folder that a selector stands for.
    pub fn resolve_folder(&self, folder: &Option<String>) -> (r: Result<Option<String>, Error>)
        ensures
            text_is(r, agent_folder(self@, folder.deep_view())),
    {
        if folder.is_none() {
            return Ok(None);
        }
        match &self.vault {
            None => Err(Error::Locked),
            Some(v) => resolve_vault_folder(v, folder),
        }
    }

    /// Reads a field of an item at a reading of the clock, in seconds since the
    /// Unix epoch.
    pub fn get_item_at(
        &self,
        id: Option<&str>,
        query: &str,
        field: Field,
        clock: Option<u64>,
    ) -> (r: Result<Item, Error>)
        ensures
            item_is(r, agent_item(self@, text_opt(id), query@, field, clock)),
    {
        match &self.vault {
            None => Err(Error::Locked),
            Some(v) => read_item(v, id, query, field, clock),
        }
    }

    /// Reads a field of an item now. Only the one-time code depends on the
    /// time.
    pub fn get_item(&self, id: Option<&str>, query: &str, field: Field) -> (r: Result<Item, Error>)
        ensures
            exists|clock: Option<u64>|
                item_is(r, #[trigger] agent_item(self@, text_opt(id), query@, field, clock)),
    {
        let clock: Option<u64> = unix_seconds();
        let r: Result<Item, Error> = self.get_item_at(id, query, field, clock);
        assert(item_is(r, agent_item(self@, text_opt(id), query@, field, clock)));
        r
    }

    /// The cache with a PIN for the vault's user key, in an envelope under an
    /// initialization vector where there is one. The PIN recovers the user key
    /// from it, where the cache has the account's parameters.
    pub fn pin_enroll_with(
        &self,
        pin: &[u8],
        cache: Option<VaultCache>,
        iv: Option<[u8; 16]>,
    ) -> (r: Result<VaultCache, Error>)
        ensures
            match self@.vault {
                None => r == Err::<VaultCache, Error>(Error::Locked),
                Some(v) => match (secret_keys(v.email, pin@, v.kdf), iv, cache) {
                    (Err(x), _, _) => r matches Err(e) && e.deep_view() == crypto_failure(x),
                    (Ok(_), None, _) => r matches Err(e) && e.deep_view() == crypto_failure(
                        crate::vault_core::error::Error::Random,
                    ),
                    (Ok(_), Some(_), None) => r matches Err(e) && e.deep_view()
                        == ErrorView::Internal(
                        "no cached vault — unlock online before setting a PIN"@,
                    ),
                    (Ok((k, m)), Some(b), Some(old_cache)) => r matches Ok(c) && {
                        let envelope = serialized(sealed(k, m, b@, v.user_enc + v.user_mac));
                        &&& c.deep_view() == (VaultCacheView {
                            pin_protected_user_key: Some(envelope),
                            pin_failures: 0,
                            ..old_cache.deep_view()
                        })
                        &&& recovered(Some(v.kdf), v.email, pin@, envelope) == Ok::<
                            (Seq<u8>, Seq<u8>),
                            KeyRecoverView,
                        >((v.user_enc, v.user_mac))
                    },
                },
            },
    {
        let v: &Vault = match &self.vault {
            Some(v) => v,
            None => return Err(Error::Locked),
        };
        let envelope: String = pin_protect_with(
            v.email.as_str(),
            v.kdf,
            v.user_enc.bytes(),
            v.user_mac.bytes(),
            pin,
            iv,
        )?;
        match cache {
            None => Err(
                Error::Internal(
                    "no cached vault — unlock online before setting a PIN".to_owned(),
                ),
            ),
            Some(c) => Ok(enroll_pin(c, envelope)),
        }
    }

    /// The cache with a PIN for the vault's user key, in an envelope under a
    /// fresh initialization vector.
    pub fn pin_enroll(&self, pin: &[u8], cache: Option<VaultCache>) -> (r: Result<
        VaultCache,
        Error,
    >)
        ensures
            self@.vault is None ==> r == Err::<VaultCache, Error>(Error::Locked),
            self@.vault matches Some(v) ==> match r {
                Ok(c) => cache matches Some(old_cache) && {
                    &&& c.pin_protected_user_key is Some
                    &&& recovered(
                        Some(v.kdf),
                        v.email,
                        pin@,
                        c.pin_protected_user_key->Some_0@,
                    ) == Ok::<(Seq<u8>, Seq<u8>), KeyRecoverView>((v.user_enc, v.user_mac))
                    &&& c.deep_view() == (VaultCacheView {
                        pin_protected_user_key: c.pin_protected_user_key.deep_view(),
                        pin_failures: 0,
                        ..old_cache.deep_view()
                    })
                },
                Err(e) => match secret_keys(v.email, pin@, v.kdf) {
                    Err(x) => e.deep_view() == crypto_failure(x),
                    Ok(_) => e.deep_view() == crypto_failure(
                        crate::vault_core::error::Error::Random,
                    ) || (cache is None && e.deep_view() == ErrorView::Internal(
                        "no cached vault — unlock online before setting a PIN"@,
                    )),
                },
            },
    {
        self.pin_enroll_with(pin, cache, draw_iv())
    }

    /// The deletion that a selector asks for.
    pub fn remove_cipher(&self, selector: &str) -> (r: Result<RemovePlan, Error>)
        ensures
            match (r, removal(self@, selector@)) {
                (Ok(p), Ok(w)) => p.deep_view() == w,
                (Err(e), Err(w)) => e.deep_view() == w,
                _ => false,
            },
            r matches Ok(p) ==> self@.vault is Some && p.index
                < self@.vault->Some_0.ciphers.len(),
    {
        let index: usize = self.resolve_cipher(selector)?;
        match &self.vault {
            None => Err(Error::Locked),
            Some(v) => {
                let c: &Cipher = &v.ciphers[index];
                assert(v.deep_view().ciphers[index as int] == c.deep_view());
                let (enc, mac) = v.base_keys(c);
                match c.decrypt_name(&enc, &mac) {
                    Err(e) => Err(Error::Decrypt(e.message())),
                    Ok(name) => Ok(
                        RemovePlan {
                            index,
                            id: c.id.clone(),
                            name: match name {
                                Some(n) => n,
                                None => "<unnamed>".to_owned(),
                            },
                        },
                    ),
                }
            },
        }
    }

    /// Takes the server's answer to a deletion. Where it succeeded the item is
    /// dropped, otherwise nothing changes.
    pub fn remove_done(&mut self, plan: RemovePlan, answer: Result<(), Error>) -> (r: Result<
        Removed,
        Error,
    >)
        requires
            old(self)@.vault is Some ==> plan.index < old(self)@.vault->Some_0.ciphers.len(),
        ensures
            answer matches Err(e) ==> r == Err::<Removed, Error>(e) && final(self)@ == old(self)@,
            answer is Ok && old(self)@.vault is None ==> r == Err::<Removed, Error>(Error::Locked)
                && final(self)@ == old(self)@,
            answer is Ok && old(self)@.vault is Some ==> (r matches Ok(d) && d.deep_view() == (
            NamedView { id: plan.id@, name: plan.name@ })) && final(self)@ == (AgentView {
                vault: Some(
                    VaultView {
                        ciphers: old(self)@.vault->Some_0.ciphers.remove(plan.index as int),
                        ..old(self)@.vault->Some_0
                    },
                ),
                ..old(self)@
            }),
    {
        answer?;
        match &mut self.vault {
            None => Err(Error::Locked),
            Some(v) => {
                let ghost before = v.ciphers.deep_view();
                let _ = v.ciphers.remove(plan.index);
                assert(v.ciphers.deep_view() =~= before.remove(plan.index as int));
                Ok(Removed { id: plan.id, name: plan.name })
            },
        }
    }

    /// The creation that is asked for: the item, encrypted under the user key
    /// and the initialization vectors that were drawn.
    pub fn add_cipher_with(&self, cipher_type: u8, w: CipherWrite, ivs: &Option<Vec<u8>>) -> (r:
        Result<AddPlan, Error>)
        requires
            enough_ivs(drawn(*ivs)),
        ensures
            add_outcome(self@, cipher_type, w, drawn(*ivs), r),
    {
        let v: &Vault = match &self.vault {
            Some(v) => v,
            None => return Err(Error::Locked),
        };
        let plain: PlainCipher = plain_item(v, cipher_type, w)?;
        let cipher: Cipher = match ivs {
            None => return Err(crypto_err(crate::vault_core::error::Error::Random)),
            Some(b) => Cipher::from_plain_with(
                &plain,
                v.user_enc.bytes(),
                v.user_mac.bytes(),
                b.as_slice(),
            ),
        };
        match copy_text(&plain.name) {
            Some(name) => Ok(AddPlan { cipher, name }),
            None => Err(Error::Internal("add requires a name".to_owned())),
        }
    }

    /// The creation that is asked for: the item, encrypted under the user key
    /// and fresh initialization vectors.
    pub fn add_cipher(&self, cipher_type: u8, w: CipherWrite) -> (r: Result<AddPlan, Error>)
        ensures
            exists|ivs: Option<Seq<u8>>|
                enough_ivs(ivs) && #[trigger] add_outcome(self@, cipher_type, w, ivs, r),
    {
        let ivs: Option<Vec<u8>> = draw_ivs();
        let r: Result<AddPlan, Error> = self.add_cipher_with(cipher_type, w, &ivs);
        assert(add_outcome(self@, cipher_type, w, drawn(ivs), r));
        r
    }

    /// Takes the server's answer to a creation. Where it succeeded the item is
    /// kept with the identifier that the server gave it, otherwise nothing
    /// changes.
    pub fn add_done(&mut self, plan: AddPlan, answer: Result<String, Error>) -> (r: Result<
        Saved,
        Error,
    >)
        ensures
            answer matches Err(e) ==> r == Err::<Saved, Error>(e) && final(self)@ == old(self)@,
            answer is Ok && old(self)@.vault is None ==> r == Err::<Saved, Error>(Error::Locked)
                && final(self)@ == old(self)@,
            answer matches Ok(id) ==> old(self)@.vault matches Some(v) ==> (r matches Ok(s)
                && s.deep_view() == (NamedView { id: id@, name: plan.name@ })) && final(self)@ == (
            AgentView {
                vault: Some(
                    VaultView {
                        ciphers: v.ciphers.push(
                            CipherView { id: id@, ..plan.cipher.deep_view() },
                        ),
                        ..v
                    },
                ),
                ..old(self)@
            }),
    {
        let id: String = answer?;
        match &mut self.vault {
            None => Err(Error::Locked),
            Some(v) => {
                let ghost before = v.ciphers.deep_view();
                let mut cipher: Cipher = plan.cipher;
                cipher.id = id.clone();
                v.ciphers.push(cipher);
                assert(v.ciphers.deep_view() =~= before.push(cipher.deep_view()));
                Ok(Saved { id, name: plan.name })
            },
        }
    }

    /// The change that is asked for: the item with the given fields changed,
    /// each in an envelope under the item's keys and fresh initialization vectors.
    pub fn edit_cipher(&self, selector: &str, w: CipherWrite) -> (r: Result<EditPlan, Error>)
        ensures
            exists|ivs: Option<Seq<u8>>|
                enough_ivs(ivs) && #[trigger] edit_outcome(self@, selector@, w, ivs, r),
            r matches Ok(p) ==> self@.vault is Some && p.index
                < self@.vault->Some_0.ciphers.len(),
    {
        let ivs: Option<Vec<u8>> = draw_ivs();
        let r: Result<EditPlan, Error> = self.edit_cipher_with(selector, w, &ivs);
        assert(edit_outcome(self@, selector@, w, drawn(ivs), r));
        r
    }

    /// The change that is asked for: the item with the given fields changed,
    /// each in an envelope under the item's keys and the initialization vectors
    /// that were drawn.
    pub fn edit_cipher_with(&self, selector: &str, w: CipherWrite, ivs: &Option<Vec<u8>>) -> (r:
        Result<EditPlan, Error>)
        requires
            enough_ivs(drawn(*ivs)),
        ensures
            edit_outcome(self@, selector@, w, drawn(*ivs), r),
            r matches Ok(p) ==> self@.vault is Some && p.index
                < self@.vault->Some_0.ciphers.len(),
    {
        let index: usize = self.resolve_cipher(selector)?;
        let folder_id: Option<String> = self.resolve_folder(&w.folder)?;
        let folder_provided: bool = w.folder.is_some();
        let password: Option<String> = bytes_to_string(w.password)?;
        let totp: Option<String> = bytes_to_string(w.totp)?;
        let card_present: bool = w.card.is_some();
        let card: Option<PlainCard> = match w.card {
            Some(c) => Some(card_write_to_plain(c)?),
            None => None,
        };
        let identity_present: bool = w.identity.is_some();
        let identity: Option<PlainIdentity> = match w.identity {
            Some(i) => Some(identity_write_to_plain(i)?),
            None => None,
        };
        let v: &Vault = match &self.vault {
            Some(v) => v,
            None => return Err(Error::Locked),
        };
        let mut cipher: Cipher = v.ciphers[index].clone();
        assert(v.deep_view().ciphers[index as int] == v.ciphers@[index as int].deep_view());
        if cipher.organization_id.is_some() {
            return Err(
                Error::Internal("editing organization items is not supported yet".to_owned()),
            );
        }
        if card_present && cipher.cipher_type != 3 {
            return Err(
                Error::Internal("card fields can only be edited on a card item".to_owned()),
            );
        }
        if identity_present && cipher.cipher_type != 4 {
            return Err(
                Error::Internal(
                    "identity fields can only be edited on an identity item".to_owned(),
                ),
            );
        }
        let overlay: EditOverlay = EditOverlay {
            name: w.name,
            folder_id,
            folder_provided,
            notes: w.notes,
            username: w.username,
            password,
            totp,
            uri: w.uri,
            card,
            identity,
        };
        if has_no_text(&overlay) {
            merge_overlay(&mut cipher, &overlay);
            return Ok(EditPlan { index, cipher });
        }
        let (enc, mac) = match cipher.effective_keys(v.user_enc.bytes(), v.user_mac.bytes()) {
            Ok(k) => k,
            Err(e) => return Err(Error::Decrypt(e.message())),
        };
        match ivs {
            None => Err(crypto_err(crate::vault_core::error::Error::Random)),
            Some(b) => {
                apply_cipher_edits_with(&mut cipher, &overlay, &enc, &mac, b.as_slice());
                Ok(EditPlan { index, cipher })
            },
        }
    }

    /// Takes the server's answer to a change. Where it succeeded, and the name
    /// of the item decrypts, the item is replaced; otherwise nothing changes.
    pub fn edit_done(&mut self, plan: EditPlan, answer: Result<(), Error>) -> (r: Result<
        Saved,
        Error,
    >)
        requires
            old(self)@.vault is Some ==> plan.index < old(self)@.vault->Some_0.ciphers.len(),
        ensures
            answer matches Err(e) ==> r == Err::<Saved, Error>(e) && final(self)@ == old(self)@,
            answer is Ok && old(self)@.vault is None ==> r == Err::<Saved, Error>(Error::Locked)
                && final(self)@ == old(self)@,
            answer is Ok ==> (old(self)@.vault matches Some(v) ==> match opened_name(
                plan.cipher.deep_view(),
                v.user_enc,
                v.user_mac,
            ) {
                Err(x) => (r matches Err(e) && e.deep_view() == ErrorView::Decrypt(error_text(x)))
                    && final(self)@ == old(self)@,
                Ok(name) => (r matches Ok(s) && s.deep_view() == (NamedView {
                    id: plan.cipher.id@,
                    name: match name {
                        Some(n) => n,
                        None => Seq::empty(),
                    },
                })) && final(self)@ == (AgentView {
                    vault: Some(
                        VaultView {
                            ciphers: v.ciphers.update(
                                plan.index as int,
                                plan.cipher.deep_view(),
                            ),
                            ..v
                        },
                    ),
                    ..old(self)@
                }),
            }),
    {
        answer?;
        match &mut self.vault {
            None => Err(Error::Locked),
            Some(v) => {
                let name: Option<String> = match plan.cipher.decrypt_name(
                    v.user_enc.bytes(),
                    v.user_mac.bytes(),
                ) {
                    Ok(n) => n,
                    Err(e) => return Err(Error::Decrypt(e.message())),
                };
                let ghost before = v.ciphers.deep_view();
                let id: String = plan.cipher.id.clone();
                v.ciphers[plan.index] = plan.cipher;
                assert(v.ciphers.deep_view() =~= before.update(
                    plan.index as int,
                    plan.cipher.deep_view(),
                ));
                Ok(
                    Saved {
                        id,
                        name: match name {
                            Some(n) => n,
                            None => {
                                let empty: String = String::new();
                                assert(empty@ =~= Seq::empty());
                                empty
                            },
                        },
                    },
                )
            },
        }
    }

    /// Takes the server's answer to a sync, and the time. A locked agent
    /// declines. The time of the last request stays as it is.
    pub fn resync(&mut self, sync: &SyncResponse, stamp: Option<String>) -> (r: Result<(), Error>)
        ensures
            old(self)@.vault is None ==> r == Err::<(), Error>(Error::Locked) && final(self)@
                == old(self)@,
            old(self)@.vault matches Some(v) ==> r == Ok::<(), Error>(()) && final(self)@ == (
            AgentView {
                vault: Some(
                    VaultView {
                        ciphers: sync_items(sync.ciphers@),
                        folders: sync_folders(sync.folders@, v.user_enc, v.user_mac),
                        org_keys: sync_org_keys(*sync, v.user_enc, v.user_mac),
                        last_sync: stamp.deep_view(),
                        ..v
                    },
                ),
                ..old(self)@
            }),
    {
        match &mut self.vault {
            None => Err(Error::Locked),
            Some(v) => {
                let enc: [u8; 32] = *v.user_enc.bytes();
                let mac: [u8; 32] = *v.user_mac.bytes();
                let (ciphers, folders) = ciphers_and_folders(sync, &enc, &mac);
                v.org_keys = build_org_keys(sync, &enc, &mac);
                v.ciphers = ciphers;
                v.folders = folders;
                v.last_sync = stamp;
                Ok(())
            },
        }
    }
}

fn elapsed_secs(then: u64, now: u64) -> (r: u64)
    ensures
        r == seconds_since(then, now),
{
    if now >= then {
        (now - then) / 1000
    } else {
        0
    }
}

/// The card `new` holds each field to write, under the keys, and is as `before`
/// in the others.
pub open spec fn card_takes_write(
    new: CardView,
    before: CardView,
    w: CardWrite,
    enc: Seq<u8>,
    mac: Seq<u8>,
) -> bool {
    &&& takes_text(new.cardholder_name, before.cardholder_name, w.cardholder.deep_view(), enc, mac)
    &&& takes_text(new.brand, before.brand, w.brand.deep_view(), enc, mac)
    &&& takes_text(new.number, before.number, text_in(w.number), enc, mac)
    &&& takes_text(new.exp_month, before.exp_month, w.exp_month.deep_view(), enc, mac)
    &&& takes_text(new.exp_year, before.exp_year, w.exp_year.deep_view(), enc, mac)
    &&& takes_text(new.code, before.code, text_in(w.code), enc, mac)
}

/// The identity `new` holds each field to write, under the keys, and is as
/// `before` in the others.
pub open spec fn identity_takes_write(
    new: IdentityView,
    before: IdentityView,
    w: IdentityWrite,
    enc: Seq<u8>,
    mac: Seq<u8>,
) -> bool {
    &&& takes_text(new.title, before.title, w.title.deep_view(), enc, mac)
    &&& takes_text(new.first_name, before.first_name, w.first_name.deep_view(), enc, mac)
    &&& takes_text(new.middle_name, before.middle_name, w.middle_name.deep_view(), enc, mac)
    &&& takes_text(new.last_name, before.last_name, w.last_name.deep_view(), enc, mac)
    &&& takes_text(new.username, before.username, w.username.deep_view(), enc, mac)
    &&& takes_text(new.company, before.company, w.company.deep_view(), enc, mac)
    &&& takes_text(new.ssn, before.ssn, text_in(w.ssn), enc, mac)
    &&& takes_text(new.passport_number, before.passport_number, text_in(w.passport_number), enc, mac)
    &&& takes_text(new.license_number, before.license_number, text_in(w.license_number), enc, mac)
    &&& takes_text(new.email, before.email, w.email.deep_view(), enc, mac)
    &&& takes_text(new.phone, before.phone, w.phone.deep_view(), enc, mac)
    &&& takes_text(new.address1, before.address1, w.address1.deep_view(), enc, mac)
    &&& takes_text(new.address2, before.address2, w.address2.deep_view(), enc, mac)
    &&& takes_text(new.address3, before.address3, w.address3.deep_view(), enc, mac)
    &&& takes_text(new.city, before.city, w.city.deep_view(), enc, mac)
    &&& takes_text(new.state, before.state, w.state.deep_view(), enc, mac)
    &&& takes_text(new.postal_code, before.postal_code, w.postal_code.deep_view(), enc, mac)
    &&& takes_text(new.country, before.country, w.country.deep_view(), enc, mac)
}

/// A change that is planned takes every field to write into the item that the
/// selector stands for, each text in its own field and under the keys of the
/// item, and leaves what is not to be written as it is.
pub proof fn edit_writes_what_is_asked(
    a: AgentView,
    v: VaultView,
    selector: Seq<char>,
    w: CipherWrite,
    ivs: Option<Seq<u8>>,
    plan: EditPlan,
    keys: (Seq<u8>, Seq<u8>),
)
    requires
        a.vault == Some(v),
        edit_outcome(a, selector, w, ivs, Ok(plan)),
        item_keys(v.ciphers[plan.index as int].key, v.user_enc, v.user_mac) == Ok::<
            (Seq<u8>, Seq<u8>),
            crate::vault_core::error::Error,
        >(keys),
    ensures
        resolved(v, selector) == Ok::<int, ErrorView>(plan.index as int),
        plan.index < v.ciphers.len(),
        ({
            let c = v.ciphers[plan.index as int];
            let new = plan.cipher.deep_view();
            &&& c.organization_id is None
            &&& new.id == c.id
            &&& new.cipher_type == c.cipher_type
            &&& new.organization_id is None
            &&& new.key == c.key
            &&& new.fields == c.fields
            &&& takes_text(new.name, c.name, w.name.deep_view(), keys.0, keys.1)
            &&& takes_text(new.notes, c.notes, w.notes.deep_view(), keys.0, keys.1)
            &&& w.folder is None ==> new.folder_id == c.folder_id
            &&& w.folder matches Some(f) ==> folder_resolved(v, Some(f@)) == Ok::<
                Option<Seq<char>>,
                ErrorView,
            >(new.folder_id)
        }),
        ({
            let c = v.ciphers[plan.index as int];
            let new = plan.cipher.deep_view();
            let before = match c.login {
                Some(l) => l,
                None => LoginView { username: None, password: None, totp: None, uris: None },
            };
            if w.username is None && w.password is None && w.totp is None && w.uri is None {
                new.login == c.login
            } else {
                &&& is_text(w.password)
                &&& is_text(w.totp)
                &&& new.login matches Some(l) && {
                    &&& takes_text(
                        l.username,
                        before.username,
                        w.username.deep_view(),
                        keys.0,
                        keys.1,
                    )
                    &&& takes_text(
                        l.password,
                        before.password,
                        text_in(w.password),
                        keys.0,
                        keys.1,
                    )
                    &&& takes_text(l.totp, before.totp, text_in(w.totp), keys.0, keys.1)
                    &&& w.uri is None ==> l.uris == before.uris
                    &&& w.uri matches Some(u) ==> l.uris matches Some(n) && n.len() > 0
                        && holds_text(n[0].uri, Some(u@), keys.0, keys.1) && (
                    before.uris matches Some(b) ==> b.len() > 0 ==> n.len() == b.len() && (forall|
                        i: int,
                    |
                        0 < i < n.len() ==> #[trigger] n[i] == b[i]))
                }
            }
        }),
        ({
            let c = v.ciphers[plan.index as int];
            let new = plan.cipher.deep_view();
            &&& w.card is None ==> new.card == c.card
            &&& w.card matches Some(x) ==> c.cipher_type == 3 && is_text(x.number) && is_text(
                x.code,
            ) && new.card is Some && card_takes_write(
                new.card->Some_0,
                match c.card {
                    Some(b) => b,
                    None => empty_card(),
                },
                x,
                keys.0,
                keys.1,
            )
            &&& w.identity is None ==> new.identity == c.identity
            &&& w.identity matches Some(x) ==> c.cipher_type == 4 && is_text(x.ssn) && is_text(
                x.passport_number,
            ) && is_text(x.license_number) && new.identity is Some && identity_takes_write(
                new.identity->Some_0,
                match c.identity {
                    Some(b) => b,
                    None => empty_identity(),
                },
                x,
                keys.0,
                keys.1,
            )
        }),
{
    resolved_item_matches(v, selector);
    let (i, o) = edit_asked(a, selector, w)->Ok_0;
    let c = v.ciphers[i];
    secret_is_taken_as_its_text(w.password);
    secret_is_taken_as_its_text(w.totp);
    if let Some(x) = w.card {
        card_fields_are_taken_one_by_one(x);
    }
    if let Some(x) = w.identity {
        identity_fields_are_taken_one_by_one(x);
    }
    if seals_nothing(o) {
        textless_change_takes_the_overlay(c, o, keys.0, keys.1);
    } else {
        change_takes_the_overlay(
            plan.cipher.deep_view(),
            c,
            o,
            keys.0,
            keys.1,
            ivs->Some_0,
        );
    }
}

/// The folder that is selected is one of the vault's, or none is selected.
pub open spec fn folder_is_known(v: VaultView, folder: Option<String>) -> bool {
    folder matches Some(f) ==> folder_resolved(v, Some(f@)) is Ok
}

/// Nothing is wrong with the fields to write: the folder is known and every
/// secret is UTF-8.
pub open spec fn write_is_sound(v: VaultView, w: CipherWrite) -> bool {
    &&& folder_is_known(v, w.folder)
    &&& is_text(w.password)
    &&& is_text(w.totp)
    &&& w.card matches Some(c) ==> is_text(c.number) && is_text(c.code)
    &&& w.identity matches Some(i) ==> is_text(i.ssn) && is_text(i.passport_number) && is_text(
        i.license_number,
    )
}

/// A change with sound fields to a personal item, with card fields on a card and
/// identity fields on an identity alone, is planned, where the item's key
/// unwraps and there are initialization vectors.
pub proof fn sound_edit_is_planned(
    a: AgentView,
    v: VaultView,
    selector: Seq<char>,
    w: CipherWrite,
    ivs: Option<Seq<u8>>,
    r: Result<EditPlan, Error>,
    i: int,
)
    requires
        a.vault == Some(v),
        edit_outcome(a, selector, w, ivs, r),
        resolved(v, selector) == Ok::<int, ErrorView>(i),
        v.ciphers[i].organization_id is None,
        w.card is Some ==> v.ciphers[i].cipher_type == 3,
        w.identity is Some ==> v.ciphers[i].cipher_type == 4,
        write_is_sound(v, w),
        item_keys(v.ciphers[i].key, v.user_enc, v.user_mac) is Ok,
        ivs is Some,
    ensures
        r matches Ok(p) && p.index == i,
{
    secret_is_taken_as_its_text(w.password);
    secret_is_taken_as_its_text(w.totp);
    if let Some(x) = w.card {
        card_fields_are_taken_one_by_one(x);
    }
    if let Some(x) = w.identity {
        identity_fields_are_taken_one_by_one(x);
    }
}

/// An item of an organization is not changed, card fields are not written to
/// another kind of item, nor identity fields, and what names no item changes
/// none.
pub proof fn unsound_edit_is_refused(
    a: AgentView,
    v: VaultView,
    selector: Seq<char>,
    w: CipherWrite,
    ivs: Option<Seq<u8>>,
    r: Result<EditPlan, Error>,
)
    requires
        a.vault == Some(v),
        edit_outcome(a, selector, w, ivs, r),
    ensures
        resolved(v, selector) matches Err(e) ==> (r matches Err(x) && x.deep_view() == e),
        resolved(v, selector) matches Ok(i) ==> {
            &&& v.ciphers[i].organization_id is Some ==> r is Err
            &&& w.card is Some && v.ciphers[i].cipher_type != 3 ==> r is Err
            &&& w.identity is Some && v.ciphers[i].cipher_type != 4 ==> r is Err
            &&& !write_is_sound(v, w) ==> r is Err
        },
        resolved(v, selector) matches Ok(i) ==> write_is_sound(v, w)
            && v.ciphers[i].organization_id is Some ==> (r matches Err(x) && x.deep_view()
            == ErrorView::Internal("editing organization items is not supported yet"@)),
{
    secret_is_taken_as_its_text(w.password);
    secret_is_taken_as_its_text(w.totp);
    if let Some(x) = w.card {
        card_fields_are_taken_one_by_one(x);
    }
    if let Some(x) = w.identity {
        identity_fields_are_taken_one_by_one(x);
    }
}

/// A creation that is planned holds every field to write that the kind stores,
/// each text in its own field and under the user key, and is told by the name
/// it was given.
pub proof fn add_writes_what_is_asked(
    a: AgentView,
    v: VaultView,
    cipher_type: u8,
    w: CipherWrite,
    ivs: Option<Seq<u8>>,
    plan: AddPlan,
)
    requires
        a.vault == Some(v),
        add_outcome(a, cipher_type, w, ivs, Ok(plan)),
    ensures
        ({
            let c = plan.cipher.deep_view();
            &&& w.name matches Some(n) && n@ == plan.name@
            &&& c.cipher_type == cipher_type
            &&& c.organization_id is None
            &&& c.key is None
            &&& folder_resolved(v, w.folder.deep_view()) == Ok::<Option<Seq<char>>, ErrorView>(
                c.folder_id,
            )
            &&& holds_text(c.name, w.name.deep_view(), v.user_enc, v.user_mac)
            &&& holds_text(c.notes, w.notes.deep_view(), v.user_enc, v.user_mac)
            &&& cipher_type == 1 ==> (c.login matches Some(l) && {
                &&& holds_text(l.username, w.username.deep_view(), v.user_enc, v.user_mac)
                &&& holds_text(l.password, text_in(w.password), v.user_enc, v.user_mac)
                &&& holds_text(l.totp, text_in(w.totp), v.user_enc, v.user_mac)
                &&& w.uri matches Some(u) ==> l.uris matches Some(x) && x.len() == 1 && holds_text(
                    x[0].uri,
                    Some(u@),
                    v.user_enc,
                    v.user_mac,
                )
                &&& w.uri is None ==> l.uris is None
            })
            &&& cipher_type != 1 ==> c.login is None
            &&& c.card is Some <==> cipher_type == 3 && w.card is Some
            &&& c.card matches Some(x) ==> card_holds_write(
                x,
                w.card->Some_0,
                v.user_enc,
                v.user_mac,
            )
            &&& c.identity is Some <==> cipher_type == 4 && w.identity is Some
            &&& c.identity matches Some(x) ==> identity_holds_write(
                x,
                w.identity->Some_0,
                v.user_enc,
                v.user_mac,
            )
        }),
{
    let p = item_written(v, cipher_type, w)->Ok_0;
    new_item_holds_what_its_kind_stores(
        plan.cipher.deep_view(),
        p,
        v.user_enc,
        v.user_mac,
        ivs->Some_0,
    );
    secret_is_taken_as_its_text(w.password);
    secret_is_taken_as_its_text(w.totp);
    if let Some(x) = w.card {
        card_fields_are_taken_one_by_one(x);
    }
    if let Some(x) = w.identity {
        identity_fields_are_taken_one_by_one(x);
    }
}

/// The card `c` holds the fields to write and no others.
pub open spec fn card_holds_write(
    c: CardView,
    w: CardWrite,
    enc: Seq<u8>,
    mac: Seq<u8>,
) -> bool {
    &&& holds_text(c.cardholder_name, w.cardholder.deep_view(), enc, mac)
    &&& holds_text(c.brand, w.brand.deep_view(), enc, mac)
    &&& holds_text(c.number, text_in(w.number), enc, mac)
    &&& holds_text(c.exp_month, w.exp_month.deep_view(), enc, mac)
    &&& holds_text(c.exp_year, w.exp_year.deep_view(), enc, mac)
    &&& holds_text(c.code, text_in(w.code), enc, mac)
}

/// The identity `c` holds the fields to write and no others.
pub open spec fn identity_holds_write(
    c: IdentityView,
    w: IdentityWrite,
    enc: Seq<u8>,
    mac: Seq<u8>,
) -> bool {
    &&& holds_text(c.title, w.title.deep_view(), enc, mac)
    &&& holds_text(c.first_name, w.first_name.deep_view(), enc, mac)
    &&& holds_text(c.middle_name, w.middle_name.deep_view(), enc, mac)
    &&& holds_text(c.last_name, w.last_name.deep_view(), enc, mac)
    &&& holds_text(c.username, w.username.deep_view(), enc, mac)
    &&& holds_text(c.company, w.company.deep_view(), enc, mac)
    &&& holds_text(c.ssn, text_in(w.ssn), enc, mac)
    &&& holds_text(c.passport_number, text_in(w.passport_number), enc, mac)
    &&& holds_text(c.license_number, text_in(w.license_number), enc, mac)
    &&& holds_text(c.email, w.email.deep_view(), enc, mac)
    &&& holds_text(c.phone, w.phone.deep_view(), enc, mac)
    &&& holds_text(c.address1, w.address1.deep_view(), enc, mac)
    &&& holds_text(c.address2, w.address2.deep_view(), enc, mac)
    &&& holds_text(c.address3, w.address3.deep_view(), enc, mac)
    &&& holds_text(c.city, w.city.deep_view(), enc, mac)
    &&& holds_text(c.state, w.state.deep_view(), enc, mac)
    &&& holds_text(c.postal_code, w.postal_code.deep_view(), enc, mac)
    &&& holds_text(c.country, w.country.deep_view(), enc, mac)
}

/// A creation with a name and sound fields is planned, whatever the kind, where
/// there are initialization vectors.
pub proof fn sound_add_is_planned(
    a: AgentView,
    v: VaultView,
    cipher_type: u8,
    w: CipherWrite,
    ivs: Option<Seq<u8>>,
    r: Result<AddPlan, Error>,
)
    requires
        a.vault == Some(v),
        add_outcome(a, cipher_type, w, ivs, r),
        w.name is Some,
        write_is_sound(v, w),
        ivs is Some,
    ensures
        r is Ok,
{
    new_item_is_what_was_written(
        v,
        cipher_type,
        w,
        folder_resolved(v, w.folder.deep_view())->Ok_0,
    );
}

/// A deletion that is planned is that of the item that the selector stands for,
/// with its identifier and its name; where the name decrypts it is planned,
/// whatever the kind and whoever owns the item.
pub proof fn removal_is_that_of_the_item_selected(
    a: AgentView,
    v: VaultView,
    selector: Seq<char>,
    i: int,
    name: Option<Seq<char>>,
)
    requires
        a.vault == Some(v),
        resolved(v, selector) == Ok::<int, ErrorView>(i),
        ({
            let (enc, mac) = base_keys(v, v.ciphers[i]);
            opened_name(v.ciphers[i], enc, mac) == Ok::<
                Option<Seq<char>>,
                crate::vault_core::error::Error,
            >(name)
        }),
    ensures
        removal(a, selector) == Ok::<RemovePlanView, ErrorView>(
            RemovePlanView {
                index: i,
                id: v.ciphers[i].id,
                name: if name is Some { name->Some_0 } else { "<unnamed>"@ },
            },
        ),
{
}

/// A selector that stands for no item removes none.
pub proof fn removal_of_nothing_is_refused(a: AgentView, selector: Seq<char>)
    ensures
        a.vault is None ==> removal(a, selector) == Err::<RemovePlanView, ErrorView>(
            ErrorView::Locked,
        ),
        a.vault matches Some(v) ==> (resolved(v, selector) matches Err(e) ==> removal(a, selector)
            == Err::<RemovePlanView, ErrorView>(e)),
{
}

/// The agent locks when it has been without a request for as many seconds as it
/// is told, and not before; a locked agent does not.
pub proof fn agent_locks_after_its_time(a: AgentView, now_ms: u64)
    ensures
        a.vault is None ==> !idle_due(a, now_ms),
        a.vault is Some && now_ms >= a.last_activity ==> (idle_due(a, now_ms) <==> now_ms
            - a.last_activity >= a.idle_lock_secs * 1000),
        a.vault is Some && now_ms < a.last_activity ==> (idle_due(a, now_ms) <==> a.idle_lock_secs
            == 0),
{
}

/// Handling a request moves the time of the last one, and nothing else but the
/// time at which the session was stored.
pub proof fn request_is_noted(a: AgentView, now: Moment)
    ensures
        touched(a, now).last_activity == now.ms,
        touched(a, now) == (AgentView {
            last_activity: now.ms,
            last_session_refresh: touched(a, now).last_session_refresh,
            ..a
        }),
        touched(a, now).last_session_refresh == a.last_session_refresh || (a.session_keyring
            && a.vault is Some && touched(a, now).last_session_refresh == Some(now.ms)),
{
}

/// A session is stored where sessions are to be stored and a vault is open: with
/// the account, the user key, and the time it is to live for, which is that of
/// the fingerprint where one is asked for and that of the idle lock otherwise.
pub proof fn session_holds_the_open_vault(a: AgentView, now: Moment)
    ensures
        session_of(a, now) is Some <==> a.session_keyring && a.vault is Some,
        session_of(a, now) matches Some(s) ==> {
            let v = a.vault->Some_0;
            let ttl = if a.fingerprint_unlock { a.fingerprint_ttl_secs } else { a.idle_lock_secs };
            &&& s.server == v.server
            &&& s.email == v.email
            &&& s.user_enc == v.user_enc
            &&& s.user_mac == v.user_mac
            &&& s.ttl == ttl
            &&& ttl == 0 ==> s.deadline_unix == 0
            &&& now.unix matches Some(t) ==> (0 < ttl <= u64::MAX - t ==> s.deadline_unix == t
                + ttl)
        },
{
}

/// A stored session is renewed by a request when none was stored yet, or thirty
/// seconds after it was, and not before.
pub proof fn session_is_renewed_after_thirty_seconds(a: AgentView, now: Moment)
    ensures
        a.session_keyring && a.vault is Some && a.last_session_refresh is None ==> touch_session(
            a,
            now,
        ) is Some,
        a.session_keyring && a.vault is Some ==> (a.last_session_refresh matches Some(t)
            ==> now.ms >= t ==> (touch_session(a, now) is Some <==> now.ms - t >= 30_000)),
        !a.session_keyring || a.vault is None ==> touch_session(a, now) is None,
{
}

/// The state is told as it is: whether a vault is open, and of an open one its
/// account, how many items it has and when it was last synced.
pub proof fn status_tells_the_state(a: AgentView)
    ensures
        status_of(a).unlocked == (a.vault is Some),
        a.vault is None ==> status_of(a).server is None && status_of(a).email is None && status_of(
            a,
        ).items is None && status_of(a).last_sync is None,
        a.vault matches Some(v) ==> {
            &&& status_of(a).server == Some(v.server)
            &&& status_of(a).email == Some(v.email)
            &&& v.ciphers.len() <= usize::MAX ==> (status_of(a).items matches Some(n) && n
                == v.ciphers.len())
            &&& status_of(a).last_sync == v.last_sync
        },
        status_of(a).agent_version == VERSION@,
{
}

/// Locking drops the vault and the value that was copied last; a clipboard that
/// still holds the value is cleared of it, and the settings stay.
pub proof fn locking_forgets_the_vault(before: AgentView, after: AgentView)
    requires
        locked_from(before, after),
    ensures
        after.vault is None,
        after.last_copied is None,
        after.last_session_refresh is None,
        after.idle_lock_secs == before.idle_lock_secs,
        after.session_keyring == before.session_keyring,
        after.fingerprint_unlock == before.fingerprint_unlock,
        after.clipboard_clear_secs == before.clipboard_clear_secs,
        after.last_activity == before.last_activity,
        before.last_copied is None ==> after.clipboard == before.clipboard,
        before.last_copied matches Some(p) ==> (before.clipboard matches Some(b) ==> (
        after.clipboard matches Some(c) && exists|read: Option<Seq<char>>|
            {
                let asked = #[trigger] b.calls.push(ClipboardCall::Read(read));
                c.calls == (if read is None || read == Some(p) {
                    asked.push(ClipboardCall::Cleared)
                } else {
                    asked
                })
            })),
{
    if let Some(p) = before.last_copied {
        if let Some(b) = before.clipboard {
            let c = after.clipboard->Some_0;
            let read = choose|read: Option<Seq<char>>| #[trigger]
                cleared_after(b.calls, read, p) == c.calls;
            assert(c.calls == (if read is None || read == Some(p) {
                b.calls.push(ClipboardCall::Read(read)).push(ClipboardCall::Cleared)
            } else {
                b.calls.push(ClipboardCall::Read(read))
            }));
        }
    }
}

/// The text to write into a field that is a text of its own.
pub open spec fn text_to_write(w: CipherWrite, f: Field) -> Option<Seq<char>> {
    match f {
        Field::Password => text_in(w.password),
        Field::Username => w.username.deep_view(),
        Field::Notes => w.notes.deep_view(),
        Field::Uri => w.uri.deep_view(),
        _ => None,
    }
}

/// What is written into a field is what reading it gives, once the change was
/// made: by the identifier of the item, which no other has.
pub proof fn edited_text_is_read_as_written(
    a: AgentView,
    v: VaultView,
    selector: Seq<char>,
    w: CipherWrite,
    ivs: Option<Seq<u8>>,
    plan: EditPlan,
    keys: (Seq<u8>, Seq<u8>),
    name: Seq<char>,
    query: Seq<char>,
    f: Field,
    clock: Option<u64>,
)
    requires
        a.vault == Some(v),
        edit_outcome(a, selector, w, ivs, Ok(plan)),
        plan.index < v.ciphers.len(),
        forall|k: int|
            0 <= k < v.ciphers.len() && k != plan.index ==> (#[trigger] v.ciphers[k]).id
                != v.ciphers[plan.index as int].id,
        item_keys(v.ciphers[plan.index as int].key, v.user_enc, v.user_mac) == Ok::<
            (Seq<u8>, Seq<u8>),
            crate::vault_core::error::Error,
        >(keys),
        w.name matches Some(n) ==> name == n@,
        w.name is None ==> holds_text(
            v.ciphers[plan.index as int].name,
            Some(name),
            keys.0,
            keys.1,
        ),
        text_to_write(w, f) is Some,
    ensures
        ({
            let c = v.ciphers[plan.index as int];
            let after = VaultView {
                ciphers: v.ciphers.update(plan.index as int, plan.cipher.deep_view()),
                ..v
            };
            item_read(after, Some(c.id), query, f, clock) == Ok::<ItemView, ErrorView>(
                ItemView {
                    id: c.id,
                    name,
                    cipher_type: c.cipher_type,
                    field: f,
                    value: text_to_write(w, f)->Some_0,
                },
            )
        }),
{
    edit_writes_what_is_asked(a, v, selector, w, ivs, plan, keys);
    let at = plan.index as int;
    let after = VaultView { ciphers: v.ciphers.update(at, plan.cipher.deep_view()), ..v };
    assert(base_keys(after, after.ciphers[at]) == (v.user_enc, v.user_mac));
    assert forall|k: int| 0 <= k < at implies (#[trigger] after.ciphers[k]).id
        != after.ciphers[at].id by {
        assert(after.ciphers[k] == v.ciphers[k]);
    }
    held_text_is_read(after, at, keys, name, text_to_write(w, f)->Some_0, query, f, clock);
}

/// What is written into a field of a new item is what reading it gives, once the
/// item is kept under an identifier that no other has: the notes of any item,
/// and the fields of a login.
pub proof fn added_text_is_read_as_written(
    a: AgentView,
    v: VaultView,
    cipher_type: u8,
    w: CipherWrite,
    ivs: Option<Seq<u8>>,
    plan: AddPlan,
    id: Seq<char>,
    query: Seq<char>,
    f: Field,
    clock: Option<u64>,
)
    requires
        a.vault == Some(v),
        add_outcome(a, cipher_type, w, ivs, Ok(plan)),
        forall|k: int| 0 <= k < v.ciphers.len() ==> (#[trigger] v.ciphers[k]).id != id,
        text_to_write(w, f) is Some,
        cipher_type == 1 || f is Notes,
    ensures
        ({
            let after = VaultView {
                ciphers: v.ciphers.push(CipherView { id, ..plan.cipher.deep_view() }),
                ..v
            };
            item_read(after, Some(id), query, f, clock) == Ok::<ItemView, ErrorView>(
                ItemView {
                    id,
                    name: plan.name@,
                    cipher_type,
                    field: f,
                    value: text_to_write(w, f)->Some_0,
                },
            )
        }),
{
    add_writes_what_is_asked(a, v, cipher_type, w, ivs, plan);
    let at = v.ciphers.len() as int;
    let after = VaultView {
        ciphers: v.ciphers.push(CipherView { id, ..plan.cipher.deep_view() }),
        ..v
    };
    let keys = (v.user_enc, v.user_mac);
    assert(base_keys(after, after.ciphers[at]) == keys);
    assert forall|k: int| 0 <= k < at implies (#[trigger] after.ciphers[k]).id
        != after.ciphers[at].id by {
        assert(after.ciphers[k] == v.ciphers[k]);
    }
    held_text_is_read(after, at, keys, plan.name@, text_to_write(w, f)->Some_0, query, f, clock);
}

/// The clipboard in use is told by its own name; without one only that copying
/// goes through the terminal is told, where that was chosen.
pub proof fn clipboard_is_told_by_name(a: AgentView)
    ensures
        a.clipboard matches Some(c) ==> status_of(a).clipboard_backend == Some(c.label),
        a.clipboard is None && a.clipboard_backend == BackendChoice::Osc52 ==> status_of(
            a,
        ).clipboard_backend == Some("osc52"@),
        a.clipboard is None && a.clipboard_backend != BackendChoice::Osc52 ==> status_of(
            a,
        ).clipboard_backend is None,
{
}

/// Clearing a value reads the clipboard first, and clears it only where it still
/// holds the value or does not tell; the clipboard stays the same one.
pub proof fn clearing_reads_first(
    before: Option<ClipboardView>,
    after: Option<ClipboardView>,
    written: Seq<char>,
)
    requires
        clipboard_cleared(before, after, written),
    ensures
        before is None <==> after is None,
        before matches Some(b) ==> (after matches Some(c) && {
            &&& c.label == b.label
            &&& c.calls.len() > b.calls.len()
            &&& c.calls.take(b.calls.len() as int) == b.calls
            &&& c.calls[b.calls.len() as int] matches ClipboardCall::Read(read) && c.calls.len()
                == b.calls.len() + (if read is None || read == Some(written) {
                2int
            } else {
                1int
            })
            &&& c.calls.len() == b.calls.len() + 2 ==> c.calls.last() is Cleared
        }),
{
    if let Some(b) = before {
        let c = after->Some_0;
        let read = choose|read: Option<Seq<char>>| #[trigger]
            cleared_after(b.calls, read, written) == c.calls;
        assert(cleared_after(b.calls, read, written) == c.calls);
        assert(c.calls.take(b.calls.len() as int) =~= b.calls);
    }
}

} // verus!
