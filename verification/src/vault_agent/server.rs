//! What the agent does with a request.
//!
//! A request is answered at once, or it names work that only the outside can
//! do: calls of the server, and reading and writing files. When that work is
//! done its result is handed back, and the answer follows.
use vstd::prelude::*;
use vstd::string::*;
use vstd::utf8::{decode_utf8, valid_utf8};
use crate::text::{utf8_fault, utf8_fault_text, utf8_text};
use crate::vault_agent::clipboard::ClipboardCall;
use crate::vault_agent::edit::{CipherWrite, OverlayView};
use crate::vault_agent::list::{listed, row_views};
use crate::vault_agent::lookup::item_read;
use crate::vault_agent::state::{
    add_outcome, agent_item, edit_asked, edit_outcome, idle_due, locked_from, removal, session_of,
    session_stored, status_of, touch_session, touched, AddPlan, AgentState, AgentView,
    ClipboardView, EditPlan, Moment, RemovePlan, RemovePlanView, SessionStore,
};
use crate::vault_agent::unlock::{sync_folders, sync_items, sync_org_keys};
use crate::vault_agent::vault::{Vault, VaultView};
use crate::vault_api::sync::SyncResponse;
use crate::vault_core::cipher::{draw_ivs, drawn, enough_ivs, opened_name, CipherView};
use crate::vault_core::error::{error_text, prefixed};
use crate::vault_ipc::proto::{
    ApiKeyCreds, Copied, Error, ErrorView, Field, ItemView, NamedView, Request, Response,
    TwoFactorCode,
};

verus! {

/// Work that only the outside can do.
pub enum Work {
    /// Log in at the server, or unlock from the cache with the password.
    Unlock {
        /// Server origin.
        server: String,
        /// Account email.
        email: String,
        /// Master password.
        password: Vec<u8>,
        /// Identifier of this device.
        device_id: Option<String>,
        /// API key to authenticate with and to store.
        api_key: Option<ApiKeyCreds>,
        /// Answer to a two-factor challenge.
        two_factor: Option<TwoFactorCode>,
    },
    /// Unlock from the cache with a PIN.
    UnlockPin {
        /// Server origin.
        server: String,
        /// Account email.
        email: String,
        /// The PIN.
        pin: Vec<u8>,
    },
    /// Put a PIN into the cache of the unlocked account.
    PinSet {
        /// The PIN.
        pin: Vec<u8>,
    },
    /// Remove the PIN from an account's cache.
    PinDisable {
        /// Server origin.
        server: String,
        /// Account email.
        email: String,
    },
    /// Look for a PIN in an account's cache.
    PinStatus {
        /// Server origin.
        server: String,
        /// Account email.
        email: String,
    },
    /// Look for an account's API key.
    ApiKeyStatus {
        /// Server origin.
        server: String,
        /// Account email.
        email: String,
    },
    /// Delete an account's API key.
    ApiKeyForget {
        /// Server origin.
        server: String,
        /// Account email.
        email: String,
    },
    /// Fetch the vault from the server.
    Sync,
    /// Delete an item at the server.
    Remove(RemovePlan),
    /// Create an item at the server.
    Add(AddPlan),
    /// Change an item at the server.
    Edit(EditPlan),
}

/// What is to happen to the stored session.
pub enum SessionEffect {
    /// Nothing.
    Keep,
    /// It is stored.
    Store(SessionStore),
    /// It is cleared.
    Clear,
}

/// A copied value that is to be cleared later.
pub struct ScheduledClear {
    /// The value.
    pub value: String,
    /// Seconds until then.
    pub secs: u64,
}

/// An answer with what goes with it.
pub struct Reply {
    /// The answer.
    pub response: Response,
    /// What is to happen to the stored session.
    pub session: SessionEffect,
    /// A copied value that is to be cleared later.
    pub clear: Option<ScheduledClear>,
}

/// What follows from a request.
pub enum Step {
    /// The answer.
    Answer(Reply),
    /// Work to be done first.
    Perform(Work),
}

/// `e` is the effect of storing `s`, where there is something to store.
pub open spec fn stores(
    e: SessionEffect,
    s: Option<crate::vault_agent::state::SessionStoreView>,
) -> bool {
    match (e, s) {
        (SessionEffect::Keep, None) => true,
        (SessionEffect::Store(b), Some(v)) => b.deep_view() == v,
        _ => false,
    }
}

/// `r` is given after the agent noted the request, with the stored session
/// renewed where that is due.
pub open spec fn replied(r: Reply, before: AgentView, after: AgentView, now: Moment) -> bool {
    &&& r.clear is None
    &&& stores(r.session, touch_session(before, now))
    &&& after == touched(before, now)
}

/// `r` answers that `e` is the error.
pub open spec fn replies_error(r: Reply, e: ErrorView) -> bool {
    r.response matches Response::Error(x) && x.deep_view() == e
}

/// `step` is an answer, given after the agent noted the request, with the
/// stored session renewed where that is due.
pub open spec fn answered(step: Step, before: AgentView, after: AgentView, now: Moment) -> bool {
    step matches Step::Answer(r) && replied(r, before, after, now)
}

/// `step` is the answer that `e` is the error.
pub open spec fn answers_error(step: Step, e: ErrorView) -> bool {
    step matches Step::Answer(r) && replies_error(r, e)
}

/// Seconds until a copied value is cleared: those of the request, else those
/// of the agent.
pub open spec fn clear_after(asked: Option<u64>, a: AgentView) -> u64 {
    match asked {
        Some(s) => s,
        None => a.clipboard_clear_secs,
    }
}

/// `r` answers that `value` was copied, and schedules its clearing unless that
/// is disabled.
pub open spec fn answers_copied(r: Reply, value: Seq<char>, secs: u64) -> bool {
    &&& r.response matches Response::Copied(c) && c.clear_after_secs == secs
    &&& match r.clear {
        None => secs == 0,
        Some(s) => secs > 0 && s.secs == secs && s.value@ == value,
    }
}

/// The agent after it wrote `value` to its clipboard, where it has one.
pub open spec fn after_copy(a: AgentView, value: Seq<char>, wrote: Result<(), ErrorView>) -> AgentView {
    match a.clipboard {
        None => a,
        Some(c) => AgentView {
            clipboard: Some(
                ClipboardView {
                    label: c.label,
                    calls: c.calls.push(ClipboardCall::Wrote(value, wrote)),
                },
            ),
            last_copied: if wrote is Ok { Some(value) } else { a.last_copied },
            ..a
        },
    }
}

/// What copying `value` comes to: where there is no clipboard it is declined;
/// where writing to it succeeds that is answered and the clearing scheduled,
/// and where it fails the clipboard's error is answered.
pub open spec fn copy_outcome(
    step: Step,
    before: AgentView,
    after: AgentView,
    now: Moment,
    value: Seq<char>,
    secs: u64,
) -> bool {
    step matches Step::Answer(r) && match before.clipboard {
        None => {
            &&& answers_error(step, ErrorView::ClipboardUnavailable)
            &&& r.clear is None
            &&& stores(r.session, touch_session(before, now))
            &&& after == touched(before, now)
        },
        Some(_) => {
            let wrote = match r.response {
                Response::Error(e) => Err(e.deep_view()),
                _ => Ok(()),
            };
            let copied = after_copy(before, value, wrote);
            &&& wrote is Ok ==> answers_copied(r, value, secs)
            &&& wrote is Err ==> r.clear is None
            &&& stores(r.session, touch_session(copied, now))
            &&& after == touched(copied, now)
        },
    }
}

/// What an unlocked vault comes to: it is taken, its session stored, and the
/// request noted.
pub open spec fn unlocked_with(a: AgentView, v: VaultView, now: Moment) -> AgentView {
    touched(session_stored(AgentView { vault: Some(v), ..a }, now), now)
}

/// The text that a client asks to be copied, or why it is none.
pub open spec fn copy_text_asked(a: AgentView, text: Seq<u8>) -> Result<Seq<char>, ErrorView> {
    if a.vault is None {
        Err(ErrorView::Locked)
    } else if valid_utf8(text) {
        Ok(decode_utf8(text))
    } else {
        Err(ErrorView::Internal("copy text is not valid UTF-8: "@ + utf8_fault(text)))
    }
}

/// A locked agent declines whatever would need the vault, and says that it is
/// locked.
pub proof fn locked_agent_declines(
    a: AgentView,
    cipher_type: u8,
    id: Option<Seq<char>>,
    name: Seq<char>,
    field: Field,
    clock: Option<u64>,
    w: CipherWrite,
    text: Seq<u8>,
)
    requires
        a.vault is None,
    ensures
        agent_item(a, id, name, field, clock) == Err::<ItemView, ErrorView>(ErrorView::Locked),
        removal(a, name) == Err::<RemovePlanView, ErrorView>(ErrorView::Locked),
        edit_asked(a, name, w) == Err::<(int, OverlayView), ErrorView>(ErrorView::Locked),
        copy_text_asked(a, text) == Err::<Seq<char>, ErrorView>(ErrorView::Locked),
        forall|ivs: Option<Seq<u8>>, r: Result<AddPlan, Error>| #[trigger]
            add_outcome(a, cipher_type, w, ivs, r) ==> r == Err::<AddPlan, Error>(Error::Locked),
{
}

fn reply(response: Response) -> (r: Reply)
    ensures
        r.response == response,
        r.session is Keep,
        r.clear is None,
{
    Reply { response, session: SessionEffect::Keep, clear: None }
}

fn touch_and_reply(state: &mut AgentState, response: Response, now: Moment) -> (r: Reply)
    ensures
        replied(r, old(state)@, final(state)@, now),
        r.response == response,
{
    let stored: Option<SessionStore> = state.touch(now);
    Reply {
        response,
        session: match stored {
            Some(s) => SessionEffect::Store(s),
            None => SessionEffect::Keep,
        },
        clear: None,
    }
}

fn touch_and_answer(state: &mut AgentState, response: Response, now: Moment) -> (step: Step)
    ensures
        answered(step, old(state)@, final(state)@, now),
        step->Answer_0.response == response,
{
    Step::Answer(touch_and_reply(state, response, now))
}

fn copy_and_reply(state: &mut AgentState, value: String, secs: u64, now: Moment) -> (r: Step)
    ensures
        copy_outcome(r, old(state)@, final(state)@, now, value@, secs),
{
    match state.clipboard_set(value.as_str()) {
        Err(e) => touch_and_answer(state, Response::Error(e), now),
        Ok(()) => {
            let stored: Option<SessionStore> = state.touch(now);
            Step::Answer(
                Reply {
                    response: Response::Copied(Copied { clear_after_secs: secs }),
                    session: match stored {
                        Some(s) => SessionEffect::Store(s),
                        None => SessionEffect::Keep,
                    },
                    clear: if secs == 0 {
                        None
                    } else {
                        Some(ScheduledClear { value, secs })
                    },
                },
            )
        },
    }
}

fn id_text(id: &Option<String>) -> (r: Option<&str>)
    ensures
        crate::vault_agent::state::text_opt(r) == id.deep_view(),
{
    match id {
        Some(s) => Some(s.as_str()),
        None => None,
    }
}

fn field_or_default(field: Option<Field>) -> (r: Field)
    ensures
        r == field_asked(field),
{
    match field {
        Some(f) => f,
        None => Field::default(),
    }
}

/// The field that is asked for: the password where none is named.
pub open spec fn field_asked(field: Option<Field>) -> Field {
    match field {
        Some(f) => f,
        None => Field::Password,
    }
}

/// What the agent does with a request, at a time, where the initialization
/// vectors `ivs` were drawn for it.
pub open spec fn dispatched(
    before: AgentView,
    after: AgentView,
    req: Request,
    now: Moment,
    ivs: Option<Seq<u8>>,
    step: Step,
) -> bool {
    match req {
        Request::Ping | Request::Status => {
            &&& step matches Step::Answer(r) && {
                &&& r.response matches Response::Status(s) && s.deep_view() == status_of(
                    before,
                )
                &&& r.session is Keep
                &&& r.clear is None
            }
            &&& after == before
        },
        Request::Unlock { server, email, password, device_id, api_key, two_factor } => {
            &&& step == Step::Perform(
                Work::Unlock { server, email, password, device_id, api_key, two_factor },
            )
            &&& after == before
        },
        Request::UnlockPin { server, email, pin } => {
            &&& step == Step::Perform(Work::UnlockPin { server, email, pin })
            &&& after == before
        },
        Request::PinSet { pin } => if before.vault is None {
            answered(step, before, after, now) && answers_error(
                step,
                ErrorView::Locked,
            )
        } else {
            step == Step::Perform(Work::PinSet { pin }) && after == before
        },
        Request::PinDisable { server, email } => {
            &&& step == Step::Perform(Work::PinDisable { server, email })
            &&& after == before
        },
        Request::PinStatus { server, email } => {
            &&& step == Step::Perform(Work::PinStatus { server, email })
            &&& after == before
        },
        Request::ApiKeyStatus { server, email } => {
            &&& step == Step::Perform(Work::ApiKeyStatus { server, email })
            &&& after == before
        },
        Request::ApiKeyForget { server, email } => {
            &&& step == Step::Perform(Work::ApiKeyForget { server, email })
            &&& after == before
        },
        Request::Lock => exists|locked: AgentView| #[trigger]
            locked_from(before, locked) && after == touched(locked, now) && (
            step matches Step::Answer(r) && r.response is Done && r.session is Clear
                && r.clear is None),
        Request::Sync => if before.vault is None {
            answered(step, before, after, now) && answers_error(
                step,
                ErrorView::Locked,
            )
        } else {
            step == Step::Perform(Work::Sync) && after == before
        },
        Request::List => {
            &&& answered(step, before, after, now)
            &&& match before.vault {
                None => answers_error(step, ErrorView::Locked),
                Some(v) => step->Answer_0.response matches Response::List(rows) && row_views(
                    rows@,
                ) == listed(v),
            }
        },
        Request::Get { id, name, field } => {
            &&& answered(step, before, after, now)
            &&& match agent_item(
                before,
                id.deep_view(),
                name@,
                field_asked(field),
                now.unix,
            ) {
                Err(e) => answers_error(step, e),
                Ok(i) => step->Answer_0.response matches Response::Item(x) && x.deep_view()
                    == i,
            }
        },
        Request::Copy { id, name, field, clear_after_secs } => match agent_item(
            before,
            id.deep_view(),
            name@,
            field_asked(field),
            now.unix,
        ) {
            Err(e) => answered(step, before, after, now) && answers_error(step, e),
            Ok(i) => copy_outcome(
                step,
                before,
                after,
                now,
                i.value,
                clear_after(clear_after_secs, before),
            ),
        },
        Request::CopyText { text, clear_after_secs } => match copy_text_asked(
            before,
            text@,
        ) {
            Err(e) => answered(step, before, after, now) && answers_error(step, e),
            Ok(value) => copy_outcome(
                step,
                before,
                after,
                now,
                value,
                clear_after(clear_after_secs, before),
            ),
        },
        Request::Remove { selector } => match removal(before, selector@) {
            Err(e) => answered(step, before, after, now) && answers_error(step, e),
            Ok(w) => (step matches Step::Perform(Work::Remove(p)) && p.deep_view() == w)
                && after == before,
        },
        Request::Add {
            name,
            cipher_type,
            folder,
            notes,
            username,
            password,
            totp,
            uri,
            card,
            identity,
        } => {
            let w = CipherWrite {
                name: Some(name),
                folder,
                notes,
                username,
                password,
                totp,
                uri,
                card,
                identity,
            };
            match step {
                Step::Perform(Work::Add(p)) => add_outcome(
                    before,
                    cipher_type,
                    w,
                    ivs,
                    Ok(p),
                ) && after == before,
                _ => answered(step, before, after, now) && (
                step->Answer_0.response matches Response::Error(e) && add_outcome(
                    before,
                    cipher_type,
                    w,
                    ivs,
                    Err(e),
                )),
            }
        },
        Request::Edit {
            selector,
            name,
            folder,
            notes,
            username,
            password,
            totp,
            uri,
            card,
            identity,
        } => {
            let w = CipherWrite {
                name,
                folder,
                notes,
                username,
                password,
                totp,
                uri,
                card,
                identity,
            };
            match step {
                Step::Perform(Work::Edit(p)) => edit_outcome(
                    before,
                    selector@,
                    w,
                    ivs,
                    Ok(p),
                ) && after == before,
                _ => answered(step, before, after, now) && (
                step->Answer_0.response matches Response::Error(e) && edit_outcome(
                    before,
                    selector@,
                    w,
                    ivs,
                    Err(e),
                )),
            }
        },
        Request::Quit => exists|locked: AgentView| #[trigger]
            locked_from(before, locked) && after == (AgentView {
                shutdown_requested: true,
                ..locked
            }) && (step matches Step::Answer(r) && r.response is Done && r.session is Keep
                && r.clear is None),
    }
}

/// What the agent does with a request, at a time, with fresh initialization
/// vectors.
pub fn dispatch(state: &mut AgentState, req: Request, now: Moment) -> (step: Step)
    ensures
        exists|ivs: Option<Seq<u8>>|
            enough_ivs(ivs) && #[trigger] dispatched(
                old(state)@,
                final(state)@,
                req,
                now,
                ivs,
                step,
            ),
{
    let ivs: Option<Vec<u8>> = draw_ivs();
    let step: Step = dispatch_with(state, req, now, &ivs);
    assert(dispatched(old(state)@, state@, req, now, drawn(ivs), step));
    step
}

/// What the agent does with a request, at a time, with the initialization
/// vectors that were drawn for it.
pub fn dispatch_with(state: &mut AgentState, req: Request, now: Moment, ivs: &Option<Vec<u8>>) -> (
step: Step)
    requires
        enough_ivs(drawn(*ivs)),
    ensures
        dispatched(old(state)@, final(state)@, req, now, drawn(*ivs), step),
{
    match req {
        Request::Ping | Request::Status => Step::Answer(
            reply(Response::Status(state.status_snapshot())),
        ),
        Request::Unlock { server, email, password, device_id, api_key, two_factor } => {
            Step::Perform(
                Work::Unlock { server, email, password, device_id, api_key, two_factor },
            )
        },
        Request::UnlockPin { server, email, pin } => Step::Perform(
            Work::UnlockPin { server, email, pin },
        ),
        Request::PinSet { pin } => {
            if state.is_unlocked() {
                Step::Perform(Work::PinSet { pin })
            } else {
                touch_and_answer(state, Response::Error(Error::Locked), now)
            }
        },
        Request::PinDisable { server, email } => Step::Perform(Work::PinDisable { server, email }),
        Request::PinStatus { server, email } => Step::Perform(Work::PinStatus { server, email }),
        Request::ApiKeyStatus { server, email } => Step::Perform(
            Work::ApiKeyStatus { server, email },
        ),
        Request::ApiKeyForget { server, email } => Step::Perform(
            Work::ApiKeyForget { server, email },
        ),
        Request::Lock => {
            let session: SessionEffect = state.lock_and_clear_session();
            assert(locked_from(old(state)@, state@));
            let _ = state.touch(now);
            Step::Answer(Reply { response: Response::Done, session, clear: None })
        },
        Request::Sync => {
            if state.is_unlocked() {
                Step::Perform(Work::Sync)
            } else {
                touch_and_answer(state, Response::Error(Error::Locked), now)
            }
        },
        Request::List => {
            let response: Response = match state.list_entries() {
                Ok(rows) => Response::List(rows),
                Err(e) => Response::Error(e),
            };
            touch_and_answer(state, response, now)
        },
        Request::Get { id, name, field } => {
            let response: Response = match state.get_item_at(
                id_text(&id),
                name.as_str(),
                field_or_default(field),
                now.unix,
            ) {
                Ok(item) => Response::Item(item),
                Err(e) => Response::Error(e),
            };
            touch_and_answer(state, response, now)
        },
        Request::Copy { id, name, field, clear_after_secs } => {
            let secs: u64 = match clear_after_secs {
                Some(s) => s,
                None => state.clipboard_clear_secs,
            };
            match state.get_item_at(
                id_text(&id),
                name.as_str(),
                field_or_default(field),
                now.unix,
            ) {
                Ok(item) => copy_and_reply(state, item.value.clone(), secs, now),
                Err(e) => touch_and_answer(state, Response::Error(e), now),
            }
        },
        Request::CopyText { text, clear_after_secs } => {
            let secs: u64 = match clear_after_secs {
                Some(s) => s,
                None => state.clipboard_clear_secs,
            };
            if !state.is_unlocked() {
                return touch_and_answer(state, Response::Error(Error::Locked), now);
            }
            let fault: String = utf8_fault_text(text.as_slice());
            match utf8_text(text) {
                Some(value) => copy_and_reply(state, value, secs, now),
                None => touch_and_answer(
                    state,
                    Response::Error(
                        Error::Internal(
                            prefixed("copy text is not valid UTF-8: ", fault.as_str()),
                        ),
                    ),
                    now,
                ),
            }
        },
        Request::Remove { selector } => match state.remove_cipher(selector.as_str()) {
            Ok(plan) => Step::Perform(Work::Remove(plan)),
            Err(e) => touch_and_answer(state, Response::Error(e), now),
        },
        Request::Add {
            name,
            cipher_type,
            folder,
            notes,
            username,
            password,
            totp,
            uri,
            card,
            identity,
        } => {
            let w: CipherWrite = CipherWrite {
                name: Some(name),
                folder,
                notes,
                username,
                password,
                totp,
                uri,
                card,
                identity,
            };
            match state.add_cipher_with(cipher_type, w, ivs) {
                Ok(plan) => Step::Perform(Work::Add(plan)),
                Err(e) => touch_and_answer(state, Response::Error(e), now),
            }
        },
        Request::Edit {
            selector,
            name,
            folder,
            notes,
            username,
            password,
            totp,
            uri,
            card,
            identity,
        } => {
            let w: CipherWrite = CipherWrite {
                name,
                folder,
                notes,
                username,
                password,
                totp,
                uri,
                card,
                identity,
            };
            match state.edit_cipher_with(selector.as_str(), w, ivs) {
                Ok(plan) => Step::Perform(Work::Edit(plan)),
                Err(e) => touch_and_answer(state, Response::Error(e), now),
            }
        },
        Request::Quit => {
            state.lock();
            assert(locked_from(old(state)@, state@));
            state.shutdown_requested = true;
            Step::Answer(reply(Response::Done))
        },
    }
}

fn outcome_response(r: Result<(), Error>) -> (out: Response)
    ensures
        r is Ok ==> out is Done,
        r matches Err(e) ==> out == Response::Error(e),
{
    match r {
        Ok(()) => Response::Done,
        Err(e) => Response::Error(e),
    }
}

/// The answer once a vault was unlocked, or was not.
pub fn unlock_done(state: &mut AgentState, unlocked: Result<Vault, Error>, now: Moment) -> (r:
    Reply)
    ensures
        r.clear is None,
        unlocked matches Err(e) ==> r.response == Response::Error(e) && r.session is Keep && final(state)@
            == old(state)@,
        unlocked matches Ok(v) ==> r.response is Done && final(state)@ == unlocked_with(
            old(state)@,
            v.deep_view(),
            now,
        ) && stores(
            r.session,
            session_of(AgentView { vault: Some(v.deep_view()), ..old(state)@ }, now),
        ),
{
    match unlocked {
        Err(e) => reply(Response::Error(e)),
        Ok(v) => {
            state.install(v);
            let stored: Option<SessionStore> = state.persist_session(now);
            let _ = state.touch(now);
            Reply {
                response: Response::Done,
                session: match stored {
                    Some(s) => SessionEffect::Store(s),
                    None => SessionEffect::Keep,
                },
                clear: None,
            }
        },
    }
}

/// The answer once a PIN was stored, or was not.
pub fn pin_set_done(state: &mut AgentState, stored: Result<(), Error>, now: Moment) -> (r: Reply)
    ensures
        replied(r, old(state)@, final(state)@, now),
        stored is Ok ==> r.response is Done,
        stored matches Err(e) ==> r.response == Response::Error(e),
{
    touch_and_reply(state, outcome_response(stored), now)
}

/// The answer once a file of an account was changed, or was not. The agent's
/// own state has no part in it.
pub fn account_done(changed: Result<(), Error>) -> (r: Reply)
    ensures
        changed is Ok ==> r.response is Done,
        changed matches Err(e) ==> r.response == Response::Error(e),
        r.session is Keep,
        r.clear is None,
{
    reply(outcome_response(changed))
}

/// The answer once the vault was fetched, or was not.
pub fn sync_done(
    state: &mut AgentState,
    answer: Result<SyncResponse, Error>,
    stamp: Option<String>,
    now: Moment,
) -> (r: Reply)
    ensures
        answer matches Err(e) ==> replied(r, old(state)@, final(state)@, now)
            && r.response == Response::Error(e),
        answer matches Ok(sync) ==> match old(state)@.vault {
            None => replied(r, old(state)@, final(state)@, now) && replies_error(
                r,
                ErrorView::Locked,
            ),
            Some(v) => {
                let synced = AgentView {
                    vault: Some(
                        VaultView {
                            ciphers: sync_items(sync.ciphers@),
                            folders: sync_folders(sync.folders@, v.user_enc, v.user_mac),
                            org_keys: sync_org_keys(sync, v.user_enc, v.user_mac),
                            last_sync: stamp.deep_view(),
                            ..v
                        },
                    ),
                    ..old(state)@
                };
                &&& replied(r, synced, final(state)@, now)
                &&& r.response matches Response::Status(s) && s.deep_view()
                    == status_of(synced)
            },
        },
{
    let response: Response = match answer {
        Err(e) => Response::Error(e),
        Ok(sync) => match state.resync(&sync, stamp) {
            Err(e) => Response::Error(e),
            Ok(()) => Response::Status(state.status_snapshot()),
        },
    };
    touch_and_reply(state, response, now)
}

/// The answer once an item was deleted at the server, or was not.
pub fn remove_done(
    state: &mut AgentState,
    plan: RemovePlan,
    answer: Result<(), Error>,
    now: Moment,
) -> (r: Reply)
    requires
        old(state)@.vault is Some ==> plan.index < old(state)@.vault->Some_0.ciphers.len(),
    ensures
        answer matches Err(e) ==> replied(r, old(state)@, final(state)@, now)
            && r.response == Response::Error(e),
        answer is Ok && old(state)@.vault is None ==> replied(
            r,
            old(state)@,
            final(state)@,
            now,
        ) && replies_error(r, ErrorView::Locked),
        answer is Ok ==> (old(state)@.vault matches Some(v) ==> {
            let removed = AgentView {
                vault: Some(VaultView { ciphers: v.ciphers.remove(plan.index as int), ..v }),
                ..old(state)@
            };
            &&& replied(r, removed, final(state)@, now)
            &&& r.response matches Response::Removed(d) && d.deep_view() == (
            NamedView { id: plan.id@, name: plan.name@ })
        }),
{
    let response: Response = match state.remove_done(plan, answer) {
        Ok(d) => Response::Removed(d),
        Err(e) => Response::Error(e),
    };
    touch_and_reply(state, response, now)
}

/// The answer once an item was created at the server, or was not.
pub fn add_done(
    state: &mut AgentState,
    plan: AddPlan,
    answer: Result<String, Error>,
    now: Moment,
) -> (r: Reply)
    ensures
        answer matches Err(e) ==> replied(r, old(state)@, final(state)@, now)
            && r.response == Response::Error(e),
        answer is Ok && old(state)@.vault is None ==> replied(
            r,
            old(state)@,
            final(state)@,
            now,
        ) && replies_error(r, ErrorView::Locked),
        answer matches Ok(id) ==> (old(state)@.vault matches Some(v) ==> {
            let added = AgentView {
                vault: Some(
                    VaultView {
                        ciphers: v.ciphers.push(
                            CipherView { id: id@, ..plan.cipher.deep_view() },
                        ),
                        ..v
                    },
                ),
                ..old(state)@
            };
            &&& replied(r, added, final(state)@, now)
            &&& r.response matches Response::Saved(s) && s.deep_view() == (NamedView {
                id: id@,
                name: plan.name@,
            })
        }),
{
    let response: Response = match state.add_done(plan, answer) {
        Ok(s) => Response::Saved(s),
        Err(e) => Response::Error(e),
    };
    touch_and_reply(state, response, now)
}

/// The answer once an item was changed at the server, or was not.
pub fn edit_done(
    state: &mut AgentState,
    plan: EditPlan,
    answer: Result<(), Error>,
    now: Moment,
) -> (r: Reply)
    requires
        old(state)@.vault is Some ==> plan.index < old(state)@.vault->Some_0.ciphers.len(),
    ensures
        answer matches Err(e) ==> replied(r, old(state)@, final(state)@, now)
            && r.response == Response::Error(e),
        answer is Ok && old(state)@.vault is None ==> replied(
            r,
            old(state)@,
            final(state)@,
            now,
        ) && replies_error(r, ErrorView::Locked),
        answer is Ok ==> (old(state)@.vault matches Some(v) ==> match opened_name(
            plan.cipher.deep_view(),
            v.user_enc,
            v.user_mac,
        ) {
            Err(x) => replied(r, old(state)@, final(state)@, now) && replies_error(
                r,
                ErrorView::Decrypt(error_text(x)),
            ),
            Ok(name) => {
                let changed = AgentView {
                    vault: Some(
                        VaultView {
                            ciphers: v.ciphers.update(
                                plan.index as int,
                                plan.cipher.deep_view(),
                            ),
                            ..v
                        },
                    ),
                    ..old(state)@
                };
                &&& replied(r, changed, final(state)@, now)
                &&& r.response matches Response::Saved(s) && s.deep_view() == (
                NamedView {
                    id: plan.cipher.id@,
                    name: match name {
                        Some(n) => n,
                        None => Seq::empty(),
                    },
                })
            },
        }),
{
    let response: Response = match state.edit_done(plan, answer) {
        Ok(s) => Response::Saved(s),
        Err(e) => Response::Error(e),
    };
    touch_and_reply(state, response, now)
}

/// Locks the agent where it has been without a request for so long, and says
/// whether it did. The stored session is then cleared too, unless a
/// fingerprint is asked for before it is resumed.
pub fn idle_tick(state: &mut AgentState, now_ms: u64) -> (r: (bool, SessionEffect))
    ensures
        r.0 == idle_due(old(state)@, now_ms),
        !r.0 ==> final(state)@ == old(state)@ && r.1 is Keep,
        r.0 ==> locked_from(old(state)@, final(state)@) && (if old(state)@.fingerprint_unlock {
            r.1 is Keep
        } else {
            r.1 is Clear
        }),
{
    if !state.idle_lock_due(now_ms) {
        return (false, SessionEffect::Keep);
    }
    let keep: bool = state.fingerprint_unlock;
    state.lock();
    (
        true,
        if keep {
            SessionEffect::Keep
        } else {
            SessionEffect::Clear
        },
    )
}

/// What a sync in the background is to do.
#[derive(Clone, Copy, Debug, PartialEq, Eq, Structural)]
pub enum SyncTick {
    /// End: the agent shuts down.
    Stop,
    /// Nothing: the agent is locked.
    Skip,
    /// Fetch the vault.
    Sync,
}

/// What a sync in the background is to do.
pub fn sync_tick(state: &AgentState) -> (r: SyncTick)
    ensures
        r == (if state@.shutdown_requested {
            SyncTick::Stop
        } else if state@.vault is Some {
            SyncTick::Sync
        } else {
            SyncTick::Skip
        }),
{
    if state.shutdown_requested {
        SyncTick::Stop
    } else if state.is_unlocked() {
        SyncTick::Sync
    } else {
        SyncTick::Skip
    }
}

/// Asking for a field answers what reading that field of the item in the open
/// vault gives, the password where no field is named. The vault stays as it is
/// and the request is noted.
pub proof fn get_answers_the_field(
    before: AgentView,
    after: AgentView,
    id: Option<String>,
    name: String,
    field: Option<Field>,
    now: Moment,
    ivs: Option<Seq<u8>>,
    step: Step,
)
    requires
        dispatched(before, after, Request::Get { id, name, field }, now, ivs, step),
    ensures
        after.vault == before.vault,
        after.clipboard == before.clipboard,
        after.last_copied == before.last_copied,
        after.last_activity == now.ms,
        step matches Step::Answer(r) && r.clear is None && !(r.session is Clear) && match before.vault {
            None => replies_error(r, ErrorView::Locked),
            Some(v) => {
                let f = match field {
                    Some(f) => f,
                    None => Field::Password,
                };
                match item_read(v, id.deep_view(), name@, f, now.unix) {
                    Ok(i) => r.response matches Response::Item(x) && x.deep_view() == i,
                    Err(e) => replies_error(r, e),
                }
            },
        },
{
}

/// Asking for the list answers the rows of the open vault.
pub proof fn list_answers_the_rows(
    before: AgentView,
    after: AgentView,
    now: Moment,
    ivs: Option<Seq<u8>>,
    step: Step,
)
    requires
        dispatched(before, after, Request::List, now, ivs, step),
    ensures
        after.vault == before.vault,
        after.clipboard == before.clipboard,
        after.last_activity == now.ms,
        step matches Step::Answer(r) && r.clear is None && !(r.session is Clear) && match before.vault {
            None => replies_error(r, ErrorView::Locked),
            Some(v) => r.response matches Response::List(rows) && row_views(rows@) == listed(v),
        },
{
}

/// `a` becomes `b` by writing `value` to the clipboard once, which succeeded or
/// not; with success the answer tells after how many seconds the value is
/// cleared, and the clearing is scheduled for then, never where that is zero.
pub open spec fn copies(
    a: AgentView,
    b: AgentView,
    now: Moment,
    value: Seq<char>,
    secs: u64,
    step: Step,
) -> bool {
    &&& step is Answer
    &&& b.vault == a.vault
    &&& b.last_activity == now.ms
    &&& match a.clipboard {
        None => {
            &&& replies_error(step->Answer_0, ErrorView::ClipboardUnavailable)
            &&& step->Answer_0.clear is None
            &&& b.clipboard is None
            &&& b.last_copied == a.last_copied
        },
        Some(c) => {
            let r = step->Answer_0;
            &&& b.clipboard matches Some(d) && d.label == c.label && match r.response {
                Response::Error(e) => {
                    &&& d.calls == c.calls.push(ClipboardCall::Wrote(value, Err(e.deep_view())))
                    &&& b.last_copied == a.last_copied
                    &&& r.clear is None
                },
                Response::Copied(told) => {
                    &&& d.calls == c.calls.push(ClipboardCall::Wrote(value, Ok(())))
                    &&& b.last_copied == Some(value)
                    &&& told.clear_after_secs == secs
                    &&& r.clear is None <==> secs == 0
                    &&& r.clear matches Some(s) ==> s.value@ == value && s.secs == secs
                },
                _ => false,
            }
        },
    }
}

/// Copying a field writes to the clipboard what reading it gives, and clears it
/// after the seconds asked for, those of the agent where none are.
pub proof fn copy_writes_the_field(
    before: AgentView,
    after: AgentView,
    id: Option<String>,
    name: String,
    field: Option<Field>,
    clear_after_secs: Option<u64>,
    now: Moment,
    ivs: Option<Seq<u8>>,
    step: Step,
)
    requires
        dispatched(
            before,
            after,
            Request::Copy { id, name, field, clear_after_secs },
            now,
            ivs,
            step,
        ),
    ensures
        ({
            let f = match field {
                Some(f) => f,
                None => Field::Password,
            };
            let secs = match clear_after_secs {
                Some(s) => s,
                None => before.clipboard_clear_secs,
            };
            match before.vault {
                None => answers_error(step, ErrorView::Locked) && after.clipboard
                    == before.clipboard,
                Some(v) => match item_read(v, id.deep_view(), name@, f, now.unix) {
                    Ok(i) => copies(before, after, now, i.value, secs, step),
                    Err(e) => answers_error(step, e) && after.clipboard == before.clipboard,
                },
            }
        }),
{
}

/// Copying a text writes it to the clipboard where it is UTF-8 and a vault is
/// open, and clears it after the seconds asked for, those of the agent where
/// none are.
pub proof fn copy_writes_the_text(
    before: AgentView,
    after: AgentView,
    text: Vec<u8>,
    clear_after_secs: Option<u64>,
    now: Moment,
    ivs: Option<Seq<u8>>,
    step: Step,
)
    requires
        dispatched(before, after, Request::CopyText { text, clear_after_secs }, now, ivs, step),
    ensures
        ({
            let secs = match clear_after_secs {
                Some(s) => s,
                None => before.clipboard_clear_secs,
            };
            if before.vault is Some && valid_utf8(text@) {
                copies(before, after, now, decode_utf8(text@), secs, step)
            } else {
                &&& after.clipboard == before.clipboard
                &&& step matches Step::Answer(r) && r.response matches Response::Error(e) && (
                before.vault is None <==> e.deep_view() == ErrorView::Locked)
            }
        }),
{
}

/// Locking leaves no vault open and clears the stored session; quitting leaves
/// no vault open, keeps the stored session, and ends the agent.
pub proof fn locking_and_quitting_close_the_vault(
    before: AgentView,
    after: AgentView,
    quit: bool,
    now: Moment,
    ivs: Option<Seq<u8>>,
    step: Step,
)
    requires
        dispatched(
            before,
            after,
            if quit { Request::Quit } else { Request::Lock },
            now,
            ivs,
            step,
        ),
    ensures
        after.vault is None,
        after.last_copied is None,
        quit ==> after.shutdown_requested,
        !quit ==> after.shutdown_requested == before.shutdown_requested,
        !quit ==> after.last_activity == now.ms,
        step matches Step::Answer(r) && r.response is Done && r.clear is None && (if quit {
            r.session is Keep
        } else {
            r.session is Clear
        }),
{
}

/// Asking for the state answers it and changes nothing.
pub proof fn asking_for_the_state_changes_nothing(
    before: AgentView,
    after: AgentView,
    ping: bool,
    now: Moment,
    ivs: Option<Seq<u8>>,
    step: Step,
)
    requires
        dispatched(
            before,
            after,
            if ping { Request::Ping } else { Request::Status },
            now,
            ivs,
            step,
        ),
    ensures
        after == before,
        step matches Step::Answer(r) && r.session is Keep && r.clear is None && (
        r.response matches Response::Status(s) && {
            &&& s.unlocked == (before.vault is Some)
            &&& s.server.deep_view() == (match before.vault {
                Some(v) => Some(v.server),
                None => None,
            })
            &&& s.email.deep_view() == (match before.vault {
                Some(v) => Some(v.email),
                None => None,
            })
            &&& s.last_sync.deep_view() == (match before.vault {
                Some(v) => v.last_sync,
                None => None,
            })
        }),
{
}

/// Unlocking is work of the outside, for the account and with the secret that
/// were given, whatever state the agent is in; so is everything asked of an
/// account's files.
pub proof fn account_work_is_handed_on(
    before: AgentView,
    after: AgentView,
    req: Request,
    now: Moment,
    ivs: Option<Seq<u8>>,
    step: Step,
)
    requires
        dispatched(before, after, req, now, ivs, step),
    ensures
        req matches Request::Unlock { server, email, password, device_id, api_key, two_factor }
            ==> after == before && step == Step::Perform(
            Work::Unlock { server, email, password, device_id, api_key, two_factor },
        ),
        req matches Request::UnlockPin { server, email, pin } ==> after == before && step
            == Step::Perform(Work::UnlockPin { server, email, pin }),
        req matches Request::PinDisable { server, email } ==> after == before && step
            == Step::Perform(Work::PinDisable { server, email }),
        req matches Request::PinStatus { server, email } ==> after == before && step
            == Step::Perform(Work::PinStatus { server, email }),
        req matches Request::ApiKeyStatus { server, email } ==> after == before && step
            == Step::Perform(Work::ApiKeyStatus { server, email }),
        req matches Request::ApiKeyForget { server, email } ==> after == before && step
            == Step::Perform(Work::ApiKeyForget { server, email }),
{
}

/// A locked agent answers whatever needs the vault that it is locked, and an
/// open one has a PIN stored, the vault fetched and the item that is named
/// deleted.
pub proof fn vault_work_needs_an_open_vault(
    before: AgentView,
    after: AgentView,
    req: Request,
    now: Moment,
    ivs: Option<Seq<u8>>,
    step: Step,
)
    requires
        dispatched(before, after, req, now, ivs, step),
    ensures
        before.vault is None && (req is PinSet || req is Sync || req is List || req is Get
            || req is Copy || req is CopyText || req is Remove || req is Add || req is Edit) ==> {
            &&& step matches Step::Answer(r) && r.response == Response::Error(Error::Locked)
            &&& after.vault is None
            &&& after.clipboard == before.clipboard
        },
        before.vault is Some ==> (req matches Request::PinSet { pin } ==> after == before && step
            == Step::Perform(Work::PinSet { pin })),
        before.vault is Some && req is Sync ==> after == before && step == Step::Perform(
            Work::Sync,
        ),
        req matches Request::Remove { selector } ==> match removal(before, selector@) {
            Ok(w) => after == before && (step matches Step::Perform(Work::Remove(p))
                && p.index == w.index && p.id@ == w.id && p.name@ == w.name),
            Err(e) => after.vault == before.vault && answers_error(step, e),
        },
{
    if before.vault is None {
        if let Step::Answer(r) = step {
            if let Response::Error(e) = r.response {
                assert(e is Locked);
            }
        }
    }
}

/// Creating an item hands the outside what was asked to be written, each part
/// in its place, and changing one does too. No request but locking and quitting
/// touches the open vault before the outside has done its work.
pub proof fn writes_are_handed_on(
    before: AgentView,
    after: AgentView,
    req: Request,
    now: Moment,
    ivs: Option<Seq<u8>>,
    step: Step,
)
    requires
        dispatched(before, after, req, now, ivs, step),
    ensures
        !(req is Lock) && !(req is Quit) ==> after.vault == before.vault,
        req is Add || req is Edit ==> after.clipboard == before.clipboard,
        req matches Request::Add {
            name,
            cipher_type,
            folder,
            notes,
            username,
            password,
            totp,
            uri,
            card,
            identity,
        } ==> exists|w: CipherWrite, p: Result<AddPlan, Error>|
            {
                &&& #[trigger] add_outcome(before, cipher_type, w, ivs, p)
                &&& w.name == Some(name)
                &&& w.folder == folder
                &&& w.notes == notes
                &&& w.username == username
                &&& w.password == password
                &&& w.totp == totp
                &&& w.uri == uri
                &&& w.card == card
                &&& w.identity == identity
                &&& match p {
                    Ok(p) => step == Step::Perform(Work::Add(p)),
                    Err(e) => step matches Step::Answer(r) && r.response == Response::Error(e),
                }
            },
        req matches Request::Edit {
            selector,
            name,
            folder,
            notes,
            username,
            password,
            totp,
            uri,
            card,
            identity,
        } ==> exists|w: CipherWrite, p: Result<EditPlan, Error>|
            {
                &&& #[trigger] edit_outcome(before, selector@, w, ivs, p)
                &&& w.name == name
                &&& w.folder == folder
                &&& w.notes == notes
                &&& w.username == username
                &&& w.password == password
                &&& w.totp == totp
                &&& w.uri == uri
                &&& w.card == card
                &&& w.identity == identity
                &&& match p {
                    Ok(p) => step == Step::Perform(Work::Edit(p)),
                    Err(e) => step matches Step::Answer(r) && r.response == Response::Error(e),
                }
            },
{
    match req {
        Request::Add {
            name,
            cipher_type,
            folder,
            notes,
            username,
            password,
            totp,
            uri,
            card,
            identity,
        } => {
            let w = CipherWrite {
                name: Some(name),
                folder,
                notes,
                username,
                password,
                totp,
                uri,
                card,
                identity,
            };
            let p = match step {
                Step::Perform(Work::Add(p)) => Ok(p),
                _ => Err(step->Answer_0.response->Error_0),
            };
            assert(add_outcome(before, cipher_type, w, ivs, p));
        },
        Request::Edit {
            selector,
            name,
            folder,
            notes,
            username,
            password,
            totp,
            uri,
            card,
            identity,
        } => {
            let w = CipherWrite {
                name,
                folder,
                notes,
                username,
                password,
                totp,
                uri,
                card,
                identity,
            };
            let p = match step {
                Step::Perform(Work::Edit(p)) => Ok(p),
                _ => Err(step->Answer_0.response->Error_0),
            };
            assert(edit_outcome(before, selector@, w, ivs, p));
        },
        _ => {},
    }
}

/// Unlocking opens the vault that was given, at the time of the request. Where
/// sessions are stored, the session is taken to have been stored then.
pub proof fn unlocking_opens_the_vault(a: AgentView, v: VaultView, now: Moment)
    ensures
        ({
            let open = unlocked_with(a, v, now);
            &&& open.vault == Some(v)
            &&& open.last_activity == now.ms
            &&& a.session_keyring ==> open.last_session_refresh == Some(now.ms)
            &&& !a.session_keyring ==> open.last_session_refresh == a.last_session_refresh
            &&& open == (AgentView {
                vault: Some(v),
                last_activity: now.ms,
                last_session_refresh: open.last_session_refresh,
                ..a
            })
        }),
{
}

} // verus!
