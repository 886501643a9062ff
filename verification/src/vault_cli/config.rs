//! The user's settings: a value, or none, under each of a fixed set of keys.
use vstd::prelude::*;
use vstd::string::*;
use crate::text::{
    chars_of, decimal, decimal_parses_back, decimal_text, join, join_texts, lowercase,
    parse_bounded, parse_uint, same_text, texts, to_lower, trim, trimmed,
};
use crate::vault_agent::clipboard::{choice_name, BackendChoice};
use crate::vault_api::client::{account_email, email_is_lowercase_and_trimmed};
use crate::vault_api::device::{draw_id, fresh_device, fresh_id, id_bytes};
use crate::vault_core::error::{prefixed, Error};

verus! {

/// The user's settings.
#[derive(Clone, Debug, PartialEq, Eq)]
pub struct Config {
    /// Clipboard settings.
    pub clipboard: ClipboardCfg,
    /// Agent settings.
    pub agent: AgentCfg,
    /// Sync settings.
    pub sync: SyncCfg,
    /// Settings of all interfaces.
    pub ui: UiCfg,
    /// Settings of the full-screen interface.
    pub tui: TuiCfg,
    /// The registered account.
    pub account: AccountCfg,
}

/// Clipboard settings.
#[derive(Clone, Copy, Debug, PartialEq, Eq, Structural)]
pub struct ClipboardCfg {
    /// Seconds after which a copied value is cleared; zero for never.
    pub clear_secs: Option<u64>,
    /// Which clipboard to use.
    pub backend: Option<BackendChoice>,
}

/// Agent settings.
#[derive(Clone, Copy, Debug, PartialEq, Eq, Structural)]
pub struct AgentCfg {
    /// Seconds without a request after which the agent locks; zero for never.
    pub idle_lock_secs: Option<u64>,
    /// Whether sessions are stored so that a new agent can resume them.
    pub session_keyring: Option<bool>,
}

/// Sync settings.
#[derive(Clone, Copy, Debug, PartialEq, Eq, Structural)]
pub struct SyncCfg {
    /// Seconds between two syncs in the background; zero for none.
    pub interval_secs: Option<u64>,
}

/// Settings of all interfaces.
#[derive(Clone, Copy, Debug, PartialEq, Eq, Structural)]
pub struct UiCfg {
    /// Whether to do without animation.
    pub reduced_motion: Option<bool>,
}

/// Settings of the full-screen interface.
#[derive(Clone, Copy, Debug, PartialEq, Eq, Structural)]
pub struct TuiCfg {
    /// Whether to use the keys of vi.
    pub vim: Option<bool>,
}

/// The registered account.
#[derive(Clone, Debug, PartialEq, Eq)]
pub struct AccountCfg {
    /// Server origin.
    pub server: Option<String>,
    /// Email, in lower case.
    pub email: Option<String>,
    /// Stable identifier of this device.
    pub device_id: Option<String>,
}

/// What an [`AccountCfg`] holds.
pub struct AccountView {
    /// Server origin.
    pub server: Option<Seq<char>>,
    /// Email.
    pub email: Option<Seq<char>>,
    /// Stable identifier of this device.
    pub device_id: Option<Seq<char>>,
}

impl DeepView for AccountCfg {
    type V = AccountView;

    open spec fn deep_view(&self) -> AccountView {
        AccountView {
            server: self.server.deep_view(),
            email: self.email.deep_view(),
            device_id: self.device_id.deep_view(),
        }
    }
}

impl Default for AccountCfg {
    fn default() -> (r: Self)
        ensures
            r.server is None,
            r.email is None,
            r.device_id is None,
    {
        AccountCfg { server: None, email: None, device_id: None }
    }
}

impl Default for Config {
    fn default() -> (r: Self)
        ensures
            forall|k: Key| #[trigger] setting(r, k) is None,
            r.account.deep_view() == (AccountView { server: None, email: None, device_id: None }),
    {
        Config {
            clipboard: ClipboardCfg { clear_secs: None, backend: None },
            agent: AgentCfg { idle_lock_secs: None, session_keyring: None },
            sync: SyncCfg { interval_secs: None },
            ui: UiCfg { reduced_motion: None },
            tui: TuiCfg { vim: None },
            account: AccountCfg::default(),
        }
    }
}

/// A key.
#[derive(Clone, Copy, Debug, PartialEq, Eq, Structural)]
pub enum Key {
    /// `clipboard.clear_secs`
    ClearSecs,
    /// `agent.idle_lock_secs`
    IdleLockSecs,
    /// `sync.interval_secs`
    IntervalSecs,
    /// `clipboard.backend`
    Backend,
    /// `agent.session_keyring`
    SessionKeyring,
    /// `ui.reduced_motion`
    ReducedMotion,
    /// `tui.vim`
    Vim,
}

/// A value.
#[derive(Clone, Copy, Debug, PartialEq, Eq, Structural)]
pub enum Value {
    /// A number.
    Number(u64),
    /// Yes or no.
    Flag(bool),
    /// A clipboard.
    Backend(BackendChoice),
}

/// The name of a key.
pub open spec fn key_name(k: Key) -> Seq<char> {
    match k {
        Key::ClearSecs => "clipboard.clear_secs"@,
        Key::IdleLockSecs => "agent.idle_lock_secs"@,
        Key::IntervalSecs => "sync.interval_secs"@,
        Key::Backend => "clipboard.backend"@,
        Key::SessionKeyring => "agent.session_keyring"@,
        Key::ReducedMotion => "ui.reduced_motion"@,
        Key::Vim => "tui.vim"@,
    }
}

/// The keys in the order in which they are told.
pub open spec fn all_keys() -> Seq<Key> {
    seq![
        Key::ClearSecs,
        Key::IdleLockSecs,
        Key::IntervalSecs,
        Key::Backend,
        Key::SessionKeyring,
        Key::ReducedMotion,
        Key::Vim,
    ]
}

/// The names of the keys in the order in which they are told.
pub open spec fn all_names() -> Seq<Seq<char>> {
    all_keys().map_values(|k: Key| key_name(k))
}

/// The key with a name, if there is one.
pub open spec fn key_named(s: Seq<char>) -> Option<Key> {
    if s == key_name(Key::ClearSecs) {
        Some(Key::ClearSecs)
    } else if s == key_name(Key::IdleLockSecs) {
        Some(Key::IdleLockSecs)
    } else if s == key_name(Key::IntervalSecs) {
        Some(Key::IntervalSecs)
    } else if s == key_name(Key::Backend) {
        Some(Key::Backend)
    } else if s == key_name(Key::SessionKeyring) {
        Some(Key::SessionKeyring)
    } else if s == key_name(Key::ReducedMotion) {
        Some(Key::ReducedMotion)
    } else if s == key_name(Key::Vim) {
        Some(Key::Vim)
    } else {
        None
    }
}

/// Every key is found by its name.
pub proof fn key_is_found_by_its_name(k: Key)
    ensures
        key_named(key_name(k)) == Some(k),
{
    reveal_strlit("clipboard.clear_secs");
    reveal_strlit("agent.idle_lock_secs");
    reveal_strlit("sync.interval_secs");
    reveal_strlit("clipboard.backend");
    reveal_strlit("agent.session_keyring");
    reveal_strlit("ui.reduced_motion");
    reveal_strlit("tui.vim");
    let s = key_name(k);
    assert("clipboard.clear_secs"@[0] == 'c' && "agent.idle_lock_secs"@[0] == 'a');
    assert("clipboard.backend"@[0] == 'c' && "ui.reduced_motion"@[0] == 'u');
    assert(s.len() == 20 || s.len() == 18 || s.len() == 17 || s.len() == 21 || s.len() == 7);
}

/// The number as a value.
pub open spec fn number(o: Option<u64>) -> Option<Value> {
    match o {
        Some(n) => Some(Value::Number(n)),
        None => None,
    }
}

/// The flag as a value.
pub open spec fn flag(o: Option<bool>) -> Option<Value> {
    match o {
        Some(b) => Some(Value::Flag(b)),
        None => None,
    }
}

/// The value under a key.
pub open spec fn setting(c: Config, k: Key) -> Option<Value> {
    match k {
        Key::ClearSecs => number(c.clipboard.clear_secs),
        Key::IdleLockSecs => number(c.agent.idle_lock_secs),
        Key::IntervalSecs => number(c.sync.interval_secs),
        Key::Backend => match c.clipboard.backend {
            Some(b) => Some(Value::Backend(b)),
            None => None,
        },
        Key::SessionKeyring => flag(c.agent.session_keyring),
        Key::ReducedMotion => flag(c.ui.reduced_motion),
        Key::Vim => flag(c.tui.vim),
    }
}

/// A value as it is told.
pub open spec fn value_text(v: Value) -> Seq<char> {
    match v {
        Value::Number(n) => decimal(n as nat),
        Value::Flag(b) => if b {
            "true"@
        } else {
            "false"@
        },
        Value::Backend(b) => choice_name(b),
    }
}

/// The value that a text stands for under a key, if it stands for one.
pub open spec fn value_of(k: Key, raw: Seq<char>) -> Option<Value> {
    match k {
        Key::ClearSecs | Key::IdleLockSecs | Key::IntervalSecs => match parse_uint(
            raw,
            u64::MAX as nat,
        ) {
            Some(n) => Some(Value::Number(n as u64)),
            None => None,
        },
        Key::Backend => if raw == "auto"@ {
            Some(Value::Backend(BackendChoice::Auto))
        } else if raw == "arboard"@ {
            Some(Value::Backend(BackendChoice::Arboard))
        } else if raw == "osc52"@ {
            Some(Value::Backend(BackendChoice::Osc52))
        } else {
            None
        },
        Key::SessionKeyring | Key::ReducedMotion | Key::Vim => if raw == "true"@ {
            Some(Value::Flag(true))
        } else if raw == "false"@ {
            Some(Value::Flag(false))
        } else {
            None
        },
    }
}

/// What a key wants.
pub open spec fn wanted(k: Key) -> Seq<char> {
    match k {
        Key::ClearSecs | Key::IdleLockSecs | Key::IntervalSecs => "a non-negative integer"@,
        Key::Backend => "auto, arboard or osc52"@,
        Key::SessionKeyring | Key::ReducedMotion | Key::Vim => "true or false"@,
    }
}

/// The message that a text is no value under a key.
pub open spec fn bad_value(k: Key, raw: Seq<char>) -> Seq<char> {
    key_name(k) + ": expected "@ + wanted(k) + ", got '"@ + raw + "'"@
}

/// The message that there is no such key.
pub open spec fn unknown_key_text(s: Seq<char>) -> Seq<char> {
    "unknown config key '"@ + s + "' (known: "@ + join(all_names(), ", "@) + ")"@
}

/// The settings `c` and `d` differ at most under `k`.
pub open spec fn same_but(c: Config, d: Config, k: Key) -> bool {
    &&& c.account == d.account
    &&& forall|j: Key| j != k ==> #[trigger] setting(c, j) == setting(d, j)
}

proof fn values_differ()
    ensures
        "true"@ != "false"@,
        "auto"@ != "arboard"@,
        "auto"@ != "osc52"@,
        "arboard"@ != "osc52"@,
{
    reveal_strlit("true");
    reveal_strlit("false");
    reveal_strlit("auto");
    reveal_strlit("arboard");
    reveal_strlit("osc52");
    assert("true"@.len() != "false"@.len());
    assert("auto"@.len() != "arboard"@.len());
    assert("auto"@.len() != "osc52"@.len());
    assert("arboard"@.len() != "osc52"@.len());
}

/// What was set under a key is what reading it tells: the text that was given,
/// up to a leading `+` and leading zeros of a number.
pub proof fn set_value_reads_back(k: Key, raw: Seq<char>)
    ensures
        value_of(k, raw) matches Some(v) ==> value_of(k, value_text(v)) == Some(v),
{
    values_differ();
    if let Some(v) = value_of(k, raw) {
        if let Value::Number(n) = v {
            decimal_parses_back(n as nat, u64::MAX as nat);
        }
    }
}

fn key_from(s: &str) -> (r: Option<Key>)
    ensures
        r == key_named(s@),
{
    if same_text(s, "clipboard.clear_secs") {
        Some(Key::ClearSecs)
    } else if same_text(s, "agent.idle_lock_secs") {
        Some(Key::IdleLockSecs)
    } else if same_text(s, "sync.interval_secs") {
        Some(Key::IntervalSecs)
    } else if same_text(s, "clipboard.backend") {
        Some(Key::Backend)
    } else if same_text(s, "agent.session_keyring") {
        Some(Key::SessionKeyring)
    } else if same_text(s, "ui.reduced_motion") {
        Some(Key::ReducedMotion)
    } else if same_text(s, "tui.vim") {
        Some(Key::Vim)
    } else {
        None
    }
}

/// The keys that the settings began with, in the order in which they are told.
/// Their value is a number. [`every_key`] gives all that are recognised.
pub fn known_keys() -> (out: Vec<String>)
    ensures
        texts(out@) == all_names().take(2),
{
    let mut out: Vec<String> = Vec::new();
    out.push("clipboard.clear_secs".to_owned());
    out.push("agent.idle_lock_secs".to_owned());
    assert(texts(out@) =~= all_names().take(2));
    out
}

/// All keys, in the order in which they are told.
pub fn every_key() -> (out: Vec<String>)
    ensures
        texts(out@) == all_names(),
{
    let mut out: Vec<String> = known_keys();
    let ghost head = texts(out@);
    assert(head.len() == 2);
    out.push("sync.interval_secs".to_owned());
    out.push("clipboard.backend".to_owned());
    out.push("agent.session_keyring".to_owned());
    out.push("ui.reduced_motion".to_owned());
    out.push("tui.vim".to_owned());
    assert(texts(out@).take(2) =~= head);
    assert(texts(out@) =~= all_names()) by {
        assert forall|i: int| 0 <= i < 7 implies #[trigger] texts(out@)[i] == all_names()[i] by {
            if i < 2 {
                assert(texts(out@)[i] == texts(out@).take(2)[i]);
                assert(all_names()[i] == all_names().take(2)[i]);
            }
        }
    }
    out
}

/// The message that there is no such key.
pub fn unknown_key(key: &str) -> (out: String)
    ensures
        out@ == unknown_key_text(key@),
{
    let mut out: String = prefixed("unknown config key '", key);
    out.append("' (known: ");
    out.append(join_texts(&every_key(), ", ").as_str());
    out.append(")");
    out
}

/// The number that a text stands for, or the message that it stands for none.
pub fn parse_u64(key: &str, raw: &str) -> (r: Result<u64, String>)
    ensures
        match (r, parse_uint(raw@, u64::MAX as nat)) {
            (Ok(n), Some(m)) => n == m,
            (Err(t), None) => t@ == key@ + ": expected "@ + "a non-negative integer"@ + ", got '"@
                + raw@ + "'"@,
            _ => false,
        },
{
    let chars: Vec<char> = chars_of(raw);
    match parse_bounded(chars.as_slice(), u64::MAX) {
        Some(n) => Ok(n),
        None => Err(no_value(key, "a non-negative integer", raw)),
    }
}

fn no_value(key: &str, what: &str, raw: &str) -> (out: String)
    ensures
        out@ == key@ + ": expected "@ + what@ + ", got '"@ + raw@ + "'"@,
{
    let mut out: String = prefixed(key, ": expected ");
    out.append(what);
    out.append(", got '");
    out.append(raw);
    out.append("'");
    out
}

fn parse_flag(key: &str, raw: &str) -> (r: Result<bool, String>)
    ensures
        match r {
            Ok(b) => raw@ == (if b {
                "true"@
            } else {
                "false"@
            }),
            Err(t) => raw@ != "true"@ && raw@ != "false"@ && t@ == key@ + ": expected "@
                + "true or false"@ + ", got '"@ + raw@ + "'"@,
        },
{
    if same_text(raw, "true") {
        Ok(true)
    } else if same_text(raw, "false") {
        Ok(false)
    } else {
        Err(no_value(key, "true or false", raw))
    }
}

fn parse_backend(key: &str, raw: &str) -> (r: Result<BackendChoice, String>)
    ensures
        match r {
            Ok(b) => raw@ == choice_name(b),
            Err(t) => raw@ != "auto"@ && raw@ != "arboard"@ && raw@ != "osc52"@ && t@ == key@
                + ": expected "@ + "auto, arboard or osc52"@ + ", got '"@ + raw@ + "'"@,
        },
{
    if same_text(raw, "auto") {
        Ok(BackendChoice::Auto)
    } else if same_text(raw, "arboard") {
        Ok(BackendChoice::Arboard)
    } else if same_text(raw, "osc52") {
        Ok(BackendChoice::Osc52)
    } else {
        Err(no_value(key, "auto, arboard or osc52", raw))
    }
}

fn number_text(o: Option<u64>) -> (r: Option<String>)
    ensures
        r.deep_view() == (match number(o) {
            Some(v) => Some(value_text(v)),
            None => None,
        }),
{
    match o {
        Some(n) => Some(decimal_text(n)),
        None => None,
    }
}

fn flag_text(o: Option<bool>) -> (r: Option<String>)
    ensures
        r.deep_view() == (match flag(o) {
            Some(v) => Some(value_text(v)),
            None => None,
        }),
{
    match o {
        Some(true) => Some("true".to_owned()),
        Some(false) => Some("false".to_owned()),
        None => None,
    }
}

/// The identifier of the device under which an account is registered: the one
/// there is already, else a fresh one made of drawn bytes.
pub open spec fn registered_device(c: Config, drawn: Option<Seq<u8>>) -> Option<Seq<char>> {
    match c.account.device_id {
        Some(d) => Some(d@),
        None => fresh_id(drawn),
    }
}

/// `d` is `c` with an account registered for a device, the email in lower case.
pub open spec fn registered(
    c: Config,
    d: Config,
    server: Seq<char>,
    email: Seq<char>,
    device: Seq<char>,
) -> bool {
    &&& d.account.server.deep_view() == Some(server)
    &&& d.account.email.deep_view() == Some(account_email(email))
    &&& d.account.device_id.deep_view() == Some(device)
    &&& forall|k: Key| #[trigger] setting(d, k) == setting(c, k)
}

/// What registering an account comes to: where there is an identifier of the
/// device it succeeds, otherwise the settings stay as they are.
pub open spec fn registration(
    c: Config,
    d: Config,
    server: Seq<char>,
    email: Seq<char>,
    drawn: Option<Seq<u8>>,
    r: Result<(), Error>,
) -> bool {
    match registered_device(c, drawn) {
        Some(device) => r is Ok && registered(c, d, server, email, device),
        None => r == Err::<(), Error>(Error::Random) && d == c,
    }
}

/// Registering an account again keeps the identifier of the device.
pub proof fn device_survives_registration(
    c: Config,
    d: Config,
    e: Config,
    server: Seq<char>,
    email: Seq<char>,
    device: Seq<char>,
    other_server: Seq<char>,
    other_email: Seq<char>,
    drawn: Option<Seq<u8>>,
    r: Result<(), Error>,
)
    requires
        registered(c, d, server, email, device),
        registration(d, e, other_server, other_email, drawn, r),
    ensures
        r is Ok,
        e.account.device_id.deep_view() == Some(device),
{
}

impl AccountCfg {
    /// Whether nothing is registered.
    pub fn is_empty(&self) -> (b: bool)
        ensures
            b == (self.server is None && self.email is None && self.device_id is None),
    {
        self.server.is_none() && self.email.is_none() && self.device_id.is_none()
    }
}

impl Config {
    /// The value of `clipboard.clear_secs`.
    pub fn clipboard_clear_secs(&self) -> (r: Option<u64>)
        ensures
            r == self.clipboard.clear_secs,
    {
        self.clipboard.clear_secs
    }

    /// The value of `agent.idle_lock_secs`.
    pub fn idle_lock_secs(&self) -> (r: Option<u64>)
        ensures
            r == self.agent.idle_lock_secs,
    {
        self.agent.idle_lock_secs
    }

    /// The registered account.
    pub fn account(&self) -> (r: &AccountCfg)
        ensures
            *r == self.account,
    {
        &self.account
    }

    /// Registers an account: the email in lower case, and an identifier of the
    /// device made of drawn bytes unless there is one already.
    pub fn set_account_with(&mut self, server: &str, email: &str, drawn: Option<[u8; 16]>) -> (r:
        Result<(), Error>)
        ensures
            registration(*old(self), *final(self), server@, email@, id_bytes(drawn), r),
    {
        let device: String = match &self.account.device_id {
            Some(d) => d.clone(),
            None => match fresh_device(drawn) {
                Some(d) => d,
                None => return Err(Error::Random),
            },
        };
        self.account.server = Some(server.to_owned());
        self.account.email = Some(to_lower(trimmed(email).as_str()));
        self.account.device_id = Some(device);
        Ok(())
    }

    /// Registers an account: the email in lower case, and a fresh identifier of
    /// the device unless there is one already. Fails only where a fresh one is
    /// needed and the operating system has no randomness to give.
    pub fn set_account(&mut self, server: &str, email: &str) -> (r: Result<(), Error>)
        ensures
            exists|drawn: Option<Seq<u8>>| #[trigger]
                registration(*old(self), *final(self), server@, email@, drawn, r),
    {
        let drawn: Option<[u8; 16]> = draw_id();
        let r: Result<(), Error> = self.set_account_with(server, email, drawn);
        assert(registration(*old(self), *self, server@, email@, id_bytes(drawn), r));
        r
    }

    /// The value under a key as it is told, none where none is set. An unknown
    /// key is the error.
    pub fn get(&self, key: &str) -> (r: Result<Option<String>, String>)
        ensures
            match key_named(key@) {
                None => r matches Err(m) && m@ == key@,
                Some(k) => r matches Ok(v) && v.deep_view() == (match setting(*self, k) {
                    Some(v) => Some(value_text(v)),
                    None => None,
                }),
            },
    {
        match key_from(key) {
            None => Err(key.to_owned()),
            Some(Key::ClearSecs) => Ok(number_text(self.clipboard.clear_secs)),
            Some(Key::IdleLockSecs) => Ok(number_text(self.agent.idle_lock_secs)),
            Some(Key::IntervalSecs) => Ok(number_text(self.sync.interval_secs)),
            Some(Key::Backend) => Ok(
                match self.clipboard.backend {
                    Some(b) => Some(b.as_str().to_owned()),
                    None => None,
                },
            ),
            Some(Key::SessionKeyring) => Ok(flag_text(self.agent.session_keyring)),
            Some(Key::ReducedMotion) => Ok(flag_text(self.ui.reduced_motion)),
            Some(Key::Vim) => Ok(flag_text(self.tui.vim)),
        }
    }

    /// Sets the value under a key. The settings stay as they are where there
    /// is no such key, or the text is no value under it.
    pub fn set(&mut self, key: &str, raw: &str) -> (r: Result<(), String>)
        ensures
            match key_named(key@) {
                None => (r matches Err(m) && m@ == unknown_key_text(key@)) && *final(self) == *old(self),
                Some(k) => match value_of(k, raw@) {
                    None => (r matches Err(m) && m@ == bad_value(k, raw@)) && *final(self) == *old(self),
                    Some(v) => r is Ok && setting(*final(self), k) == Some(v) && same_but(
                        *final(self),
                        *old(self),
                        k,
                    ),
                },
            },
    {
        proof {
            values_differ();
        }
        match key_from(key) {
            None => return Err(unknown_key(key)),
            Some(Key::ClearSecs) => {
                let n: u64 = parse_u64(key, raw)?;
                self.clipboard.clear_secs = Some(n);
            },
            Some(Key::IdleLockSecs) => {
                let n: u64 = parse_u64(key, raw)?;
                self.agent.idle_lock_secs = Some(n);
            },
            Some(Key::IntervalSecs) => {
                let n: u64 = parse_u64(key, raw)?;
                self.sync.interval_secs = Some(n);
            },
            Some(Key::Backend) => {
                let b: BackendChoice = parse_backend(key, raw)?;
                self.clipboard.backend = Some(b);
            },
            Some(Key::SessionKeyring) => {
                let b: bool = parse_flag(key, raw)?;
                self.agent.session_keyring = Some(b);
            },
            Some(Key::ReducedMotion) => {
                let b: bool = parse_flag(key, raw)?;
                self.ui.reduced_motion = Some(b);
            },
            Some(Key::Vim) => {
                let b: bool = parse_flag(key, raw)?;
                self.tui.vim = Some(b);
            },
        }
        Ok(())
    }

    /// Clears the value under a key. The settings stay as they are where there
    /// is no such key.
    pub fn unset(&mut self, key: &str) -> (r: Result<(), String>)
        ensures
            match key_named(key@) {
                None => (r matches Err(m) && m@ == unknown_key_text(key@)) && *final(self) == *old(self),
                Some(k) => r is Ok && setting(*final(self), k) is None && same_but(
                    *final(self),
                    *old(self),
                    k,
                ),
            },
    {
        match key_from(key) {
            None => return Err(unknown_key(key)),
            Some(Key::ClearSecs) => {
                self.clipboard.clear_secs = None;
            },
            Some(Key::IdleLockSecs) => {
                self.agent.idle_lock_secs = None;
            },
            Some(Key::IntervalSecs) => {
                self.sync.interval_secs = None;
            },
            Some(Key::Backend) => {
                self.clipboard.backend = None;
            },
            Some(Key::SessionKeyring) => {
                self.agent.session_keyring = None;
            },
            Some(Key::ReducedMotion) => {
                self.ui.reduced_motion = None;
            },
            Some(Key::Vim) => {
                self.tui.vim = None;
            },
        }
        Ok(())
    }
}

/// A flag of the agent with its value, where one is set.
pub open spec fn valued_flag(name: Seq<char>, v: Option<Value>) -> Seq<Seq<char>> {
    match v {
        Some(v) => seq![name, value_text(v)],
        None => Seq::empty(),
    }
}

/// The agent's arguments for the settings, those set alone.
pub open spec fn args_for(c: Config) -> Seq<Seq<char>> {
    valued_flag("--clipboard-clear-secs"@, setting(c, Key::ClearSecs)) + valued_flag(
        "--idle-lock-secs"@,
        setting(c, Key::IdleLockSecs),
    ) + valued_flag("--sync-interval-secs"@, setting(c, Key::IntervalSecs)) + valued_flag(
        "--clipboard-backend"@,
        setting(c, Key::Backend),
    ) + (if setting(c, Key::SessionKeyring) == Some(Value::Flag(true)) {
        seq!["--session-keyring"@]
    } else {
        Seq::empty()
    })
}

fn push_number(args: &mut Vec<String>, name: &str, v: Option<u64>)
    ensures
        texts(final(args)@) == texts(old(args)@) + valued_flag(name@, number(v)),
{
    let ghost before = texts(args@);
    if let Some(n) = v {
        args.push(name.to_owned());
        args.push(decimal_text(n));
    }
    assert(texts(args@) =~= before + valued_flag(name@, number(v)));
}

/// The agent's arguments for the settings, those set alone.
pub fn agent_args(cfg: &Config) -> (out: Vec<String>)
    ensures
        texts(out@) == args_for(*cfg),
{
    let mut out: Vec<String> = Vec::new();
    push_number(&mut out, "--clipboard-clear-secs", cfg.clipboard.clear_secs);
    push_number(&mut out, "--idle-lock-secs", cfg.agent.idle_lock_secs);
    push_number(&mut out, "--sync-interval-secs", cfg.sync.interval_secs);
    if let Some(b) = cfg.clipboard.backend {
        out.push("--clipboard-backend".to_owned());
        out.push(b.as_str().to_owned());
    }
    if let Some(true) = cfg.agent.session_keyring {
        out.push("--session-keyring".to_owned());
    }
    assert(texts(out@) =~= args_for(*cfg));
    out
}

/// Each key is for the setting it names.
pub proof fn settings_are_under_their_keys(c: Config)
    ensures
        setting(c, Key::ClearSecs) == number(c.clipboard.clear_secs),
        setting(c, Key::IdleLockSecs) == number(c.agent.idle_lock_secs),
        setting(c, Key::IntervalSecs) == number(c.sync.interval_secs),
        setting(c, Key::SessionKeyring) == flag(c.agent.session_keyring),
        setting(c, Key::ReducedMotion) == flag(c.ui.reduced_motion),
        setting(c, Key::Vim) == flag(c.tui.vim),
        setting(c, Key::Backend) is Some <==> c.clipboard.backend is Some,
        setting(c, Key::Backend) matches Some(v) ==> v == Value::Backend(
            c.clipboard.backend->Some_0,
        ),
        forall|n: u64| #[trigger] number(Some(n)) == Some(Value::Number(n)),
        forall|b: bool| #[trigger] flag(Some(b)) == Some(Value::Flag(b)),
        number(None) is None,
        flag(None) is None,
{
}

/// No two keys have the same name, and only the name of a key stands for it.
pub proof fn keys_are_told_apart(a: Key, b: Key, s: Seq<char>)
    ensures
        key_name(a) == key_name(b) ==> a == b,
        key_named(s) == Some(a) <==> s == key_name(a),
{
    key_is_found_by_its_name(a);
    key_is_found_by_its_name(b);
}

/// A key for seconds takes any number of 64 bits, a key for a flag takes `true`
/// and `false`, and the key for the clipboard takes the name of a choice; they
/// take nothing of another sort.
pub proof fn keys_take_values_of_their_sort(k: Key, n: u64, b: bool, c: BackendChoice, raw: Seq<char>)
    ensures
        k is ClearSecs || k is IdleLockSecs || k is IntervalSecs ==> {
            &&& value_of(k, decimal(n as nat)) == Some(Value::Number(n))
            &&& value_of(k, raw) matches Some(v) ==> v is Number && raw.len() > 0
        },
        k is SessionKeyring || k is ReducedMotion || k is Vim ==> {
            &&& value_of(k, if b { "true"@ } else { "false"@ }) == Some(Value::Flag(b))
            &&& value_of(k, raw) is Some <==> raw == "true"@ || raw == "false"@
        },
        k is Backend ==> {
            &&& value_of(k, choice_name(c)) == Some(Value::Backend(c))
            &&& value_of(k, raw) is Some <==> raw == "auto"@ || raw == "arboard"@ || raw
                == "osc52"@
        },
{
    values_differ();
    decimal_parses_back(n as nat, u64::MAX as nat);
}

/// A value is told as it can be entered: a number in decimal, a flag as `true` or
/// `false`, a clipboard by its name. So two values of one key that are told
/// alike are the same.
pub proof fn value_is_told_as_it_is_entered(k: Key, raw: Seq<char>, other: Seq<char>)
    ensures
        value_of(k, raw) matches Some(v) ==> match v {
            Value::Number(n) => value_text(v) == decimal(n as nat),
            Value::Flag(b) => value_text(v) == if b { "true"@ } else { "false"@ },
            Value::Backend(c) => value_text(v) == choice_name(c),
        },
        value_of(k, raw) matches Some(v) ==> (value_of(k, other) matches Some(w) ==> (value_text(v)
            == value_text(w) ==> v == w)),
        value_of(k, raw) matches Some(v) ==> (!(v is Number) ==> value_text(v) == raw),
{
    set_value_reads_back(k, raw);
    set_value_reads_back(k, other);
    values_differ();
}

/// The agent is told each of its settings by a flag with the value behind it,
/// and that sessions are stored by a flag alone; what is not set is not told.
pub proof fn agent_is_told_its_settings(c: Config)
    ensures
        c.clipboard.clear_secs matches Some(n) ==> told_with(
            args_for(c),
            "--clipboard-clear-secs"@,
            decimal(n as nat),
        ),
        c.agent.idle_lock_secs matches Some(n) ==> told_with(
            args_for(c),
            "--idle-lock-secs"@,
            decimal(n as nat),
        ),
        c.sync.interval_secs matches Some(n) ==> told_with(
            args_for(c),
            "--sync-interval-secs"@,
            decimal(n as nat),
        ),
        c.clipboard.backend matches Some(b) ==> told_with(
            args_for(c),
            "--clipboard-backend"@,
            choice_name(b),
        ),
        c.agent.session_keyring == Some(true) ==> args_for(c).last() == "--session-keyring"@,
        args_for(c).len() == (if c.clipboard.clear_secs is Some { 2int } else { 0 }) + (
        if c.agent.idle_lock_secs is Some { 2int } else { 0 }) + (
        if c.sync.interval_secs is Some { 2int } else { 0 }) + (
        if c.clipboard.backend is Some { 2int } else { 0 }) + (
        if c.agent.session_keyring == Some(true) { 1int } else { 0 }),
{
    let a = valued_flag("--clipboard-clear-secs"@, setting(c, Key::ClearSecs));
    let b = a + valued_flag("--idle-lock-secs"@, setting(c, Key::IdleLockSecs));
    let d = b + valued_flag("--sync-interval-secs"@, setting(c, Key::IntervalSecs));
    let args = args_for(c);
    if let Some(n) = c.clipboard.clear_secs {
        assert(args[0] == "--clipboard-clear-secs"@ && args[0int + 1] == decimal(n as nat));
    }
    if let Some(n) = c.agent.idle_lock_secs {
        let i = a.len() as int;
        assert(args[i] == "--idle-lock-secs"@ && args[i + 1] == decimal(n as nat));
    }
    if let Some(n) = c.sync.interval_secs {
        let i = b.len() as int;
        assert(args[i] == "--sync-interval-secs"@ && args[i + 1] == decimal(n as nat));
    }
    if let Some(x) = c.clipboard.backend {
        let i = d.len() as int;
        assert(args[i] == "--clipboard-backend"@ && args[i + 1] == choice_name(x));
    }
}

/// Somewhere among `args` stands `name` with `value` behind it.
pub open spec fn told_with(args: Seq<Seq<char>>, name: Seq<char>, value: Seq<char>) -> bool {
    exists|i: int| 0 <= i < args.len() - 1 && #[trigger] args[i] == name && args[i + 1] == value
}

/// A registered account has the server as given and the email in lower case
/// without the white space around it. It keeps the identifier of the device, and
/// gets the one drawn where there was none; no setting changes.
pub proof fn registering_keeps_the_device(
    c: Config,
    d: Config,
    server: Seq<char>,
    email: Seq<char>,
    drawn: Option<Seq<u8>>,
    r: Result<(), Error>,
)
    requires
        registration(c, d, server, email, drawn, r),
    ensures
        r is Ok <==> c.account.device_id is Some || drawn is Some,
        r is Err ==> d == c,
        r is Ok ==> {
            &&& d.account.server.deep_view() == Some(server)
            &&& d.account.email.deep_view() == Some(lowercase(trim(email)))
            &&& c.account.device_id matches Some(i) ==> d.account.device_id.deep_view() == Some(i@)
            &&& c.account.device_id is None ==> d.account.device_id.deep_view() == fresh_id(drawn)
            &&& forall|k: Key| #[trigger] setting(d, k) == setting(c, k)
        },
{
    email_is_lowercase_and_trimmed(email);
}

/// A refused value is told with the key, what the key wants and the text that
/// was given; an unknown key is told with every key that is known.
pub proof fn refusals_name_the_key(k: Key, j: Key, raw: Seq<char>)
    ensures
        bad_value(k, raw) == key_name(k) + ": expected "@ + wanted(k) + ", got '"@ + raw + "'"@,
        k is ClearSecs || k is IdleLockSecs || k is IntervalSecs ==> wanted(k)
            == "a non-negative integer"@,
        k is SessionKeyring || k is ReducedMotion || k is Vim ==> wanted(k) == "true or false"@,
        k is Backend ==> wanted(k) == "auto, arboard or osc52"@,
        unknown_key_text(raw) == "unknown config key '"@ + raw + "' (known: "@ + join(
            all_names(),
            ", "@,
        ) + ")"@,
        all_names().len() == 7,
        all_names().contains(key_name(j)),
{
    let i: int = match j {
        Key::ClearSecs => 0,
        Key::IdleLockSecs => 1,
        Key::IntervalSecs => 2,
        Key::Backend => 3,
        Key::SessionKeyring => 4,
        Key::ReducedMotion => 5,
        Key::Vim => 6,
    };
    assert(all_keys()[i] == j);
    assert(all_names()[i] == key_name(j));
}

} // verus!
