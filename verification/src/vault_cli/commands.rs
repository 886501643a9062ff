//! The commands: which request each of them makes, what it does with the
//! answer, and what it tells.
use vstd::prelude::*;
use vstd::string::*;
use vstd::utf8::encode_utf8;
use crate::text::{
    all_digits, begins_with, chars_of, copy_text, decimal, decimal_parses_back, decimal_text,
    digits_value, find_char, has_prefix, head_to, parse_bounded, parse_uint,
    pieces_end_at_separators, same_text, split_all, split_once, split_once_is, split_once_joins,
    string_of, tail_from, texts, trim, trimmed, unsigned_digits,
};
use crate::vault_cli::config::{self, Config};
use crate::vault_core::error::prefixed;
use crate::vault_core::generate::GenerateOptions;
use crate::vault_ipc::debug::response_debug;
use crate::vault_ipc::proto::{
    ApiKeyCreds, CardWrite, Error, ErrorView, Field, IdentityWrite, ListEntry, ListEntryView,
    Removed, Request, Response, Saved, Status, StatusView, TwoFactorCode,
};

verus! {

/// Exit code for a mistake in the use of a command.
pub const EXIT_USAGE: u8 = 2;

/// Exit code where the agent cannot be reached.
pub const EXIT_AGENT: u8 = 3;

/// Exit code where nothing more can be said.
pub const EXIT_OTHER: u8 = 9;

/// The exit code for an error of the agent.
pub open spec fn exit_code_of(e: ErrorView) -> u8 {
    match e {
        ErrorView::Locked => 4,
        ErrorView::BadPassword => 5,
        ErrorView::TwoFactorRequired => 6,
        ErrorView::NoSuchItem(_) => 7,
        ErrorView::NoSuchField { .. } => 8,
        ErrorView::AmbiguousItem { .. } => 10,
        ErrorView::Offline => 11,
        _ => EXIT_OTHER,
    }
}

/// The exit code for an error of the agent.
pub fn report_error(e: &Error) -> (code: u8)
    ensures
        code == exit_code_of(e.deep_view()),
{
    match e {
        Error::Locked => 4,
        Error::BadPassword => 5,
        Error::TwoFactorRequired => 6,
        Error::NoSuchItem(_) => 7,
        Error::NoSuchField { .. } => 8,
        Error::AmbiguousItem { .. } => 10,
        Error::Offline => 11,
        _ => EXIT_OTHER,
    }
}

/// The kind of answer that a request is made for.
#[derive(Clone, Copy, Debug, PartialEq, Eq, Structural)]
pub enum Expected {
    /// Success alone.
    Ack,
    /// The state after a sync; success alone will do.
    Synced,
    /// The state of the agent.
    Status,
    /// The items.
    List,
    /// One field of one item.
    Item,
    /// A deletion.
    Removed,
    /// A creation or a change.
    Saved,
    /// The PIN of an account.
    PinStatus,
    /// The API key of an account.
    ApiKeyStatus,
}

/// Whether an answer is of the kind.
pub open spec fn is_expected(e: Expected, r: Response) -> bool {
    match e {
        Expected::Ack => r is Done,
        Expected::Synced => r is Status || r is Done,
        Expected::Status => r is Status,
        Expected::List => r is List,
        Expected::Item => r is Item,
        Expected::Removed => r is Removed,
        Expected::Saved => r is Saved,
        Expected::PinStatus => r is PinStatus,
        Expected::ApiKeyStatus => r is ApiKeyStatus,
    }
}

/// What an answer comes to: it is told where it is of the kind, an error gives
/// its exit code, and anything else the one for what was not expected, with the
/// answer written out.
pub fn settle(expected: Expected, response: Response) -> (r: Result<Response, (u8, String)>)
    ensures
        is_expected(expected, response) ==> r == Ok::<Response, (u8, String)>(response),
        response matches Response::Error(e) ==> (r matches Err(x) && x.0 == exit_code_of(
            e.deep_view(),
        ) && x.1@ == crate::vault_ipc::proto::ipc_error_text(e.deep_view())),
        !is_expected(expected, response) && !(response is Error) ==> (r matches Err(x) && x.0
            == EXIT_OTHER && x.1@ == "unexpected response from agent: "@ + response_debug(response)),
{
    let wanted: bool = match (expected, &response) {
        (Expected::Ack, Response::Done) => true,
        (Expected::Synced, Response::Status(_)) => true,
        (Expected::Synced, Response::Done) => true,
        (Expected::Status, Response::Status(_)) => true,
        (Expected::List, Response::List(_)) => true,
        (Expected::Item, Response::Item(_)) => true,
        (Expected::Removed, Response::Removed(_)) => true,
        (Expected::Saved, Response::Saved(_)) => true,
        (Expected::PinStatus, Response::PinStatus(_)) => true,
        (Expected::ApiKeyStatus, Response::ApiKeyStatus(_)) => true,
        _ => false,
    };
    if wanted {
        return Ok(response);
    }
    match &response {
        Response::Error(e) => Err((report_error(e), e.message())),
        _ => Err(
            (
                EXIT_OTHER,
                prefixed("unexpected response from agent: ", response.debug_text().as_str()),
            ),
        ),
    }
}

/// A command that makes one request of the agent, whatever else it does.
pub enum Command {
    /// Tell the state of the agent.
    Status,
    /// Lock the agent.
    Lock,
    /// Fetch the vault again.
    Sync,
    /// List the items.
    List,
    /// Tell a field of an item.
    Get {
        /// Name of the item.
        name: String,
        /// The field.
        field: Field,
    },
    /// Delete an item.
    Remove {
        /// Identifier or name of the item.
        selector: String,
    },
    /// Stop the agent.
    StopAgent,
    /// Set a PIN.
    PinSet {
        /// The PIN.
        pin: Vec<u8>,
    },
    /// Tell the PIN of an account.
    PinStatus {
        /// The account.
        account: Account,
    },
    /// Forget the PIN of an account.
    PinDisable {
        /// The account.
        account: Account,
    },
    /// Tell the API key of an account.
    ApiKeyStatus {
        /// The account.
        account: Account,
    },
    /// Forget the API key of an account.
    ApiKeyForget {
        /// The account.
        account: Account,
    },
    /// Unlock with the master password.
    Unlock {
        /// The account.
        account: Account,
        /// The master password.
        password: Vec<u8>,
        /// API key to log in with and to store.
        api_key: Option<crate::vault_ipc::proto::ApiKeyCreds>,
        /// Answer to a two-factor challenge.
        two_factor: Option<crate::vault_ipc::proto::TwoFactorCode>,
    },
    /// Unlock with the PIN.
    UnlockPin {
        /// The account.
        account: Account,
        /// The PIN.
        pin: Vec<u8>,
    },
}

/// The account of a command.
pub struct Account {
    /// Server origin.
    pub server: String,
    /// Email.
    pub email: String,
    /// Stable identifier of this device.
    pub device_id: Option<String>,
}

/// The request of a command, the kind of answer it is made for, and whether an
/// agent is started where none runs.
pub struct Plan {
    /// The request.
    pub request: Request,
    /// The kind of answer.
    pub expected: Expected,
    /// Whether an agent is started.
    pub spawn: bool,
}

/// The plan of a command. An agent is never started only to be stopped.
pub open spec fn plan_of(c: Command) -> Plan {
    match c {
        Command::Status => Plan { request: Request::Status, expected: Expected::Status, spawn: true },
        Command::Lock => Plan { request: Request::Lock, expected: Expected::Ack, spawn: true },
        Command::Sync => Plan { request: Request::Sync, expected: Expected::Synced, spawn: true },
        Command::List => Plan { request: Request::List, expected: Expected::List, spawn: true },
        Command::Get { name, field } => Plan {
            request: Request::Get { id: None, name, field: Some(field) },
            expected: Expected::Item,
            spawn: true,
        },
        Command::Remove { selector } => Plan {
            request: Request::Remove { selector },
            expected: Expected::Removed,
            spawn: true,
        },
        Command::StopAgent => Plan {
            request: Request::Quit,
            expected: Expected::Ack,
            spawn: false,
        },
        Command::PinSet { pin } => Plan {
            request: Request::PinSet { pin },
            expected: Expected::Ack,
            spawn: true,
        },
        Command::PinStatus { account } => Plan {
            request: Request::PinStatus { server: account.server, email: account.email },
            expected: Expected::PinStatus,
            spawn: true,
        },
        Command::PinDisable { account } => Plan {
            request: Request::PinDisable { server: account.server, email: account.email },
            expected: Expected::Ack,
            spawn: true,
        },
        Command::ApiKeyStatus { account } => Plan {
            request: Request::ApiKeyStatus { server: account.server, email: account.email },
            expected: Expected::ApiKeyStatus,
            spawn: true,
        },
        Command::ApiKeyForget { account } => Plan {
            request: Request::ApiKeyForget { server: account.server, email: account.email },
            expected: Expected::Ack,
            spawn: true,
        },
        Command::Unlock { account, password, api_key, two_factor } => Plan {
            request: Request::Unlock {
                server: account.server,
                email: account.email,
                password,
                device_id: account.device_id,
                api_key,
                two_factor,
            },
            expected: Expected::Ack,
            spawn: true,
        },
        Command::UnlockPin { account, pin } => Plan {
            request: Request::UnlockPin { server: account.server, email: account.email, pin },
            expected: Expected::Ack,
            spawn: true,
        },
    }
}

/// The plan of a command.
pub fn plan(c: Command) -> (r: Plan)
    ensures
        r == plan_of(c),
{
    match c {
        Command::Status => Plan { request: Request::Status, expected: Expected::Status, spawn: true },
        Command::Lock => Plan { request: Request::Lock, expected: Expected::Ack, spawn: true },
        Command::Sync => Plan { request: Request::Sync, expected: Expected::Synced, spawn: true },
        Command::List => Plan { request: Request::List, expected: Expected::List, spawn: true },
        Command::Get { name, field } => Plan {
            request: Request::Get { id: None, name, field: Some(field) },
            expected: Expected::Item,
            spawn: true,
        },
        Command::Remove { selector } => Plan {
            request: Request::Remove { selector },
            expected: Expected::Removed,
            spawn: true,
        },
        Command::StopAgent => Plan {
            request: Request::Quit,
            expected: Expected::Ack,
            spawn: false,
        },
        Command::PinSet { pin } => Plan {
            request: Request::PinSet { pin },
            expected: Expected::Ack,
            spawn: true,
        },
        Command::PinStatus { account } => Plan {
            request: Request::PinStatus { server: account.server, email: account.email },
            expected: Expected::PinStatus,
            spawn: true,
        },
        Command::PinDisable { account } => Plan {
            request: Request::PinDisable { server: account.server, email: account.email },
            expected: Expected::Ack,
            spawn: true,
        },
        Command::ApiKeyStatus { account } => Plan {
            request: Request::ApiKeyStatus { server: account.server, email: account.email },
            expected: Expected::ApiKeyStatus,
            spawn: true,
        },
        Command::ApiKeyForget { account } => Plan {
            request: Request::ApiKeyForget { server: account.server, email: account.email },
            expected: Expected::Ack,
            spawn: true,
        },
        Command::Unlock { account, password, api_key, two_factor } => Plan {
            request: Request::Unlock {
                server: account.server,
                email: account.email,
                password,
                device_id: account.device_id,
                api_key,
                two_factor,
            },
            expected: Expected::Ack,
            spawn: true,
        },
        Command::UnlockPin { account, pin } => Plan {
            request: Request::UnlockPin { server: account.server, email: account.email, pin },
            expected: Expected::Ack,
            spawn: true,
        },
    }
}

/// The first value that is there.
pub open spec fn first_of(a: Option<Seq<char>>, b: Option<Seq<char>>, c: Option<Seq<char>>) -> Option<
    Seq<char>,
> {
    match (a, b) {
        (Some(x), _) => Some(x),
        (None, Some(y)) => Some(y),
        (None, None) => c,
    }
}

fn pick(a: Option<String>, b: Option<String>, c: &Option<String>) -> (r: Option<String>)
    ensures
        r.deep_view() == first_of(a.deep_view(), b.deep_view(), c.deep_view()),
{
    match a {
        Some(x) => Some(x),
        None => match b {
            Some(y) => Some(y),
            None => copy_text(c),
        },
    }
}

/// The account of a command: what the command line gives, else the environment,
/// else the registered account. The identifier of the device comes from the
/// registered account alone.
pub fn resolve_account(
    server: Option<String>,
    env_server: Option<String>,
    email: Option<String>,
    env_email: Option<String>,
    profile: &config::AccountCfg,
) -> (r: Result<Account, &'static str>)
    ensures
        ({
            let s = first_of(
                server.deep_view(),
                env_server.deep_view(),
                profile.server.deep_view(),
            );
            let e = first_of(email.deep_view(), env_email.deep_view(), profile.email.deep_view());
            match (s, e) {
                (None, _) => r == Err::<Account, &'static str>(
                    "no server — pass --server, set $VAULT_SERVER, or run `vault register`",
                ),
                (_, None) => r == Err::<Account, &'static str>(
                    "no email — pass --email, set $VAULT_EMAIL, or run `vault register`",
                ),
                (Some(s), Some(e)) => r matches Ok(a) && a.server@ == s && a.email@ == e
                    && a.device_id.deep_view() == profile.device_id.deep_view(),
            }
        }),
{
    let server: String = match pick(server, env_server, &profile.server) {
        Some(s) => s,
        None => return Err(
            "no server — pass --server, set $VAULT_SERVER, or run `vault register`",
        ),
    };
    let email: String = match pick(email, env_email, &profile.email) {
        Some(e) => e,
        None => return Err("no email — pass --email, set $VAULT_EMAIL, or run `vault register`"),
    };
    Ok(Account { server, email, device_id: copy_text(&profile.device_id) })
}

/// What the command line gives, else the environment where it is not empty.
pub open spec fn given_or_env(given: Option<Seq<char>>, env: Option<Seq<char>>) -> Option<
    Seq<char>,
> {
    match (given, env) {
        (Some(v), _) => Some(v),
        (None, Some(v)) if v.len() > 0 => Some(v),
        _ => None,
    }
}

/// The message that a value is missing.
pub open spec fn missing_text(flag: Seq<char>, env_key: Seq<char>) -> Seq<char> {
    "missing "@ + flag + " (or $"@ + env_key + ")"@
}

/// A value that a command needs: what the command line gives, else the
/// environment where it is not empty.
pub fn resolve_arg(given: Option<String>, env: Option<String>, flag: &str, env_key: &str) -> (r:
    Result<String, String>)
    ensures
        match given_or_env(given.deep_view(), env.deep_view()) {
            Some(v) => r matches Ok(s) && s@ == v,
            None => r matches Err(m) && m@ == missing_text(flag@, env_key@),
        },
{
    if let Some(v) = given {
        return Ok(v);
    }
    if let Some(v) = env {
        if !v.as_str().is_empty() {
            return Ok(v);
        }
    }
    let mut m: String = prefixed("missing ", flag);
    m.append(" (or $");
    m.append(env_key);
    m.append(")");
    Err(m)
}

/// Whether a text names an origin of the web.
pub open spec fn is_origin(server: Seq<char>) -> bool {
    has_prefix(server, "https://"@) || has_prefix(server, "http://"@)
}

/// The message that a server is no origin.
pub open spec fn bad_origin_text(server: Seq<char>) -> Seq<char> {
    "server must be an http(s):// origin, got '"@ + server + "'"@
}

/// Whether a server can be registered: it names an origin of the web.
pub fn check_origin(server: &str) -> (r: Result<(), String>)
    ensures
        is_origin(server@) ==> r is Ok,
        !is_origin(server@) ==> (r matches Err(m) && m@ == bad_origin_text(server@)),
{
    let chars: Vec<char> = chars_of(server);
    if begins_with(chars.as_slice(), "https://") || begins_with(chars.as_slice(), "http://") {
        return Ok(());
    }
    let mut m: String = prefixed("server must be an http(s):// origin, got '", server);
    m.append("'");
    Err(m)
}

/// The server and the email that a command registers: what the command line
/// gives, else the environment. The server must be an origin.
pub fn named_account(
    server: Option<String>,
    env_server: Option<String>,
    email: Option<String>,
    env_email: Option<String>,
) -> (r: Result<(String, String), String>)
    ensures
        match (
            given_or_env(server.deep_view(), env_server.deep_view()),
            given_or_env(email.deep_view(), env_email.deep_view()),
        ) {
            (None, _) => r matches Err(m) && m@ == missing_text("--server"@, "VAULT_SERVER"@),
            (_, None) => r matches Err(m) && m@ == missing_text("--email"@, "VAULT_EMAIL"@),
            (Some(s), Some(e)) => if is_origin(s) {
                r matches Ok(a) && a.0@ == s && a.1@ == e
            } else {
                r matches Err(m) && m@ == bad_origin_text(s)
            },
        },
{
    let server: String = resolve_arg(server, env_server, "--server", "VAULT_SERVER")?;
    let email: String = resolve_arg(email, env_email, "--email", "VAULT_EMAIL")?;
    check_origin(server.as_str())?;
    Ok((server, email))
}

/// A line as it was entered, without the end of the line: one line feed, and a
/// carriage return before it.
pub open spec fn entered(s: Seq<char>) -> Seq<char> {
    if s.len() > 0 && s.last() == '\n' {
        let t = s.drop_last();
        if t.len() > 0 && t.last() == '\r' {
            t.drop_last()
        } else {
            t
        }
    } else {
        s
    }
}

fn stripped(input: &str) -> (chars: Vec<char>)
    ensures
        chars@ == entered(input@),
{
    let mut chars: Vec<char> = chars_of(input);
    if chars.len() > 0 && chars[chars.len() - 1] == '\n' {
        let _ = chars.pop();
        assert(chars@ =~= input@.drop_last());
        if chars.len() > 0 && chars[chars.len() - 1] == '\r' {
            let _ = chars.pop();
            assert(chars@ =~= input@.drop_last().drop_last());
        }
    }
    assert(chars@ =~= entered(input@));
    chars
}

fn text_bytes(chars: &[char]) -> (out: Vec<u8>)
    ensures
        out@ == encode_utf8(chars@),
{
    let text: String = string_of(chars);
    let mut out: Vec<u8> = Vec::new();
    out.extend_from_slice(text.as_str().as_bytes());
    assert(out@ =~= encode_utf8(chars@));
    out
}

/// The secret in what was entered; none where it is empty.
pub fn entered_secret(input: &str) -> (r: Option<Vec<u8>>)
    ensures
        entered(input@).len() == 0 ==> r is None,
        entered(input@).len() > 0 ==> (r matches Some(b) && b@ == encode_utf8(entered(input@))),
{
    let chars: Vec<char> = stripped(input);
    if chars.len() == 0 {
        None
    } else {
        Some(text_bytes(chars.as_slice()))
    }
}

/// Fewest characters of a PIN.
pub const MIN_PIN_CHARS: usize = 4;

/// A new PIN, which must have four characters or more.
pub fn new_pin(input: &str) -> (r: Result<Vec<u8>, &'static str>)
    ensures
        entered(input@).len() >= MIN_PIN_CHARS ==> (r matches Ok(b) && b@ == encode_utf8(
            entered(input@),
        )),
        entered(input@).len() < MIN_PIN_CHARS ==> r == Err::<Vec<u8>, &'static str>(
            "PIN must be at least 4 characters",
        ),
{
    let chars: Vec<char> = stripped(input);
    if chars.len() < MIN_PIN_CHARS {
        Err("PIN must be at least 4 characters")
    } else {
        Ok(text_bytes(chars.as_slice()))
    }
}

/// The authenticator code in what was entered, without the white space around
/// it; none where nothing else is there.
pub fn entered_code(input: &str) -> (r: Option<TwoFactorCode>)
    ensures
        trim(input@).len() == 0 ==> r is None,
        trim(input@).len() > 0 ==> (r matches Some(c) && c.token@ == trim(input@)),
{
    let token: String = trimmed(input);
    if token.as_str().unicode_len() == 0 {
        None
    } else {
        Some(TwoFactorCode { token })
    }
}

/// The authenticator code that is given up front: that of the flag where there
/// is one, else that of the environment.
pub fn given_code(flag: &Option<String>, env: &Option<String>) -> (r: Option<TwoFactorCode>)
    ensures
        match (*flag, *env) {
            (Some(s), _) | (None, Some(s)) => match r {
                Some(c) => trim(s@).len() > 0 && c.token@ == trim(s@),
                None => trim(s@).len() == 0,
            },
            (None, None) => r is None,
        },
{
    match (flag, env) {
        (Some(s), _) => entered_code(s.as_str()),
        (None, Some(s)) => entered_code(s.as_str()),
        (None, None) => None,
    }
}

/// Whether the answer to an unlock asks for an authenticator code: none was
/// given, or a wrong one.
pub fn code_wanted(response: &Response) -> (b: bool)
    ensures
        b == (*response matches Response::Error(e) && e.deep_view()
            == ErrorView::TwoFactorRequired),
{
    match response {
        Response::Error(Error::TwoFactorRequired) => true,
        _ => false,
    }
}

/// The API key in what was entered, of which neither part may be empty.
pub fn entered_api_key(client_id: &str, client_secret: &str) -> (r: Result<
    ApiKeyCreds,
    &'static str,
>)
    ensures
        trim(client_id@).len() == 0 ==> r == Err::<ApiKeyCreds, &'static str>("empty client_id"),
        trim(client_id@).len() > 0 && entered(client_secret@).len() == 0 ==> r == Err::<
            ApiKeyCreds,
            &'static str,
        >("empty client_secret"),
        trim(client_id@).len() > 0 && entered(client_secret@).len() > 0 ==> (r matches Ok(k)
            && k.client_id@ == trim(client_id@) && k.client_secret@ == encode_utf8(
            entered(client_secret@),
        )),
{
    let client_id: String = trimmed(client_id);
    if client_id.as_str().unicode_len() == 0 {
        return Err("empty client_id");
    }
    match entered_secret(client_secret) {
        None => Err("empty client_secret"),
        Some(client_secret) => Ok(ApiKeyCreds { client_id, client_secret }),
    }
}

/// Whether what was entered confirms the deletion of an item: it is the
/// selector, but for white space around it.
pub fn confirms_removal(input: &str, selector: &str) -> (b: bool)
    ensures
        b == (trim(input@) == selector@),
{
    same_text(trimmed(input).as_str(), selector)
}

/// Whether what was entered confirms that the cache is wiped.
pub fn confirms_purge(input: &str) -> (b: bool)
    ensures
        b == (trim(input@) == "y"@ || trim(input@) == "Y"@ || trim(input@) == "yes"@),
{
    let answer: String = trimmed(input);
    same_text(answer.as_str(), "y") || same_text(answer.as_str(), "Y") || same_text(
        answer.as_str(),
        "yes",
    )
}

/// What wiping the cache needs before it goes on.
#[derive(Clone, Copy, Debug, PartialEq, Eq, Structural)]
pub enum Consent {
    /// Nothing.
    Given,
    /// An answer on the terminal.
    Ask,
    /// It is refused, there being nobody to ask.
    Refuse,
}

/// What a command that deletes needs before it goes on: nothing where it is
/// forced, else an answer, for which there must be a terminal.
pub fn consent(force: bool, terminal: bool) -> (r: Consent)
    ensures
        r == (if force {
            Consent::Given
        } else if terminal {
            Consent::Ask
        } else {
            Consent::Refuse
        }),
{
    if force {
        Consent::Given
    } else if terminal {
        Consent::Ask
    } else {
        Consent::Refuse
    }
}

/// The kind of a new item.
#[derive(Clone, Copy, Debug, PartialEq, Eq, Structural)]
pub enum KindArg {
    /// A login.
    Login,
    /// A secure note.
    Note,
    /// A card.
    Card,
    /// An identity.
    Identity,
}

impl KindArg {
    /// Bitwarden's number for the kind.
    pub fn cipher_type(self) -> (r: u8)
        ensures
            r == (match self {
                KindArg::Login => 1u8,
                KindArg::Note => 2u8,
                KindArg::Card => 3u8,
                KindArg::Identity => 4u8,
            }),
    {
        match self {
            KindArg::Login => 1,
            KindArg::Note => 2,
            KindArg::Card => 3,
            KindArg::Identity => 4,
        }
    }
}

/// What a new item is made of on the command line.
pub struct AddArgs {
    /// Name.
    pub name: String,
    /// Kind.
    pub kind: KindArg,
    /// Login username.
    pub username: Option<String>,
    /// Primary login address.
    pub uri: Option<String>,
    /// Folder, by identifier or name.
    pub folder: Option<String>,
    /// Notes.
    pub notes: Option<String>,
    /// Card fields.
    pub card: Option<CardWrite>,
    /// Identity fields.
    pub identity: Option<IdentityWrite>,
}

/// `o` where it belongs to the kind, nothing otherwise.
pub open spec fn kept<T>(own: bool, o: Option<T>) -> Option<T> {
    if own {
        o
    } else {
        None
    }
}

/// The request for a new item. Each kind takes the fields of its own: the
/// username, the password and the address go with a login alone.
pub fn add_request(args: AddArgs, password: Option<Vec<u8>>) -> (r: Request)
    ensures
        r == (Request::Add {
            name: args.name,
            cipher_type: (match args.kind {
                KindArg::Login => 1u8,
                KindArg::Note => 2u8,
                KindArg::Card => 3u8,
                KindArg::Identity => 4u8,
            }),
            folder: args.folder,
            notes: args.notes,
            username: kept(args.kind == KindArg::Login, args.username),
            password: kept(args.kind == KindArg::Login, password),
            totp: None,
            uri: kept(args.kind == KindArg::Login, args.uri),
            card: kept(args.kind == KindArg::Card, args.card),
            identity: kept(args.kind == KindArg::Identity, args.identity),
        }),
{
    let login: bool = match args.kind {
        KindArg::Login => true,
        _ => false,
    };
    let card: bool = match args.kind {
        KindArg::Card => true,
        _ => false,
    };
    let identity: bool = match args.kind {
        KindArg::Identity => true,
        _ => false,
    };
    Request::Add {
        name: args.name,
        cipher_type: args.kind.cipher_type(),
        folder: args.folder,
        notes: args.notes,
        username: if login {
            args.username
        } else {
            None
        },
        password: if login {
            password
        } else {
            None
        },
        totp: None,
        uri: if login {
            args.uri
        } else {
            None
        },
        card: if card {
            args.card
        } else {
            None
        },
        identity: if identity {
            args.identity
        } else {
            None
        },
    }
}

/// What a change to an item is made of on the command line.
pub struct EditArgs {
    /// Identifier or name of the item.
    pub selector: String,
    /// New name.
    pub name: Option<String>,
    /// New login username.
    pub username: Option<String>,
    /// New primary login address.
    pub uri: Option<String>,
    /// New folder, by identifier or name.
    pub folder: Option<String>,
    /// New notes.
    pub notes: Option<String>,
    /// Card fields to change.
    pub card: Option<CardWrite>,
    /// Identity fields to change.
    pub identity: Option<IdentityWrite>,
}

/// A field of a card is given.
pub open spec fn names_card(c: CardWrite) -> bool {
    ||| c.cardholder is Some
    ||| c.brand is Some
    ||| c.number is Some
    ||| c.exp_month is Some
    ||| c.exp_year is Some
    ||| c.code is Some
}

/// The card fields of a request: those of a new card in any case, those of a
/// change where one is given or one was asked for, even if nothing was entered.
pub fn card_fields_asked(new: bool, asked: bool, card: CardWrite) -> (r: Option<CardWrite>)
    ensures
        r == kept(new || asked || names_card(card), Some(card)),
{
    if new || asked || card.cardholder.is_some() || card.brand.is_some() || card.number.is_some()
        || card.exp_month.is_some() || card.exp_year.is_some() || card.code.is_some() {
        Some(card)
    } else {
        None
    }
}

/// A field of an identity is given.
pub open spec fn names_identity(i: IdentityWrite) -> bool {
    ||| i.title is Some
    ||| i.first_name is Some
    ||| i.middle_name is Some
    ||| i.last_name is Some
    ||| i.username is Some
    ||| i.company is Some
    ||| i.ssn is Some
    ||| i.passport_number is Some
    ||| i.license_number is Some
    ||| i.email is Some
    ||| i.phone is Some
    ||| i.address1 is Some
    ||| i.address2 is Some
    ||| i.address3 is Some
    ||| i.city is Some
    ||| i.state is Some
    ||| i.postal_code is Some
    ||| i.country is Some
}

/// The identity fields of a request: those of a new identity in any case, those
/// of a change where one is given or one was asked for, even if nothing was
/// entered.
pub fn identity_fields_asked(new: bool, asked: bool, identity: IdentityWrite) -> (r: Option<
    IdentityWrite,
>)
    ensures
        r == kept(new || asked || names_identity(identity), Some(identity)),
{
    let named: bool = identity.title.is_some() || identity.first_name.is_some()
        || identity.middle_name.is_some() || identity.last_name.is_some()
        || identity.username.is_some() || identity.company.is_some() || identity.ssn.is_some()
        || identity.passport_number.is_some() || identity.license_number.is_some();
    let placed: bool = identity.email.is_some() || identity.phone.is_some()
        || identity.address1.is_some() || identity.address2.is_some()
        || identity.address3.is_some() || identity.city.is_some() || identity.state.is_some()
        || identity.postal_code.is_some() || identity.country.is_some();
    if new || asked || named || placed {
        Some(identity)
    } else {
        None
    }
}

/// The request for a change to an item.
pub fn edit_request(args: EditArgs, password: Option<Vec<u8>>) -> (r: Request)
    ensures
        r == (Request::Edit {
            selector: args.selector,
            name: args.name,
            folder: args.folder,
            notes: args.notes,
            username: args.username,
            password,
            totp: None,
            uri: args.uri,
            card: args.card,
            identity: args.identity,
        }),
{
    Request::Edit {
        selector: args.selector,
        name: args.name,
        folder: args.folder,
        notes: args.notes,
        username: args.username,
        password,
        totp: None,
        uri: args.uri,
        card: args.card,
        identity: args.identity,
    }
}

/// Where the password of a new or a changed item comes from.
#[derive(Clone, Copy, Debug, PartialEq, Eq, Structural)]
pub enum PasswordSource {
    /// It is generated with a length.
    Generate(usize),
    /// It is entered.
    Enter,
    /// There is none.
    Nowhere,
}

/// Where the password of a new item comes from: of a login it is generated
/// where that is asked for, else entered; other kinds have none.
pub fn add_password(kind: KindArg, generate: Option<usize>) -> (r: PasswordSource)
    ensures
        r == (match (kind, generate) {
            (KindArg::Login, Some(n)) => PasswordSource::Generate(n),
            (KindArg::Login, None) => PasswordSource::Enter,
            _ => PasswordSource::Nowhere,
        }),
{
    match (kind, generate) {
        (KindArg::Login, Some(n)) => PasswordSource::Generate(n),
        (KindArg::Login, None) => PasswordSource::Enter,
        _ => PasswordSource::Nowhere,
    }
}

/// Where the new password of an item comes from: it is generated where that is
/// asked for, else entered where a new one is asked for.
pub fn edit_password(password: bool, generate: Option<usize>) -> (r: PasswordSource)
    ensures
        r == (match generate {
            Some(n) => PasswordSource::Generate(n),
            None => if password {
                PasswordSource::Enter
            } else {
                PasswordSource::Nowhere
            },
        }),
{
    match generate {
        Some(n) => PasswordSource::Generate(n),
        None => if password {
            PasswordSource::Enter
        } else {
            PasswordSource::Nowhere
        },
    }
}

/// What `vault generate` is asked for.
pub fn generate_options(
    length: usize,
    symbols: bool,
    no_lowercase: bool,
    no_uppercase: bool,
    no_digits: bool,
) -> (r: GenerateOptions)
    ensures
        r == (GenerateOptions {
            length,
            lowercase: !no_lowercase,
            uppercase: !no_uppercase,
            digits: !no_digits,
            symbols,
        }),
{
    GenerateOptions {
        length,
        lowercase: !no_lowercase,
        uppercase: !no_uppercase,
        digits: !no_digits,
        symbols,
    }
}

/// The month and the year of an expiry `MM/YYYY` or `MM/YY`: the month without
/// a leading zero, the year with four digits.
pub open spec fn expiry_parts(s: Seq<char>) -> Option<(Seq<char>, Seq<char>)> {
    match split_once(s, '/') {
        None => None,
        Some((m, y)) => match parse_uint(m, 12) {
            Some(month) if month >= 1 && m.len() <= 2 && crate::text::is_digit(m[0]) => if crate::text::all_digits(
                y,
            ) && y.len() == 4 {
                Some((decimal(month), y))
            } else if crate::text::all_digits(y) && y.len() == 2 {
                Some((decimal(month), "20"@ + y))
            } else {
                None
            },
            _ => None,
        },
    }
}

fn only_digits(s: &[char]) -> (b: bool)
    ensures
        b == crate::text::all_digits(s@),
{
    let mut i: usize = 0;
    while i < s.len()
        invariant
            i <= s.len(),
            forall|k: int| 0 <= k < i ==> crate::text::is_digit(#[trigger] s@[k]),
        decreases s.len() - i,
    {
        let c: char = s[i];
        if !('0' <= c && c <= '9') {
            assert(!crate::text::is_digit(s@[i as int]));
            return false;
        }
        i += 1;
    }
    true
}

/// The month and the year of an expiry `MM/YYYY` or `MM/YY`.
pub fn parse_expiry(s: &str) -> (r: Result<(String, String), String>)
    ensures
        match expiry_parts(s@) {
            Some((m, y)) => r matches Ok(p) && p.0@ == m && p.1@ == y,
            None => r matches Err(t) && t@ == "invalid expiry '"@ + s@
                + "' (expected MM/YYYY or MM/YY)"@,
        },
{
    match expiry_of(s) {
        Some(p) => Ok(p),
        None => {
            let mut t: String = prefixed("invalid expiry '", s);
            t.append("' (expected MM/YYYY or MM/YY)");
            Err(t)
        },
    }
}

fn expiry_of(s: &str) -> (r: Option<(String, String)>)
    ensures
        match (r, expiry_parts(s@)) {
            (Some(p), Some((m, y))) => p.0@ == m && p.1@ == y,
            (None, None) => true,
            _ => false,
        },
{
    let chars: Vec<char> = chars_of(s);
    let all: &[char] = chars.as_slice();
    let at: usize = find_char(all, '/', 0);
    if at == all.len() {
        return None;
    }
    let month: &[char] = head_to(all, at);
    let year: &[char] = tail_from(all, at + 1);
    let n: u64 = match parse_bounded(month, 12) {
        Some(n) => n,
        None => return None,
    };
    if n < 1 || month.len() > 2 || !('0' <= month[0] && month[0] <= '9') {
        return None;
    }
    if !only_digits(year) {
        return None;
    }
    let text: String = string_of(year);
    if year.len() == 4 {
        Some((decimal_text(n), text))
    } else if year.len() == 2 {
        Some((decimal_text(n), prefixed("20", text.as_str())))
    } else {
        None
    }
}

/// A line that is told where there is a value.
pub open spec fn line_if(label: Seq<char>, v: Option<Seq<char>>) -> Seq<Seq<char>> {
    match v {
        Some(s) => seq![label + s],
        None => Seq::empty(),
    }
}

/// The state of the agent in lines.
pub open spec fn status_text(s: StatusView) -> Seq<Seq<char>> {
    seq![if s.unlocked { "unlocked"@ } else { "locked"@ }] + line_if(
        "server:        "@,
        s.server,
    ) + line_if("email:         "@, s.email) + line_if(
        "items:         "@,
        match s.items {
            Some(n) => Some(decimal(n as nat)),
            None => None,
        },
    ) + line_if("last sync:     "@, s.last_sync) + seq!["agent version: "@ + s.agent_version]
        + line_if("clipboard:     "@, s.clipboard_backend)
}

fn push_line(out: &mut Vec<String>, label: &str, v: &Option<String>)
    ensures
        texts(final(out)@) == texts(old(out)@) + line_if(label@, v.deep_view()),
{
    let ghost before = texts(out@);
    if let Some(s) = v {
        out.push(prefixed(label, s.as_str()));
    }
    assert(texts(out@) =~= before + line_if(label@, v.deep_view()));
}

/// The state of the agent in lines.
pub fn print_status(s: &Status) -> (out: Vec<String>)
    ensures
        texts(out@) == status_text(s.deep_view()),
{
    let mut out: Vec<String> = Vec::new();
    if s.unlocked {
        out.push("unlocked".to_owned());
    } else {
        out.push("locked".to_owned());
    }
    assert(texts(out@) =~= seq![if s.unlocked { "unlocked"@ } else { "locked"@ }]);
    push_line(&mut out, "server:        ", &s.server);
    push_line(&mut out, "email:         ", &s.email);
    let items: Option<String> = match s.items {
        Some(n) => Some(decimal_text(n as u64)),
        None => None,
    };
    push_line(&mut out, "items:         ", &items);
    push_line(&mut out, "last sync:     ", &s.last_sync);
    let ghost before = texts(out@);
    out.push(prefixed("agent version: ", s.agent_version.as_str()));
    assert(texts(out@) =~= before + seq!["agent version: "@ + s.agent_version@]);
    push_line(&mut out, "clipboard:     ", &s.clipboard_backend);
    out
}

/// `o`, or nothing where it is absent.
pub open spec fn or_empty(o: Option<Seq<char>>) -> Seq<char> {
    match o {
        Some(s) => s,
        None => Seq::empty(),
    }
}

/// A row of the list: name, username and folder, with tabs between.
pub open spec fn row_text(e: ListEntryView) -> Seq<char> {
    e.name + "\t"@ + or_empty(e.username) + "\t"@ + or_empty(e.folder)
}

/// A row of the list.
pub fn print_row(e: &ListEntry) -> (out: String)
    ensures
        out@ == row_text(e.deep_view()),
{
    let mut out: String = prefixed(e.name.as_str(), "\t");
    if let Some(u) = &e.username {
        out.append(u.as_str());
    }
    assert(out@ =~= e.name@ + "\t"@ + or_empty(e.username.deep_view()));
    out.append("\t");
    let ghost before = out@;
    if let Some(f) = &e.folder {
        out.append(f.as_str());
    }
    assert(out@ =~= before + or_empty(e.folder.deep_view()));
    out
}

/// What a deletion tells.
pub fn print_removed(r: &Removed) -> (out: String)
    ensures
        out@ == "removed: "@ + r.name@ + " ("@ + r.id@ + ")"@,
{
    let mut out: String = prefixed("removed: ", r.name.as_str());
    out.append(" (");
    out.append(r.id.as_str());
    out.append(")");
    out
}

/// What a creation or a change tells: the item, and the password where it was
/// generated.
pub fn print_saved(s: &Saved, generated: &Option<String>) -> (out: Vec<String>)
    ensures
        texts(out@) == seq!["saved: "@ + s.name@ + " ("@ + s.id@ + ")"@] + line_if(
            "generated password: "@,
            generated.deep_view(),
        ),
{
    let mut line: String = prefixed("saved: ", s.name.as_str());
    line.append(" (");
    line.append(s.id.as_str());
    line.append(")");
    let mut out: Vec<String> = Vec::new();
    out.push(line);
    assert(texts(out@) =~= seq!["saved: "@ + s.name@ + " ("@ + s.id@ + ")"@]);
    push_line(&mut out, "generated password: ", generated);
    out
}

/// What a login tells: as whom, how many items there are, and when the vault
/// was fetched.
pub open spec fn login_text(email: Seq<char>, s: StatusView) -> Seq<char> {
    "logged in as "@ + email + (match s.items {
        Some(n) => " · "@ + decimal(n as nat) + " items"@,
        None => Seq::empty(),
    }) + (match s.last_sync {
        Some(t) => " · synced "@ + t,
        None => Seq::empty(),
    })
}

/// What a login tells.
pub fn print_login_summary(email: &str, s: &Status) -> (out: String)
    ensures
        out@ == login_text(email@, s.deep_view()),
{
    let mut out: String = prefixed("logged in as ", email);
    let ghost head = out@;
    if let Some(n) = s.items {
        let mut part: String = prefixed(" · ", decimal_text(n as u64).as_str());
        part.append(" items");
        out.append(part.as_str());
    }
    assert(out@ =~= head + (match s.items {
        Some(n) => " · "@ + decimal(n as nat) + " items"@,
        None => Seq::empty(),
    }));
    let ghost before = out@;
    if let Some(t) = &s.last_sync {
        out.append(prefixed(" · synced ", t.as_str()).as_str());
    }
    assert(out@ =~= before + (match s.deep_view().last_sync {
        Some(t) => " · synced "@ + t,
        None => Seq::empty(),
    }));
    out
}

/// What reading a setting tells: its value, `(unset)` where there is none.
pub open spec fn shown(v: Option<Seq<char>>) -> Seq<char> {
    match v {
        Some(s) => s,
        None => "(unset)"@,
    }
}

/// What reading all settings tells of the first `n`: a line for each key.
pub open spec fn config_text(c: Config, n: int) -> Seq<Seq<char>> {
    Seq::new(
        n as nat,
        |i: int|
            config::all_names()[i] + " = "@ + shown(
                match config::setting(
                    c,
                    config::all_keys()[i],
                ) {
                    Some(v) => Some(config::value_text(v)),
                    None => None,
                },
            ),
    )
}

/// What reading one setting tells.
pub fn config_value(v: &Option<String>) -> (out: String)
    ensures
        out@ == shown(v.deep_view()),
{
    match v {
        Some(s) => s.clone(),
        None => "(unset)".to_owned(),
    }
}

/// What reading all settings tells: a line for each key.
pub fn config_lines(c: &Config) -> (out: Vec<String>)
    ensures
        texts(out@) == config_text(*c, 7),
{
    let keys: Vec<String> = config::every_key();
    assert(texts(keys@).len() == keys@.len());
    assert(config::all_names().len() == 7);
    let mut out: Vec<String> = Vec::new();
    assert(texts(out@) =~= config_text(*c, 0));
    let mut i: usize = 0;
    while i < keys.len()
        invariant
            i <= keys@.len(),
            keys@.len() == 7,
            texts(keys@) == config::all_names(),
            texts(out@) =~= config_text(*c, i as int),
        decreases keys.len() - i,
    {
        let ghost before = out@;
        let ghost key = config::all_keys()[i as int];
        proof {
            assert(texts(keys@)[i as int] == keys@[i as int]@);
            assert(keys@[i as int]@ == config::key_name(key));
            config::key_is_found_by_its_name(key);
        }
        let value: Option<String> = match c.get(keys[i].as_str()) {
            Ok(v) => v,
            Err(_) => None,
        };
        let mut line: String = prefixed(keys[i].as_str(), " = ");
        line.append(config_value(&value).as_str());
        out.push(line);
        assert(texts(out@) =~= texts(before).push(line@));
        i += 1;
    }
    out
}

/// Each error that a script can act on has an exit code of its own; two errors
/// with the same one are of the same kind or have none of their own. No error
/// ends like a success.
pub proof fn exit_codes_tell_errors_apart(a: ErrorView, b: ErrorView)
    ensures
        exit_code_of(a) != 0,
        exit_code_of(a) == 4 <==> a is Locked,
        exit_code_of(a) == 5 <==> a is BadPassword,
        exit_code_of(a) == 6 <==> a is TwoFactorRequired,
        exit_code_of(a) == 7 <==> a is NoSuchItem,
        exit_code_of(a) == 8 <==> a is NoSuchField,
        exit_code_of(a) == 10 <==> a is AmbiguousItem,
        exit_code_of(a) == 11 <==> a is Offline,
        exit_code_of(a) == exit_code_of(b) && exit_code_of(a) != 9 ==> {
            ||| a is Locked && b is Locked
            ||| a is BadPassword && b is BadPassword
            ||| a is TwoFactorRequired && b is TwoFactorRequired
            ||| a is NoSuchItem && b is NoSuchItem
            ||| a is NoSuchField && b is NoSuchField
            ||| a is AmbiguousItem && b is AmbiguousItem
            ||| a is Offline && b is Offline
        },
{
}

/// No error is ever an answer that was expected, and an answer is expected by
/// the one kind of request it belongs to. A sync is also content with success
/// alone.
pub proof fn answers_belong_to_their_requests(e: Expected, r: Response)
    ensures
        is_expected(e, r) ==> !(r is Error) && !(r is Copied),
        r is Done ==> (is_expected(e, r) <==> e is Ack || e is Synced),
        r is Status ==> (is_expected(e, r) <==> e is Status || e is Synced),
        r is List ==> (is_expected(e, r) <==> e is List),
        r is Item ==> (is_expected(e, r) <==> e is Item),
        r is Removed ==> (is_expected(e, r) <==> e is Removed),
        r is Saved ==> (is_expected(e, r) <==> e is Saved),
        r is PinStatus ==> (is_expected(e, r) <==> e is PinStatus),
        r is ApiKeyStatus ==> (is_expected(e, r) <==> e is ApiKeyStatus),
{
}

/// A command without arguments asks for what it is called, and only stopping
/// never starts an agent.
pub proof fn plain_commands_ask_for_what_they_are_called(c: Command)
    ensures
        plan_of(c).spawn <==> !(c is StopAgent),
        c is Status ==> plan_of(c).request is Status && plan_of(c).expected is Status,
        c is Lock ==> plan_of(c).request is Lock && plan_of(c).expected is Ack,
        c is Sync ==> plan_of(c).request is Sync && plan_of(c).expected is Synced,
        c is List ==> plan_of(c).request is List && plan_of(c).expected is List,
        c is StopAgent ==> plan_of(c).request is Quit && plan_of(c).expected is Ack,
{
}

/// A command on an item names that item, and the field it is for, in its
/// request.
pub proof fn item_commands_name_the_item(name: String, field: Field, selector: String)
    ensures
        plan_of(Command::Get { name, field }).request matches Request::Get { id, name: n, field: f }
            && id is None && n == name && f == Some(field),
        plan_of(Command::Get { name, field }).expected is Item,
        plan_of(Command::Remove { selector }).request matches Request::Remove { selector: s } && s
            == selector,
        plan_of(Command::Remove { selector }).expected is Removed,
{
}

/// A command on an account hands on the server and the email of that account,
/// and unlocking hands on the secret as it was entered.
pub proof fn account_commands_name_the_account(
    account: Account,
    password: Vec<u8>,
    pin: Vec<u8>,
    api_key: Option<ApiKeyCreds>,
    two_factor: Option<TwoFactorCode>,
)
    ensures
        plan_of(Command::Unlock { account, password, api_key, two_factor }).request
            matches Request::Unlock {
            server,
            email,
            password: p,
            device_id,
            api_key: k,
            two_factor: t,
        } && server == account.server && email == account.email && p == password && device_id
            == account.device_id && k == api_key && t == two_factor,
        plan_of(Command::UnlockPin { account, pin }).request matches Request::UnlockPin {
            server,
            email,
            pin: p,
        } && server == account.server && email == account.email && p == pin,
        plan_of(Command::PinSet { pin }).request matches Request::PinSet { pin: p } && p == pin,
        plan_of(Command::PinStatus { account }).request matches Request::PinStatus {
            server,
            email,
        } && server == account.server && email == account.email,
        plan_of(Command::PinStatus { account }).expected is PinStatus,
        plan_of(Command::PinDisable { account }).request matches Request::PinDisable {
            server,
            email,
        } && server == account.server && email == account.email,
        plan_of(Command::ApiKeyStatus { account }).request matches Request::ApiKeyStatus {
            server,
            email,
        } && server == account.server && email == account.email,
        plan_of(Command::ApiKeyStatus { account }).expected is ApiKeyStatus,
        plan_of(Command::ApiKeyForget { account }).request matches Request::ApiKeyForget {
            server,
            email,
        } && server == account.server && email == account.email,
        plan_of(Command::Unlock { account, password, api_key, two_factor }).expected is Ack,
        plan_of(Command::UnlockPin { account, pin }).expected is Ack,
        plan_of(Command::PinSet { pin }).expected is Ack,
        plan_of(Command::PinDisable { account }).expected is Ack,
        plan_of(Command::ApiKeyForget { account }).expected is Ack,
{
}

/// The command line goes before the environment, and the environment before
/// what is registered. Registering passes over an empty environment.
pub proof fn values_are_taken_in_turn(
    given: Seq<char>,
    env: Option<Seq<char>>,
    registered: Option<Seq<char>>,
)
    ensures
        first_of(Some(given), env, registered) == Some(given),
        first_of(None, Some(given), registered) == Some(given),
        first_of(None, None, registered) == registered,
        given_or_env(Some(given), env) == Some(given),
        given.len() > 0 ==> given_or_env(None, Some(given)) == Some(given),
        given_or_env(None, Some(Seq::empty())) is None,
        given_or_env(None, None) is None,
{
}

/// An origin begins with the scheme of the web, encrypted or not.
pub proof fn origins_have_a_scheme_of_the_web(rest: Seq<char>, server: Seq<char>)
    ensures
        is_origin("https://"@ + rest),
        is_origin("http://"@ + rest),
        is_origin(server) ==> server.len() >= 7 && server.take(4) == "http"@,
{
    reveal_strlit("https://");
    reveal_strlit("http://");
    reveal_strlit("http");
    let a = "https://"@ + rest;
    let b = "http://"@ + rest;
    assert(a.take(8) =~= "https://"@);
    assert(b.take(7) =~= "http://"@);
    if has_prefix(server, "https://"@) {
        assert(server.take(4) =~= server.take(8).take(4));
        assert("https://"@.take(4) =~= "http"@);
    }
    if has_prefix(server, "http://"@) {
        assert(server.take(4) =~= server.take(7).take(4));
        assert("http://"@.take(4) =~= "http"@);
    }
}

/// What is entered is taken as it is, but for the end of the line: entering it
/// with either kind of line end, or without, gives the same.
pub proof fn entering_drops_the_line_end_alone(s: Seq<char>)
    ensures
        s.len() == 0 || s.last() != '\n' ==> entered(s) == s,
        s.len() == 0 || s.last() != '\r' ==> entered(s.push('\n')) == s,
        entered(s.push('\r').push('\n')) == s,
{
    assert(s.push('\n').drop_last() =~= s);
    assert(s.push('\r').push('\n').drop_last() =~= s.push('\r'));
    assert(s.push('\r').drop_last() =~= s);
}

/// A field of a card or of an identity makes it one that is given; without any
/// it is not.
pub proof fn any_field_is_noticed(c: CardWrite, i: IdentityWrite)
    ensures
        !names_card(c) <==> c.cardholder is None && c.brand is None && c.number is None
            && c.exp_month is None && c.exp_year is None && c.code is None,
        !names_identity(i) <==> i.title is None && i.first_name is None && i.middle_name is None
            && i.last_name is None && i.username is None && i.company is None && i.ssn is None
            && i.passport_number is None && i.license_number is None && i.email is None
            && i.phone is None && i.address1 is None && i.address2 is None && i.address3 is None
            && i.city is None && i.state is None && i.postal_code is None && i.country is None,
        kept(true, Some(c)) == Some(c),
        kept(false, Some(c)) is None,
{
}

/// A month from 1 to 12, with or without a leading zero, and a year of four or
/// two digits make an expiry: the month loses the zero, and the year gets its
/// century.
pub proof fn expiry_is_month_and_year(month: nat, padded: bool, year: Seq<char>)
    requires
        1 <= month <= 12,
        padded ==> month < 10,
        all_digits(year),
    ensures
        ({
            let m = if padded { "0"@ + decimal(month) } else { decimal(month) };
            let s = m.push('/') + year;
            &&& year.len() == 4 ==> expiry_parts(s) == Some((decimal(month), year))
            &&& year.len() == 2 ==> expiry_parts(s) == Some((decimal(month), "20"@ + year))
            &&& year.len() != 4 && year.len() != 2 ==> expiry_parts(s) is None
        }),
{
    reveal_strlit("0");
    reveal_with_fuel(decimal, 3);
    reveal_with_fuel(digits_value, 4);
    let m = if padded { "0"@ + decimal(month) } else { decimal(month) };
    let s = m.push('/') + year;
    decimal_parses_back(month, 12);
    assert(decimal(month).len() <= 2);
    assert forall|k: int| 0 <= k < m.len() implies '0' <= #[trigger] m[k] <= '9' by {
    }
    assert(all_digits(m));
    assert(unsigned_digits(m) == m);
    if padded {
        assert(m =~= seq!['0', decimal(month)[0]]);
        assert(m.drop_last() =~= seq!['0']);
        assert(m.drop_last().drop_last() =~= Seq::<char>::empty());
        assert(decimal(month).drop_last() =~= Seq::<char>::empty());
        assert(digits_value(m) == month);
    }
    assert(parse_uint(m, 12) == Some(month));
    split_once_is(m, '/', year);
}

/// Only a month from 1 to 12 in one or two digits, a slash, and a year of two or
/// four digits are an expiry.
pub proof fn nothing_else_is_an_expiry(s: Seq<char>)
    requires
        expiry_parts(s) is Some,
    ensures
        exists|m: Seq<char>, y: Seq<char>|
            {
                &&& s == #[trigger] (m.push('/') + y)
                &&& all_digits(m)
                &&& 1 <= m.len() <= 2
                &&& 1 <= digits_value(m) <= 12
                &&& all_digits(y)
                &&& y.len() == 2 || y.len() == 4
            },
{
    split_once_joins(s, '/');
    let (m, y) = split_once(s, '/')->Some_0;
    assert(s =~= m.push('/') + y);
    assert(unsigned_digits(m) == m);
}

/// The state is told in lines: the first says whether a vault is open, and each
/// thing known has a line of its own.
pub proof fn every_part_of_the_state_is_told(s: StatusView)
    ensures
        status_text(s).first() == (if s.unlocked { "unlocked"@ } else { "locked"@ }),
        s.server matches Some(v) ==> status_text(s).contains("server:        "@ + v),
        s.email matches Some(v) ==> status_text(s).contains("email:         "@ + v),
        s.items matches Some(n) ==> status_text(s).contains(
            "items:         "@ + decimal(n as nat),
        ),
        s.last_sync matches Some(v) ==> status_text(s).contains("last sync:     "@ + v),
        status_text(s).contains("agent version: "@ + s.agent_version),
        s.clipboard_backend matches Some(v) ==> status_text(s).contains("clipboard:     "@ + v),
        status_text(s).len() == 2 + (if s.server is Some { 1int } else { 0 }) + (
        if s.email is Some { 1int } else { 0 }) + (if s.items is Some { 1int } else { 0 }) + (
        if s.last_sync is Some { 1int } else { 0 }) + (
        if s.clipboard_backend is Some { 1int } else { 0 }),
{
    let a = seq![if s.unlocked { "unlocked"@ } else { "locked"@ }];
    let b = a + line_if("server:        "@, s.server);
    let c = b + line_if("email:         "@, s.email);
    let items = match s.items {
        Some(n) => Some(decimal(n as nat)),
        None => None,
    };
    let d = c + line_if("items:         "@, items);
    let e = d + line_if("last sync:     "@, s.last_sync);
    let f = e + seq!["agent version: "@ + s.agent_version];
    let t = f + line_if("clipboard:     "@, s.clipboard_backend);
    assert(t == status_text(s));
    assert(t[0] == a[0]);
    if s.server is Some {
        assert(t[a.len() as int] == "server:        "@ + s.server->Some_0);
    }
    if s.email is Some {
        assert(t[b.len() as int] == "email:         "@ + s.email->Some_0);
    }
    if s.items is Some {
        assert(t[c.len() as int] == "items:         "@ + items->Some_0);
    }
    if s.last_sync is Some {
        assert(t[d.len() as int] == "last sync:     "@ + s.last_sync->Some_0);
    }
    assert(t[e.len() as int] == "agent version: "@ + s.agent_version);
    if s.clipboard_backend is Some {
        assert(t[f.len() as int] == "clipboard:     "@ + s.clipboard_backend->Some_0);
    }
}

/// A row holds name, username and folder in turn, what is missing being empty:
/// cut at its tabs it gives them back, as long as they hold none themselves.
pub proof fn row_is_cut_at_its_tabs(e: ListEntryView)
    requires
        !e.name.contains('\t'),
        !or_empty(e.username).contains('\t'),
        !or_empty(e.folder).contains('\t'),
    ensures
        split_all(row_text(e), '\t') == seq![
            e.name,
            match e.username {
                Some(u) => u,
                None => Seq::empty(),
            },
            match e.folder {
                Some(f) => f,
                None => Seq::empty(),
            },
        ],
{
    reveal_strlit("\t");
    let u = or_empty(e.username);
    let f = or_empty(e.folder);
    assert("\t"@ =~= seq!['\t']);
    let rest = u.push('\t') + f;
    assert(row_text(e) =~= e.name.push('\t') + rest);
    pieces_end_at_separators(e.name, '\t', rest);
    pieces_end_at_separators(u, '\t', f);
    pieces_end_at_separators(f, '\t', Seq::empty());
    assert(split_all(row_text(e), '\t') =~= seq![e.name, u, f]);
}

/// A login tells as whom; how many items there are and when they were fetched
/// follow where they are known.
pub proof fn login_is_told(email: Seq<char>, s: StatusView)
    ensures
        s.items is None && s.last_sync is None ==> login_text(email, s) == "logged in as "@ + email,
        s.items matches Some(n) ==> (s.last_sync is None ==> login_text(email, s)
            == "logged in as "@ + email + (" · "@ + decimal(n as nat) + " items"@)),
        s.last_sync matches Some(t) ==> login_text(email, s) == login_text(
            email,
            (StatusView { last_sync: None, ..s }),
        ) + (" · synced "@ + t),
{
    let none = Seq::<char>::empty();
    let head = "logged in as "@ + email;
    assert(head + none =~= head);
    assert(head + none + none =~= head);
    if let Some(n) = s.items {
        let items = head + (" · "@ + decimal(n as nat) + " items"@);
        assert(items + none =~= items);
    }
    let without = login_text(email, (StatusView { last_sync: None, ..s }));
    if let Some(n) = s.items {
        let items = head + (" · "@ + decimal(n as nat) + " items"@);
        assert(without =~= items);
    } else {
        assert(without =~= head);
    }
}

/// Every setting is told in a line of its own, by its name, with its value or
/// that it has none.
pub proof fn every_setting_is_told(c: Config, k: config::Key)
    ensures
        config_text(c, 7).len() == 7,
        config_text(c, 7).contains(
            config::key_name(k) + " = "@ + (match config::setting(c, k) {
                Some(v) => config::value_text(v),
                None => "(unset)"@,
            }),
        ),
{
    let i: int = match k {
        config::Key::ClearSecs => 0,
        config::Key::IdleLockSecs => 1,
        config::Key::IntervalSecs => 2,
        config::Key::Backend => 3,
        config::Key::SessionKeyring => 4,
        config::Key::ReducedMotion => 5,
        config::Key::Vim => 6,
    };
    assert(config::all_keys()[i] == k);
    assert(config::all_names()[i] == config::key_name(k));
    assert(config_text(c, 7)[i] == config::key_name(k) + " = "@ + (match config::setting(c, k) {
        Some(v) => config::value_text(v),
        None => "(unset)"@,
    }));
}

} // verus!
