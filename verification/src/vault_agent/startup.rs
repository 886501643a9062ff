//! What the agent settles when it starts.
use vstd::prelude::*;
use vstd::string::*;
use crate::clock::or_zero;
use crate::text::{
    chars_of, decimal, decimal_parses_back, parse_bounded, parse_uint, unsigned_digits,
};
use crate::vault_agent::session::{expired_at, SessionBlob};
use crate::vault_agent::state::{
    session_of, session_ttl, touch_session, touched, AgentState, AgentView, Moment, SessionStore,
};
use crate::vault_agent::vault::Vault;
use crate::vault_core::error::prefixed;
use crate::vault_ipc::socket::{is_absolute, sanitize_socket_path};

verus! {

/// Seconds after which a copied value is cleared: those of the flag, else
/// those of the environment where they are a number, else thirty.
pub open spec fn clear_secs(flag: Option<u64>, env: Option<Seq<char>>) -> u64 {
    match (flag, env) {
        (Some(n), _) => n,
        (None, Some(s)) => match parse_uint(s, u64::MAX as nat) {
            Some(n) => n as u64,
            None => 30,
        },
        (None, None) => 30,
    }
}

/// Seconds after which a copied value is cleared.
pub fn resolve_clear_secs(flag: Option<u64>, env: Option<&str>) -> (r: u64)
    ensures
        r == clear_secs(flag, crate::vault_agent::state::text_opt(env)),
{
    if let Some(n) = flag {
        return n;
    }
    match env {
        None => 30,
        Some(s) => {
            let chars: Vec<char> = chars_of(s);
            match parse_bounded(chars.as_slice(), u64::MAX) {
                Some(n) => n,
                None => 30,
            }
        },
    }
}

/// The socket to use: the one given on the command line, else that of the
/// environment, which must be absolute, else the default one.
pub open spec fn socket_for(
    flag: Option<Seq<char>>,
    env: Option<Seq<char>>,
    fallback: Option<Seq<char>>,
) -> Result<Seq<char>, Seq<char>> {
    match (flag, env, fallback) {
        (Some(p), _, _) => Ok(p),
        (None, Some(p), _) => if is_absolute(p) {
            Ok(p)
        } else {
            Err("VAULT_AGENT_SOCK is not an absolute path: "@ + p)
        },
        (None, None, Some(p)) => Ok(p),
        (None, None, None) => Err("no XDG_RUNTIME_DIR / TMPDIR available"@),
    }
}

/// The socket to use.
pub fn pick_socket(flag: Option<String>, env: Option<String>, fallback: Option<String>) -> (r:
    Result<String, String>)
    ensures
        match (r, socket_for(flag.deep_view(), env.deep_view(), fallback.deep_view())) {
            (Ok(a), Ok(b)) => a@ == b,
            (Err(a), Err(b)) => a@ == b,
            _ => false,
        },
{
    if let Some(p) = flag {
        return Ok(p);
    }
    match env {
        Some(p) => match sanitize_socket_path(p.as_str()) {
            Some(q) => Ok(q),
            None => Err(prefixed("VAULT_AGENT_SOCK is not an absolute path: ", p.as_str())),
        },
        None => match fallback {
            Some(p) => Ok(p),
            None => Err("no XDG_RUNTIME_DIR / TMPDIR available".to_owned()),
        },
    }
}

/// What becomes of a stored session when an agent starts.
#[derive(Clone, Copy, Debug, PartialEq, Eq, Structural)]
pub enum ResumeStep {
    /// Nothing: the agent stays locked.
    Nothing,
    /// It is void and cleared.
    Clear,
    /// The cache of its account is loaded and the vault rebuilt.
    Resume,
}

/// What becomes of a stored session when an agent starts at a second since the
/// Unix epoch: it is resumed where sessions are stored at all, none is asked a
/// fingerprint for, and its deadline has not passed.
pub open spec fn resume_step(a: AgentView, deadline: Option<u64>, unix: u64) -> ResumeStep {
    if !a.session_keyring || a.fingerprint_unlock {
        ResumeStep::Nothing
    } else {
        match deadline {
            None => ResumeStep::Nothing,
            Some(d) => if expired_at(d, unix) {
                ResumeStep::Clear
            } else {
                ResumeStep::Resume
            },
        }
    }
}

/// A stored session is resumed by a new agent for the whole of its time, and is
/// void from then on.
pub proof fn stored_session_resumes(a: AgentView, stored: Moment, b: AgentView, unix: u64)
    requires
        session_of(a, stored) is Some,
        or_zero(stored.unix) + session_ttl(a) <= u64::MAX,
        b.session_keyring,
        !b.fingerprint_unlock,
    ensures
        resume_step(b, Some(session_of(a, stored)->Some_0.deadline_unix), unix) == (if session_ttl(a)
            == 0 || unix < or_zero(stored.unix) + session_ttl(a) {
            ResumeStep::Resume
        } else {
            ResumeStep::Clear
        }),
{
}

/// What becomes of a stored session when an agent starts.
pub fn try_resume(state: &AgentState, blob: &Option<SessionBlob>, unix: u64) -> (r: ResumeStep)
    ensures
        r == resume_step(
            state@,
            match *blob {
                Some(b) => Some(b.deadline_unix),
                None => None,
            },
            unix,
        ),
{
    if !state.session_keyring || state.fingerprint_unlock {
        return ResumeStep::Nothing;
    }
    match blob {
        None => ResumeStep::Nothing,
        Some(b) => if b.expired(unix) {
            ResumeStep::Clear
        } else {
            ResumeStep::Resume
        },
    }
}

/// Unlocks the agent with the vault of a resumed session.
pub fn resumed(state: &mut AgentState, vault: Vault, now: Moment) -> (r: Option<SessionStore>)
    ensures
        final(state)@ == touched(
            AgentView { vault: Some(vault.deep_view()), ..old(state)@ },
            now,
        ),
        r.deep_view() == touch_session(
            AgentView { vault: Some(vault.deep_view()), ..old(state)@ },
            now,
        ),
{
    state.install(vault);
    state.touch(now)
}

/// The flag decides, then the environment, and thirty seconds where neither
/// gives a number.
pub proof fn copied_values_are_cleared_in_time(flag: u64, env: Option<Seq<char>>, n: u64)
    ensures
        clear_secs(Some(flag), env) == flag,
        clear_secs(None, Some(decimal(n as nat))) == n,
        clear_secs(None, None) == 30,
        env matches Some(s) ==> ((exists|i: int|
            0 < i < s.len() && !('0' <= #[trigger] s[i] <= '9')) || s.len() == 0 ==> clear_secs(
            None,
            env,
        ) == 30),
{
    decimal_parses_back(n as nat, u64::MAX as nat);
    if let Some(s) = env {
        if exists|i: int| 0 < i < s.len() && !('0' <= #[trigger] s[i] <= '9') {
            let i = choose|i: int| 0 < i < s.len() && !('0' <= #[trigger] s[i] <= '9');
            let d = unsigned_digits(s);
            if d.len() == s.len() {
                assert(d[i] == s[i]);
            } else {
                assert(d[i - 1] == s[i]);
            }
        }
    }
}

/// The socket is the one of the flag, then the one of the environment, which
/// must be a path from the root, then the usual one.
pub proof fn socket_is_chosen_in_turn(
    flag: Seq<char>,
    env: Seq<char>,
    other_env: Option<Seq<char>>,
    fallback: Seq<char>,
    other: Option<Seq<char>>,
)
    ensures
        socket_for(Some(flag), other_env, other) == Ok::<Seq<char>, Seq<char>>(flag),
        env.len() > 0 && env[0] == '/' ==> socket_for(None, Some(env), other) == Ok::<
            Seq<char>,
            Seq<char>,
        >(env),
        env.len() == 0 || env[0] != '/' ==> socket_for(None, Some(env), other) is Err,
        socket_for(None, None, Some(fallback)) == Ok::<Seq<char>, Seq<char>>(fallback),
        socket_for(None, None, None) is Err,
{
}

/// A stored session is resumed where sessions are stored, no fingerprint is
/// asked for, and its deadline, if it has one, is still to come; where it has
/// passed the session is cleared.
pub proof fn live_session_is_resumed(a: AgentView, deadline: Option<u64>, unix: u64)
    ensures
        resume_step(a, deadline, unix) is Resume <==> a.session_keyring && !a.fingerprint_unlock
            && (deadline matches Some(d) && (d == 0 || unix < d)),
        resume_step(a, deadline, unix) is Clear <==> a.session_keyring && !a.fingerprint_unlock
            && (deadline matches Some(d) && 0 < d && d <= unix),
{
}

} // verus!
