//! Starting the agent.
use vstd::prelude::*;
use vstd::string::*;

verus! {

/// Milliseconds to wait for a started agent to accept connections.
pub const SPAWN_DEADLINE_MS: u64 = 2000;

/// Milliseconds between two tries to connect to a started agent.
pub const SPAWN_POLL_MS: u64 = 25;

/// Why a connection to the socket failed.
#[derive(Clone, Copy, Debug, PartialEq, Eq, Structural)]
pub enum ConnectFailure {
    /// There is no socket.
    NotFound,
    /// Nobody accepts on the socket.
    ConnectionRefused,
    /// The socket may not be used.
    PermissionDenied,
    /// Anything else.
    Other,
}

/// Whether a failed connection means that no agent runs: there is no socket,
/// or nobody accepts on it.
pub fn socket_is_dead(failure: ConnectFailure) -> (b: bool)
    ensures
        b == (failure == ConnectFailure::NotFound || failure == ConnectFailure::ConnectionRefused),
{
    match failure {
        ConnectFailure::NotFound => true,
        ConnectFailure::ConnectionRefused => true,
        _ => false,
    }
}

/// The agent's binary: the one named by the environment, unless the name is
/// empty; else the sibling of the running binary; else by its name on the
/// search path.
pub open spec fn agent_binary(overridden: Option<Seq<char>>, sibling: Option<Seq<char>>) -> Seq<
    char,
> {
    match overridden {
        Some(p) if p.len() > 0 => p,
        _ => match sibling {
            Some(s) => s,
            None => "vault-agent"@,
        },
    }
}

/// The agent's binary.
pub fn resolve_binary(overridden: Option<String>, sibling: Option<String>) -> (r: String)
    ensures
        r@ == agent_binary(overridden.deep_view(), sibling.deep_view()),
{
    if let Some(p) = overridden {
        if !p.as_str().is_empty() {
            return p;
        }
    }
    match sibling {
        Some(s) => s,
        None => "vault-agent".to_owned(),
    }
}

/// Whether to try once more to connect to a started agent.
pub fn keep_waiting(elapsed_ms: u64) -> (b: bool)
    ensures
        b == (elapsed_ms < SPAWN_DEADLINE_MS),
{
    elapsed_ms < SPAWN_DEADLINE_MS
}

/// The binary named is taken, then the sibling, then the one on the search path;
/// an empty name is none.
pub proof fn binary_is_chosen_in_turn(named: Seq<char>, sibling: Option<Seq<char>>)
    ensures
        named.len() > 0 ==> agent_binary(Some(named), sibling) == named,
        agent_binary(Some(Seq::empty()), sibling) == agent_binary(None, sibling),
        sibling matches Some(s) ==> agent_binary(None, sibling) == s,
        sibling is None ==> agent_binary(None, sibling) == "vault-agent"@,
{
}

} // verus!
