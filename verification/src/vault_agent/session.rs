//! Sessions that outlive the agent's process.
use vstd::prelude::*;
use vstd::string::*;
use crate::crypto::wipe_key;

verus! {

/// Name of the entry in the session keyring.
pub const KEY_DESC: &'static str = "vault-agent:session";

/// What is needed to unlock a vault again without a password.
#[derive(Clone)]
pub struct SessionBlob {
    /// Server origin.
    pub server: String,
    /// Account email.
    pub email: String,
    /// User key for encryption.
    pub user_enc: [u8; 32],
    /// User key for authentication.
    pub user_mac: [u8; 32],
    /// Second since the Unix epoch from which on the session is void; zero for
    /// never.
    pub deadline_unix: u64,
}

/// The deadline of a session stored at `now` for `ttl` seconds; none for a
/// time of zero.
pub open spec fn deadline(now: u64, ttl: u64) -> u64 {
    if ttl == 0 {
        0
    } else if now + ttl > u64::MAX {
        u64::MAX
    } else {
        (now + ttl) as u64
    }
}

/// Whether a session with a deadline is void at `now`.
pub open spec fn expired_at(deadline_unix: u64, now: u64) -> bool {
    deadline_unix != 0 && now >= deadline_unix
}

/// A session lives for its whole time and not beyond; one without a deadline
/// lives on.
pub proof fn session_lives_for_its_time(stored: u64, ttl: u64, now: u64)
    requires
        stored + ttl <= u64::MAX,
    ensures
        ttl == 0 ==> !expired_at(deadline(stored, ttl), now),
        ttl > 0 ==> (expired_at(deadline(stored, ttl), now) <==> now >= stored + ttl),
{
}

/// The deadline of a session stored at `now` for `ttl` seconds.
pub fn session_deadline(now: u64, ttl: u64) -> (r: u64)
    ensures
        r == deadline(now, ttl),
{
    if ttl == 0 {
        0
    } else if ttl > u64::MAX - now {
        u64::MAX
    } else {
        now + ttl
    }
}

impl Drop for SessionBlob {
    /// Wipes the keys.
    fn drop(&mut self)
        opens_invariants none
        no_unwind
    {
        wipe_key(&mut self.user_enc);
        wipe_key(&mut self.user_mac);
    }
}

impl SessionBlob {
    /// Whether the session is void at `now`.
    pub fn expired(&self, now: u64) -> (b: bool)
        ensures
            b == expired_at(self.deadline_unix, now),
    {
        self.deadline_unix != 0 && now >= self.deadline_unix
    }
}

/// A deadline is never before the time of storing, also where the two together
/// are more than a number can hold.
pub proof fn deadline_does_not_wrap(stored: u64, ttl: u64)
    ensures
        ttl > 0 ==> deadline(stored, ttl) >= stored,
        stored + ttl > u64::MAX ==> deadline(stored, ttl) == u64::MAX,
        ttl == 0 ==> deadline(stored, ttl) == 0,
{
}

} // verus!
