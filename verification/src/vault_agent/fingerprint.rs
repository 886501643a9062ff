//! Fingerprint verification: what a reader's signals amount to.
use vstd::prelude::*;
use vstd::string::*;
use crate::text::same_text;

verus! {

/// The result of one verification.
#[derive(Clone, Debug)]
pub enum Outcome {
    /// A finger matched.
    Match,
    /// No finger matched in time.
    NoMatch,
    /// Verification could not run, and why.
    Unavailable(String),
}

/// What a signal of the reader decides: nothing until the reader is done.
pub open spec fn signal_outcome(result: Seq<char>, done: bool) -> Option<Outcome> {
    if !done {
        None
    } else if result == "verify-match"@ {
        Some(Outcome::Match)
    } else {
        Some(Outcome::NoMatch)
    }
}

impl Outcome {
    /// What a signal of the reader decides.
    pub fn from_signal(result: &str, done: bool) -> (r: Option<Outcome>)
        ensures
            r == signal_outcome(result@, done),
    {
        if !done {
            None
        } else if same_text(result, "verify-match") {
            Some(Outcome::Match)
        } else {
            Some(Outcome::NoMatch)
        }
    }
}

/// A finger matches exactly where the reader is done and says so; while it is
/// not done nothing is decided, and anything else it ends with is no match.
pub proof fn only_a_match_is_a_match(result: Seq<char>, done: bool)
    ensures
        signal_outcome(result, done) == Some(Outcome::Match) <==> done && result
            == "verify-match"@,
        signal_outcome(result, done) is None <==> !done,
{
}

} // verus!
