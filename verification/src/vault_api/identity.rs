//! Answers of the identity endpoints.
use vstd::prelude::*;
use vstd::string::*;
use crate::text::{chars_of, parse_bounded, parse_uint};
use crate::vault_core::error::{Error, Result};
use crate::vault_core::kdf::{kdf_type, KdfParams, KdfType};

verus! {

/// The key-derivation parameters that the server tells before a login.
#[derive(Clone, Copy, Debug, PartialEq, Eq, Structural)]
pub struct PreloginResponse {
    /// Number of the function.
    pub kdf: u8,
    /// Iterations.
    pub kdf_iterations: u32,
    /// Memory in KiB (Argon2id).
    pub kdf_memory: Option<u32>,
    /// Lanes (Argon2id).
    pub kdf_parallelism: Option<u32>,
}

/// The parameters that an answer stands for.
pub open spec fn prelogin_params(p: PreloginResponse) -> Result<KdfParams> {
    match kdf_type(p.kdf) {
        Err(_) => Err(Error::Kdf("unknown kdfType")),
        Ok(kind) => Ok(
            KdfParams {
                kind,
                iterations: p.kdf_iterations,
                memory_kib: p.kdf_memory,
                parallelism: p.kdf_parallelism,
            },
        ),
    }
}

impl PreloginResponse {
    /// The parameters that the answer stands for. An unsupported function is
    /// an error of the key derivation.
    pub fn into_kdf_params(self) -> (r: Result<KdfParams>)
        ensures
            r == prelogin_params(self),
    {
        match KdfType::try_from(self.kdf) {
            Err(_) => Err(Error::Kdf("unknown kdfType")),
            Ok(kind) => Ok(
                KdfParams {
                    kind,
                    iterations: self.kdf_iterations,
                    memory_kib: self.kdf_memory,
                    parallelism: self.kdf_parallelism,
                },
            ),
        }
    }
}

/// The tokens that a login gives.
#[derive(Clone, Debug)]
pub struct TokenResponse {
    /// Access token.
    pub access_token: String,
    /// Seconds until it expires.
    pub expires_in: u64,
    /// Kind of the token.
    pub token_type: String,
    /// Refresh token.
    pub refresh_token: Option<String>,
    /// Envelope around the user key.
    pub key: Option<String>,
    /// Envelope around the RSA private key.
    pub private_key: Option<String>,
}

/// The body with which the server asks for a second factor.
#[derive(Clone, Debug)]
pub struct TwoFactorErrorBody {
    /// The providers with their parameters, as JSON.
    pub two_factor_providers2: Option<String>,
    /// The numbers of the providers.
    pub two_factor_providers: Option<Vec<u32>>,
}

/// An element of a list of providers: servers write numbers or texts.
#[derive(Clone, Debug)]
pub enum ProviderId {
    /// A number.
    Number(u64),
    /// A text.
    Text(String),
    /// Anything else.
    Other,
}

/// The number that an element stands for, if it stands for one.
pub open spec fn provider_number(p: ProviderId) -> Option<u32> {
    match p {
        ProviderId::Number(n) => if n <= u32::MAX {
            Some(n as u32)
        } else {
            None
        },
        ProviderId::Text(s) => match parse_uint(s@, u32::MAX as nat) {
            Some(n) => Some(n as u32),
            None => None,
        },
        ProviderId::Other => None,
    }
}

/// The numbers of the elements that stand for one, in order.
pub open spec fn provider_numbers(list: Seq<ProviderId>) -> Seq<u32>
    decreases list.len(),
{
    if list.len() == 0 {
        Seq::empty()
    } else {
        match provider_number(list.last()) {
            Some(n) => provider_numbers(list.drop_last()).push(n),
            None => provider_numbers(list.drop_last()),
        }
    }
}

fn number_of(p: &ProviderId) -> (r: Option<u32>)
    ensures
        r == provider_number(*p),
{
    match p {
        ProviderId::Number(n) => if *n <= u32::MAX as u64 {
            Some(*n as u32)
        } else {
            None
        },
        ProviderId::Text(s) => {
            let chars: Vec<char> = chars_of(s.as_str());
            match parse_bounded(chars.as_slice(), u32::MAX as u64) {
                Some(n) => Some(n as u32),
                None => None,
            }
        },
        ProviderId::Other => None,
    }
}

/// The numbers of the providers in a list; elements that stand for none are
/// passed over.
pub fn provider_ids(list: &Vec<ProviderId>) -> (out: Vec<u32>)
    ensures
        out@ == provider_numbers(list@),
{
    let mut out: Vec<u32> = Vec::new();
    let mut i: usize = 0;
    while i < list.len()
        invariant
            i <= list.len(),
            out@ == provider_numbers(list@.take(i as int)),
        decreases list.len() - i,
    {
        assert(list@.take(i + 1).drop_last() =~= list@.take(i as int));
        if let Some(n) = number_of(&list[i]) {
            out.push(n);
        }
        i += 1;
    }
    assert(list@.take(list@.len() as int) =~= list@);
    out
}

/// Every cost that the server tells is taken as it is, for the function that it
/// names; a function that is not known is refused.
pub proof fn told_costs_are_taken(p: PreloginResponse)
    ensures
        p.kdf == 0 ==> prelogin_params(p) == Ok::<KdfParams, Error>(
            KdfParams {
                kind: KdfType::Pbkdf2Sha256,
                iterations: p.kdf_iterations,
                memory_kib: p.kdf_memory,
                parallelism: p.kdf_parallelism,
            },
        ),
        p.kdf == 1 ==> prelogin_params(p) == Ok::<KdfParams, Error>(
            KdfParams {
                kind: KdfType::Argon2id,
                iterations: p.kdf_iterations,
                memory_kib: p.kdf_memory,
                parallelism: p.kdf_parallelism,
            },
        ),
        p.kdf >= 2 ==> prelogin_params(p) == Err::<KdfParams, Error>(
            Error::Kdf("unknown kdfType"),
        ),
{
}

/// Providers are numbers, or texts that are numbers; of a list, those that are
/// come in order, and the others are passed over.
pub proof fn providers_are_taken_in_order(list: Seq<ProviderId>, p: ProviderId)
    ensures
        provider_numbers(Seq::empty()) == Seq::<u32>::empty(),
        provider_numbers(list.push(p)) == (match provider_number(p) {
            Some(n) => provider_numbers(list).push(n),
            None => provider_numbers(list),
        }),
        p matches ProviderId::Number(n) ==> n <= u32::MAX ==> provider_number(p) == Some(n as u32),
        p matches ProviderId::Text(s) ==> match parse_uint(s@, u32::MAX as nat) {
            Some(n) => provider_number(p) matches Some(m) && m == n,
            None => provider_number(p) is None,
        },
        p is Other ==> provider_number(p) is None,
{
    assert(list.push(p).drop_last() =~= list);
}

} // verus!
