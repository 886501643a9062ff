//! Key derivation: PBKDF2-HMAC-SHA-256 or Argon2id from a password to a master
//! key, and HKDF from a master key to an encryption and an authentication key.
use vstd::prelude::*;
use vstd::string::*;
use vstd::utf8::encode_utf8;
use crate::crypto::{
    argon2_fault, argon2_params, argon2id, argon2id_of, hkdf_expand, hkdf_of, pbkdf2_of,
    pbkdf2_sha256, sha256, sha256_of, Argon2Error,
};
use crate::vault_core::error::{Error, Result};

verus! {

/// A key-derivation function.
#[derive(Clone, Copy, Debug, PartialEq, Eq, Structural)]
pub enum KdfType {
    /// PBKDF2 with HMAC-SHA-256, number 0.
    Pbkdf2Sha256,
    /// Argon2id, number 1.
    Argon2id,
}

/// The function with the given number.
pub open spec fn kdf_type(v: u8) -> Result<KdfType> {
    if v == 0 {
        Ok(KdfType::Pbkdf2Sha256)
    } else if v == 1 {
        Ok(KdfType::Argon2id)
    } else {
        Err(Error::UnsupportedExport("unknown kdfType"))
    }
}

/// The number of a function.
pub open spec fn kdf_number(k: KdfType) -> u8 {
    match k {
        KdfType::Pbkdf2Sha256 => 0,
        KdfType::Argon2id => 1,
    }
}

impl TryFrom<u8> for KdfType {
    type Error = Error;

    fn try_from(v: u8) -> (r: Result<KdfType>) {
        match v {
            0 => Ok(KdfType::Pbkdf2Sha256),
            1 => Ok(KdfType::Argon2id),
            _ => Err(Error::UnsupportedExport("unknown kdfType")),
        }
    }
}

impl vstd::std_specs::convert::TryFromSpecImpl<u8> for KdfType {
    open spec fn obeys_try_from_spec() -> bool {
        true
    }

    open spec fn try_from_spec(v: u8) -> Result<KdfType> {
        kdf_type(v)
    }
}

impl From<KdfType> for u8 {
    fn from(k: KdfType) -> (r: u8) {
        match k {
            KdfType::Pbkdf2Sha256 => 0,
            KdfType::Argon2id => 1,
        }
    }
}

impl vstd::std_specs::convert::FromSpecImpl<KdfType> for u8 {
    open spec fn obeys_from_spec() -> bool {
        true
    }

    open spec fn from_spec(k: KdfType) -> u8 {
        kdf_number(k)
    }
}

/// A function's number names it.
pub proof fn kdf_number_names_the_function(k: KdfType)
    ensures
        kdf_type(kdf_number(k)) == Ok::<KdfType, Error>(k),
{
}

/// A key-derivation function with its costs.
#[derive(Clone, Copy, Debug, PartialEq, Eq, Structural)]
pub struct KdfParams {
    /// The function.
    pub kind: KdfType,
    /// Iterations.
    pub iterations: u32,
    /// Memory in KiB (Argon2id).
    pub memory_kib: Option<u32>,
    /// Lanes (Argon2id).
    pub parallelism: Option<u32>,
}

impl KdfParams {
    /// PBKDF2 with 600,000 iterations.
    pub fn pbkdf2_default() -> (r: KdfParams)
        ensures
            r == (KdfParams {
                kind: KdfType::Pbkdf2Sha256,
                iterations: 600_000,
                memory_kib: None,
                parallelism: None,
            }),
    {
        KdfParams {
            kind: KdfType::Pbkdf2Sha256,
            iterations: 600_000,
            memory_kib: None,
            parallelism: None,
        }
    }

    /// Argon2id with three iterations, 64 MiB and four lanes.
    pub fn argon2id_default() -> (r: KdfParams)
        ensures
            r == (KdfParams {
                kind: KdfType::Argon2id,
                iterations: 3,
                memory_kib: Some(65_536),
                parallelism: Some(4),
            }),
    {
        KdfParams {
            kind: KdfType::Argon2id,
            iterations: 3,
            memory_kib: Some(65_536),
            parallelism: Some(4),
        }
    }
}

/// What is wrong with key-derivation parameters for a password of `len` bytes,
/// if anything.
pub open spec fn kdf_fault(params: KdfParams, len: nat) -> Option<Error> {
    if params.iterations == 0 {
        Some(Error::Kdf("iterations must be > 0"))
    } else {
        match params.kind {
            KdfType::Pbkdf2Sha256 => None,
            KdfType::Argon2id => match (params.memory_kib, params.parallelism) {
                (None, _) => Some(Error::Kdf("argon2 memory missing")),
                (_, None) => Some(Error::Kdf("argon2 lanes missing")),
                (Some(memory), Some(lanes)) => if lanes > 0x1FFF_FFFF {
                    Some(Error::Argon2(Argon2Error::ThreadsTooMany))
                } else {
                    match argon2_fault(memory, params.iterations, lanes) {
                        Some(e) => Some(Error::Argon2(e)),
                        None => if len > 0xFFFF_FFFF {
                            Some(Error::Argon2(Argon2Error::PwdTooLong))
                        } else {
                            None
                        },
                    }
                },
            },
        }
    }
}

/// The master key that a password, a salt and sound parameters give. Argon2id
/// takes the SHA-256 digest of the salt.
pub open spec fn derived(password: Seq<u8>, salt: Seq<u8>, params: KdfParams) -> Seq<u8> {
    match params.kind {
        KdfType::Pbkdf2Sha256 => pbkdf2_of(password, salt, params.iterations),
        KdfType::Argon2id => argon2id_of(
            password,
            sha256_of(salt),
            params.memory_kib->Some_0,
            params.iterations,
            params.parallelism->Some_0,
        ),
    }
}

/// The master key that a password gives, or what is wrong with the parameters.
pub open spec fn master_key(password: Seq<u8>, salt: Seq<u8>, params: KdfParams) -> Result<
    Seq<u8>,
> {
    match kdf_fault(params, password.len()) {
        Some(e) => Err(e),
        None => Ok(derived(password, salt, params)),
    }
}

/// Derives the 32-byte master key from a password.
pub fn derive_master_key(password: &[u8], salt: &[u8], params: KdfParams) -> (r: Result<[u8; 32]>)
    ensures
        r matches Ok(k) ==> master_key(password@, salt@, params) == Ok::<Seq<u8>, Error>(k@),
        r matches Err(e) ==> master_key(password@, salt@, params) == Err::<Seq<u8>, Error>(e),
        r matches Ok(k) ==> k@ == (match params.kind {
            KdfType::Pbkdf2Sha256 => pbkdf2_of(password@, salt@, params.iterations),
            KdfType::Argon2id => argon2id_of(
                password@,
                sha256_of(salt@),
                params.memory_kib->Some_0,
                params.iterations,
                params.parallelism->Some_0,
            ),
        }),
        params.iterations > 0 && params.kind == KdfType::Pbkdf2Sha256 ==> r is Ok,
{
    if params.iterations == 0 {
        return Err(Error::Kdf("iterations must be > 0"));
    }
    match params.kind {
        KdfType::Pbkdf2Sha256 => Ok(pbkdf2_sha256(password, salt, params.iterations)),
        KdfType::Argon2id => {
            let salt_hash: [u8; 32] = sha256(salt);
            let memory: u32 = match params.memory_kib {
                Some(m) => m,
                None => return Err(Error::Kdf("argon2 memory missing")),
            };
            let lanes: u32 = match params.parallelism {
                Some(p) => p,
                None => return Err(Error::Kdf("argon2 lanes missing")),
            };
            if lanes > 0x1FFF_FFFF {
                return Err(Error::Argon2(Argon2Error::ThreadsTooMany));
            }
            if let Err(e) = argon2_params(memory, params.iterations, lanes) {
                return Err(Error::Argon2(e));
            }
            match argon2id(password, &salt_hash, memory, params.iterations, lanes) {
                Ok(k) => Ok(k),
                Err(e) => Err(Error::Argon2(e)),
            }
        },
    }
}

/// The encryption and authentication keys that a master key expands to.
pub open spec fn stretched(master: Seq<u8>) -> (Seq<u8>, Seq<u8>) {
    (hkdf_of(master, encode_utf8("enc"@)), hkdf_of(master, encode_utf8("mac"@)))
}

/// Expands a master key to an encryption and an authentication key.
pub fn stretch_master_key(master: &[u8; 32]) -> (r: Result<([u8; 32], [u8; 32])>)
    ensures
        r matches Ok((enc, mac)) && (enc@, mac@) == stretched(master@),
        r matches Ok((enc, mac)) && enc@ == hkdf_of(master@, encode_utf8("enc"@)) && mac@
            == hkdf_of(master@, encode_utf8("mac"@)),
{
    let enc: [u8; 32] = match hkdf_expand(master, "enc".as_bytes()) {
        Some(k) => k,
        None => return Err(Error::Hkdf),
    };
    let mac: [u8; 32] = match hkdf_expand(master, "mac".as_bytes()) {
        Some(k) => k,
        None => return Err(Error::Hkdf),
    };
    Ok((enc, mac))
}

/// Argon2id runs with every cost that the parameters name, on the password as
/// it is and the SHA-256 digest of the salt.
pub proof fn argon2id_runs_with_the_costs_given(
    password: Seq<u8>,
    salt: Seq<u8>,
    memory: u32,
    iterations: u32,
    lanes: u32,
)
    requires
        iterations >= 1,
        1 <= lanes <= 0xFF_FFFF,
        memory >= 8,
        memory >= lanes * 8,
        password.len() <= 0xFFFF_FFFF,
    ensures
        master_key(
            password,
            salt,
            KdfParams {
                kind: KdfType::Argon2id,
                iterations,
                memory_kib: Some(memory),
                parallelism: Some(lanes),
            },
        ) == Ok::<Seq<u8>, Error>(
            argon2id_of(password, sha256_of(salt), memory, iterations, lanes),
        ),
{
}

/// PBKDF2 runs with the iterations that the parameters name, on the password
/// and the salt as they are, whatever else the parameters hold.
pub proof fn pbkdf2_runs_with_the_iterations_given(
    password: Seq<u8>,
    salt: Seq<u8>,
    iterations: u32,
    memory_kib: Option<u32>,
    parallelism: Option<u32>,
)
    requires
        iterations >= 1,
    ensures
        master_key(
            password,
            salt,
            KdfParams { kind: KdfType::Pbkdf2Sha256, iterations, memory_kib, parallelism },
        ) == Ok::<Seq<u8>, Error>(pbkdf2_of(password, salt, iterations)),
{
}

/// Parameters without iterations are refused, and Argon2id without its costs
/// or with costs that it cannot run with.
pub proof fn unusable_costs_are_refused(password: Seq<u8>, salt: Seq<u8>, params: KdfParams)
    ensures
        params.iterations == 0 ==> master_key(password, salt, params) == Err::<Seq<u8>, Error>(
            Error::Kdf("iterations must be > 0"),
        ),
        params.iterations > 0 && params.kind == KdfType::Argon2id && params.memory_kib is None
            ==> master_key(password, salt, params) == Err::<Seq<u8>, Error>(
            Error::Kdf("argon2 memory missing"),
        ),
        params.iterations > 0 && params.kind == KdfType::Argon2id && params.memory_kib is Some
            && params.parallelism is None ==> master_key(password, salt, params) == Err::<
            Seq<u8>,
            Error,
        >(Error::Kdf("argon2 lanes missing")),
        params.kind == KdfType::Argon2id && (params.memory_kib matches Some(m) && m < 8)
            ==> master_key(password, salt, params) is Err,
        params.kind == KdfType::Argon2id && params.parallelism == Some(0u32) ==> master_key(
            password,
            salt,
            params,
        ) is Err,
{
}

/// The two keys that a master key expands to are the expansions for `enc` and
/// for `mac`, in this order.
pub proof fn stretched_keys_have_their_labels(master: Seq<u8>)
    ensures
        stretched(master).0 == hkdf_of(master, encode_utf8("enc"@)),
        stretched(master).1 == hkdf_of(master, encode_utf8("mac"@)),
{
}

/// The functions have the numbers that the server uses for them, and no other
/// number is accepted.
pub proof fn functions_have_their_numbers(v: u8)
    ensures
        kdf_type(0) == Ok::<KdfType, Error>(KdfType::Pbkdf2Sha256),
        kdf_type(1) == Ok::<KdfType, Error>(KdfType::Argon2id),
        v >= 2 ==> kdf_type(v) is Err,
{
}

} // verus!
