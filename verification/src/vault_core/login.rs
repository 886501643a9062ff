//! The hash of the master password that stands in for it at the server.
use vstd::prelude::*;
use crate::crypto::{base64_encode, base64_text, pbkdf2_of, pbkdf2_sha256};
use crate::vault_core::error::Result;

verus! {

/// The hash that is sent in place of the master password: one round of PBKDF2
/// of the master key, salted with the password, in base64.
pub open spec fn password_hash(master_key: Seq<u8>, password: Seq<u8>) -> Seq<char> {
    base64_encode(pbkdf2_of(master_key, password, 1))
}

/// Computes the hash that is sent in place of the master password.
pub fn master_password_hash(master_key: &[u8; 32], password: &[u8]) -> (r: Result<String>)
    ensures
        r matches Ok(h) && h@ == password_hash(master_key@, password@),
        r matches Ok(h) && h@ == base64_encode(pbkdf2_of(master_key@, password@, 1)),
{
    let out: [u8; 32] = pbkdf2_sha256(master_key.as_slice(), password, 1);
    Ok(base64_text(out.as_slice()))
}

/// The server never gets the password or the master key, but one round of
/// PBKDF2 over both, in base64.
pub proof fn hash_is_one_round_over_the_master_key(master_key: Seq<u8>, password: Seq<u8>)
    ensures
        password_hash(master_key, password) == base64_encode(pbkdf2_of(master_key, password, 1)),
{
}

} // verus!
