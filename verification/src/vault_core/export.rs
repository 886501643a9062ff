//! Password-protected vault exports.
use vstd::prelude::*;
use vstd::string::*;
use vstd::utf8::encode_utf8;
use crate::crypto::{constant_time_eq, hex_of, hex_text, hkdf_of};
use crate::vault_core::enc_string::{open_text, opened_text, parsed, EncString};
use crate::vault_core::error::{Error, Result};
use crate::vault_core::kdf::{
    derive_master_key, master_key, stretch_master_key, stretched, KdfParams, KdfType,
};

verus! {

/// The envelope of an encrypted export.
#[derive(Clone, Debug)]
pub struct EncryptedExport {
    /// Whether the contents are encrypted.
    pub encrypted: bool,
    /// Whether a password of its own protects the export.
    pub password_protected: bool,
    /// Salt of the key derivation.
    pub salt: String,
    /// Key-derivation function.
    pub kdf_type: KdfType,
    /// Iterations.
    pub kdf_iterations: u32,
    /// Memory in KiB (Argon2id).
    pub kdf_memory: Option<u32>,
    /// Lanes (Argon2id).
    pub kdf_parallelism: Option<u32>,
    /// Envelope around the derived key in hexadecimal, against which the
    /// password is checked.
    pub enc_key_validation: String,
    /// Envelope around the exported vault.
    pub data: String,
}

/// Why an export cannot be opened with a password, if it cannot.
pub open spec fn export_fault(encrypted: bool, password_protected: bool) -> Option<Error> {
    if !encrypted {
        Some(Error::UnsupportedExport("envelope.encrypted is false"))
    } else if !password_protected {
        Some(
            Error::UnsupportedExport("account-key-protected exports require a logged-in session"),
        )
    } else {
        None
    }
}

/// The parameters that an export names.
pub open spec fn export_params(e: EncryptedExport) -> KdfParams {
    KdfParams {
        kind: e.kdf_type,
        iterations: e.kdf_iterations,
        memory_kib: e.kdf_memory,
        parallelism: e.kdf_parallelism,
    }
}

/// What opening an export under a derived key gives. The key must open the
/// validation envelope to its own hexadecimal form.
pub open spec fn export_opened_with(e: EncryptedExport, derived: Seq<u8>) -> Result<Seq<u8>> {
    let (enc, mac) = stretched(derived);
    match parsed(e.enc_key_validation@) {
        Err(e) => Err(e),
        Ok(_) => if opened_text(e.enc_key_validation@, enc, mac) == Ok::<Seq<u8>, Error>(
            encode_utf8(hex_of(derived)),
        ) {
            opened_text(e.data@, enc, mac)
        } else {
            Err(Error::BadExportPassword)
        },
    }
}

/// What opening an export with a password gives.
pub open spec fn export_opened(e: EncryptedExport, password: Seq<u8>) -> Result<Seq<u8>> {
    match master_key(password, encode_utf8(e.salt@), export_params(e)) {
        Err(e) => Err(e),
        Ok(derived) => export_opened_with(e, derived),
    }
}

impl EncryptedExport {
    /// Accepts an export that a password protects, and says why where it is
    /// another kind.
    pub fn accept(self) -> (r: Result<EncryptedExport>)
        ensures
            r matches Ok(e) ==> e == self && export_fault(
                self.encrypted,
                self.password_protected,
            ) is None,
            r matches Err(e) ==> export_fault(self.encrypted, self.password_protected) == Some(e),
    {
        if !self.encrypted {
            return Err(Error::UnsupportedExport("envelope.encrypted is false"));
        }
        if !self.password_protected {
            return Err(
                Error::UnsupportedExport(
                    "account-key-protected exports require a logged-in session",
                ),
            );
        }
        Ok(self)
    }

    /// The parameters of the key derivation.
    pub fn kdf_params(&self) -> (r: KdfParams)
        ensures
            r == export_params(*self),
    {
        KdfParams {
            kind: self.kdf_type,
            iterations: self.kdf_iterations,
            memory_kib: self.kdf_memory,
            parallelism: self.kdf_parallelism,
        }
    }

    /// Opens the export under a derived key.
    pub fn open_with(&self, derived: &[u8; 32]) -> (r: Result<Vec<u8>>)
        ensures
            r matches Ok(p) ==> export_opened_with(*self, derived@) == Ok::<Seq<u8>, Error>(p@),
            r matches Err(e) ==> export_opened_with(*self, derived@) == Err::<Seq<u8>, Error>(e),
    {
        let (enc_key, mac_key) = stretch_master_key(derived)?;
        let validation: EncString = EncString::parse(self.enc_key_validation.as_str())?;
        let plain: Vec<u8> = match validation.decrypt(&enc_key, &mac_key) {
            Ok(p) => p,
            Err(_) => return Err(Error::BadExportPassword),
        };
        let expected: String = hex_text(derived.as_slice());
        if !constant_time_eq(plain.as_slice(), expected.as_str().as_bytes()) {
            return Err(Error::BadExportPassword);
        }
        open_text(self.data.as_str(), &enc_key, &mac_key)
    }

    /// Checks the password and opens the exported vault.
    pub fn decrypt(&self, password: &[u8]) -> (r: Result<Vec<u8>>)
        ensures
            r matches Ok(p) ==> export_opened(*self, password@) == Ok::<Seq<u8>, Error>(p@),
            r matches Err(e) ==> export_opened(*self, password@) == Err::<Seq<u8>, Error>(e),
    {
        let derived: [u8; 32] = derive_master_key(
            password,
            self.salt.as_str().as_bytes(),
            self.kdf_params(),
        )?;
        self.open_with(&derived)
    }
}

/// An export opens with its password: the key that the password gives with the
/// salt and every cost of the export opens the check to its own hexadecimal
/// form, and the data to what was exported.
pub proof fn export_opens_with_its_password(
    e: EncryptedExport,
    password: Seq<u8>,
    derived: Seq<u8>,
    plain: Seq<u8>,
)
    requires
        master_key(
            password,
            encode_utf8(e.salt@),
            KdfParams {
                kind: e.kdf_type,
                iterations: e.kdf_iterations,
                memory_kib: e.kdf_memory,
                parallelism: e.kdf_parallelism,
            },
        ) == Ok::<Seq<u8>, Error>(derived),
        opened_text(
            e.enc_key_validation@,
            hkdf_of(derived, encode_utf8("enc"@)),
            hkdf_of(derived, encode_utf8("mac"@)),
        ) == Ok::<Seq<u8>, Error>(encode_utf8(hex_of(derived))),
        opened_text(
            e.data@,
            hkdf_of(derived, encode_utf8("enc"@)),
            hkdf_of(derived, encode_utf8("mac"@)),
        ) == Ok::<Seq<u8>, Error>(plain),
    ensures
        export_opened(e, password) == Ok::<Seq<u8>, Error>(plain),
{
}

/// A password whose key does not open the check, or opens it to anything else
/// than its hexadecimal form, is refused, and the data is not opened.
pub proof fn wrong_export_password_is_refused(
    e: EncryptedExport,
    password: Seq<u8>,
    derived: Seq<u8>,
)
    requires
        master_key(
            password,
            encode_utf8(e.salt@),
            KdfParams {
                kind: e.kdf_type,
                iterations: e.kdf_iterations,
                memory_kib: e.kdf_memory,
                parallelism: e.kdf_parallelism,
            },
        ) == Ok::<Seq<u8>, Error>(derived),
        parsed(e.enc_key_validation@) is Ok,
        opened_text(
            e.enc_key_validation@,
            hkdf_of(derived, encode_utf8("enc"@)),
            hkdf_of(derived, encode_utf8("mac"@)),
        ) != Ok::<Seq<u8>, Error>(encode_utf8(hex_of(derived))),
    ensures
        export_opened(e, password) == Err::<Seq<u8>, Error>(Error::BadExportPassword),
{
}

/// Only an encrypted export that a password of its own protects is accepted.
pub proof fn only_protected_exports_are_accepted(encrypted: bool, password_protected: bool)
    ensures
        export_fault(encrypted, password_protected) is None <==> encrypted && password_protected,
        !encrypted ==> export_fault(encrypted, password_protected) == Some(
            Error::UnsupportedExport("envelope.encrypted is false"),
        ),
{
}

} // verus!
