//! What can go wrong in the cryptographic core.
use vstd::prelude::*;
use vstd::string::*;
use crate::crypto::{Argon2Error, Base64Error};
use crate::text::{decimal, decimal_text};

verus! {

/// An error of the cryptographic core.
#[derive(Clone, Debug, PartialEq, Eq)]
pub enum Error {
    /// The text is not a well-formed envelope.
    EncString(&'static str),
    /// A part of an envelope is not base64.
    Base64(Base64Error),
    /// The authentication tag does not match.
    MacMismatch,
    /// The padding of the decrypted bytes is wrong.
    Unpad,
    /// The key-derivation parameters are unusable.
    Kdf(&'static str),
    /// Argon2 refused its input.
    Argon2(Argon2Error),
    /// Key expansion failed.
    Hkdf,
    /// An export is not the expected JSON.
    Json(String),
    /// The export password does not validate.
    BadExportPassword,
    /// The export has a form that is not handled.
    UnsupportedExport(&'static str),
    /// A secret cannot be generated as asked.
    Generate(&'static str),
    /// A one-time-password secret is unusable.
    Totp(&'static str),
    /// An RSA key or ciphertext is unusable.
    Rsa(&'static str),
    /// The operating system gave no random bytes.
    Random,
}

/// The result of an operation of the cryptographic core.
pub type Result<T> = core::result::Result<T, Error>;

/// The text that describes a base64 error.
pub open spec fn base64_error_text(e: Base64Error) -> Seq<char> {
    match e {
        Base64Error::InvalidByte(i, b) => "Invalid symbol "@ + decimal(b as nat) + ", offset "@
            + decimal(i as nat) + "."@,
        Base64Error::InvalidLength(n) => "Invalid input length: "@ + decimal(n as nat),
        Base64Error::InvalidLastSymbol(i, b) => "Invalid last symbol "@ + decimal(b as nat)
            + ", offset "@ + decimal(i as nat) + "."@,
        Base64Error::InvalidPadding => "Invalid padding"@,
    }
}

/// The text that describes an Argon2 error.
pub open spec fn argon2_error_text(e: Argon2Error) -> Seq<char> {
    match e {
        Argon2Error::MemoryTooLittle => "memory cost is too small"@,
        Argon2Error::TimeTooSmall => "time cost is too small"@,
        Argon2Error::ThreadsTooFew => "not enough threads"@,
        Argon2Error::ThreadsTooMany => "too many threads"@,
        Argon2Error::PwdTooLong => "password is too long"@,
        Argon2Error::Other => "invalid input"@,
    }
}

/// The text that describes an error.
pub open spec fn error_text(e: Error) -> Seq<char> {
    match e {
        Error::EncString(s) => "malformed EncString: "@ + s@,
        Error::Base64(b) => "base64 decode failed: "@ + base64_error_text(b),
        Error::MacMismatch => "MAC verification failed"@,
        Error::Unpad => "CBC unpadding failed"@,
        Error::Kdf(s) => "invalid KDF parameters: "@ + s@,
        Error::Argon2(a) => "argon2: "@ + argon2_error_text(a),
        Error::Hkdf => "HKDF expand failed"@,
        Error::Json(s) => "export JSON parse failed: "@ + s@,
        Error::BadExportPassword => "export password did not validate"@,
        Error::UnsupportedExport(s) => "unsupported export format: "@ + s@,
        Error::Generate(s) => "generate: "@ + s@,
        Error::Totp(s) => "totp: "@ + s@,
        Error::Rsa(s) => "rsa: "@ + s@,
        Error::Random => "OS RNG must be available"@,
    }
}

/// `a` followed by `b`.
pub fn prefixed(a: &str, b: &str) -> (out: String)
    ensures
        out@ == a@ + b@,
{
    let mut out: String = String::new();
    out.append(a);
    out.append(b);
    assert(out@ =~= a@ + b@);
    out
}

fn symbol_text(what: &str, byte: u8, at: usize) -> (out: String)
    ensures
        out@ == what@ + decimal(byte as nat) + ", offset "@ + decimal(at as nat) + "."@,
{
    let mut out: String = prefixed(what, decimal_text(byte as u64).as_str());
    out.append(", offset ");
    out.append(decimal_text(at as u64).as_str());
    out.append(".");
    out
}

/// The text that describes a base64 error.
pub fn base64_message(e: Base64Error) -> (out: String)
    ensures
        out@ == base64_error_text(e),
{
    match e {
        Base64Error::InvalidByte(i, b) => symbol_text("Invalid symbol ", b, i),
        Base64Error::InvalidLength(n) => prefixed(
            "Invalid input length: ",
            decimal_text(n as u64).as_str(),
        ),
        Base64Error::InvalidLastSymbol(i, b) => symbol_text("Invalid last symbol ", b, i),
        Base64Error::InvalidPadding => "Invalid padding".to_owned(),
    }
}

/// The text that describes an Argon2 error.
pub fn argon2_message(e: Argon2Error) -> (out: &'static str)
    ensures
        out@ == argon2_error_text(e),
{
    match e {
        Argon2Error::MemoryTooLittle => "memory cost is too small",
        Argon2Error::TimeTooSmall => "time cost is too small",
        Argon2Error::ThreadsTooFew => "not enough threads",
        Argon2Error::ThreadsTooMany => "too many threads",
        Argon2Error::PwdTooLong => "password is too long",
        Argon2Error::Other => "invalid input",
    }
}

impl Error {
    /// The text that describes the error.
    pub fn message(&self) -> (out: String)
        ensures
            out@ == error_text(*self),
    {
        match self {
            Error::EncString(s) => prefixed("malformed EncString: ", s),
            Error::Base64(b) => prefixed("base64 decode failed: ", base64_message(*b).as_str()),
            Error::MacMismatch => "MAC verification failed".to_owned(),
            Error::Unpad => "CBC unpadding failed".to_owned(),
            Error::Kdf(s) => prefixed("invalid KDF parameters: ", s),
            Error::Argon2(a) => prefixed("argon2: ", argon2_message(*a)),
            Error::Hkdf => "HKDF expand failed".to_owned(),
            Error::Json(s) => prefixed("export JSON parse failed: ", s.as_str()),
            Error::BadExportPassword => "export password did not validate".to_owned(),
            Error::UnsupportedExport(s) => prefixed("unsupported export format: ", s),
            Error::Generate(s) => prefixed("generate: ", s),
            Error::Totp(s) => prefixed("totp: ", s),
            Error::Rsa(s) => prefixed("rsa: ", s),
            Error::Random => "OS RNG must be available".to_owned(),
        }
    }
}

/// An error tells what it is about, and one that wraps another tells the other
/// too.
pub proof fn error_tells_what_it_is_about(
    fixed: &'static str,
    s: String,
    at: usize,
    byte: u8,
    a: Argon2Error,
)
    ensures
        error_text(Error::EncString(fixed)) == "malformed EncString: "@ + fixed@,
        error_text(Error::Kdf(fixed)) == "invalid KDF parameters: "@ + fixed@,
        error_text(Error::Generate(fixed)) == "generate: "@ + fixed@,
        error_text(Error::Argon2(a)) == "argon2: "@ + argon2_error_text(a),
        error_text(Error::Base64(Base64Error::InvalidByte(at, byte)))
            == "base64 decode failed: "@ + ("Invalid symbol "@ + decimal(byte as nat)
            + ", offset "@ + decimal(at as nat) + "."@),
        error_text(Error::Base64(Base64Error::InvalidLastSymbol(at, byte)))
            == "base64 decode failed: "@ + ("Invalid last symbol "@ + decimal(byte as nat)
            + ", offset "@ + decimal(at as nat) + "."@),
        error_text(Error::Base64(Base64Error::InvalidLength(at))) == "base64 decode failed: "@ + (
        "Invalid input length: "@ + decimal(at as nat)),
{
}

/// A wrong tag, a wrong padding and a wrong password of an export are told
/// apart, and so are the faults of costs.
pub proof fn refusals_are_told_apart(a: Argon2Error, b: Argon2Error)
    ensures
        error_text(Error::MacMismatch) != error_text(Error::Unpad),
        error_text(Error::MacMismatch) != error_text(Error::BadExportPassword),
        error_text(Error::Unpad) != error_text(Error::BadExportPassword),
        argon2_error_text(a) == argon2_error_text(b) ==> a == b,
{
    reveal_strlit("MAC verification failed");
    reveal_strlit("CBC unpadding failed");
    reveal_strlit("export password did not validate");
    reveal_strlit("memory cost is too small");
    reveal_strlit("time cost is too small");
    reveal_strlit("not enough threads");
    reveal_strlit("too many threads");
    reveal_strlit("password is too long");
    reveal_strlit("invalid input");
    assert("MAC verification failed"@.len() == 23);
    assert("CBC unpadding failed"@.len() == 20);
    assert("export password did not validate"@.len() == 32);
    assert("memory cost is too small"@.len() == 24);
    assert("time cost is too small"@.len() == 22);
    assert("not enough threads"@.len() == 18);
    assert("too many threads"@.len() == 16);
    assert("password is too long"@.len() == 20);
    assert("invalid input"@.len() == 13);
}

} // verus!
