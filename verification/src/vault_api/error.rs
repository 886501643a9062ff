//! What can go wrong between the client and the server.
use vstd::prelude::*;
use vstd::string::*;
use crate::text::{decimal, decimal_text, join, join_texts, texts};
use crate::vault_core::error::{error_text, prefixed};

verus! {

/// An error of the client.
#[derive(Clone, Debug)]
pub enum Error {
    /// The server cannot be reached, or its answer cannot be read.
    Transport(String),
    /// The server refused.
    ServerStatus {
        /// HTTP status.
        status: u16,
        /// Body of the answer.
        message: String,
    },
    /// The answer is malformed.
    Decode(String),
    /// The server's address is unusable.
    BaseUrl(&'static str),
    /// A credential is malformed.
    Credential(&'static str),
    /// A two-factor code is needed from one of the providers.
    TwoFactorRequired(Vec<u32>),
    /// Key derivation or hashing failed.
    Crypto(crate::vault_core::error::Error),
    /// The post-quantum transport cannot be set up.
    PqcTls(String),
}

/// The result of an operation of the client.
pub type Result<T> = core::result::Result<T, Error>;

/// What an [`Error`] holds.
pub enum ErrorView {
    /// The server cannot be reached, or its answer cannot be read.
    Transport(Seq<char>),
    /// The server refused.
    ServerStatus {
        /// HTTP status.
        status: u16,
        /// Body of the answer.
        message: Seq<char>,
    },
    /// The answer is malformed.
    Decode(Seq<char>),
    /// The server's address is unusable.
    BaseUrl(&'static str),
    /// A credential is malformed.
    Credential(&'static str),
    /// A two-factor code is needed from one of the providers.
    TwoFactorRequired(Seq<u32>),
    /// Key derivation or hashing failed.
    Crypto(crate::vault_core::error::Error),
    /// The post-quantum transport cannot be set up.
    PqcTls(Seq<char>),
}

impl DeepView for Error {
    type V = ErrorView;

    open spec fn deep_view(&self) -> ErrorView {
        match *self {
            Error::Transport(s) => ErrorView::Transport(s@),
            Error::ServerStatus { status, message } => ErrorView::ServerStatus {
                status,
                message: message@,
            },
            Error::Decode(s) => ErrorView::Decode(s@),
            Error::BaseUrl(s) => ErrorView::BaseUrl(s),
            Error::Credential(s) => ErrorView::Credential(s),
            Error::TwoFactorRequired(p) => ErrorView::TwoFactorRequired(p@),
            Error::Crypto(e) => ErrorView::Crypto(e),
            Error::PqcTls(s) => ErrorView::PqcTls(s@),
        }
    }
}

/// Numbers for messages.
pub open spec fn numbers(p: Seq<u32>) -> Seq<Seq<char>> {
    p.map_values(|n: u32| decimal(n as nat))
}

/// The text that describes an error.
pub open spec fn api_error_text(e: ErrorView) -> Seq<char> {
    match e {
        ErrorView::Transport(s) => "transport: "@ + s,
        ErrorView::ServerStatus { status, message } => "server returned "@ + decimal(status as nat)
            + ": "@ + message,
        ErrorView::Decode(s) => "malformed response: "@ + s,
        ErrorView::BaseUrl(s) => "invalid base URL: "@ + s@,
        ErrorView::Credential(s) => "invalid credential: "@ + s@,
        ErrorView::TwoFactorRequired(p) => "two-factor authentication required (provider ["@ + join(
            numbers(p),
            ", "@,
        ) + "]) — not yet implemented"@,
        ErrorView::Crypto(e) => "crypto: "@ + error_text(e),
        ErrorView::PqcTls(s) => "pqc tls config: "@ + s,
    }
}

fn number_texts(p: &Vec<u32>) -> (out: Vec<String>)
    ensures
        texts(out@) == numbers(p@),
{
    let mut out: Vec<String> = Vec::new();
    let mut i: usize = 0;
    while i < p.len()
        invariant
            i <= p.len(),
            texts(out@) =~= numbers(p@.take(i as int)),
        decreases p.len() - i,
    {
        let ghost before = out@;
        out.push(decimal_text(p[i] as u64));
        assert(texts(out@) =~= texts(before).push(decimal(p@[i as int] as nat)));
        assert(p@.take(i + 1) =~= p@.take(i as int).push(p@[i as int]));
        i += 1;
    }
    assert(p@.take(p@.len() as int) =~= p@);
    out
}

impl Error {
    /// The text that describes the error.
    pub fn message(&self) -> (out: String)
        ensures
            out@ == api_error_text(self.deep_view()),
    {
        match self {
            Error::Transport(s) => prefixed("transport: ", s.as_str()),
            Error::ServerStatus { status, message } => {
                let mut out: String = prefixed(
                    "server returned ",
                    decimal_text(*status as u64).as_str(),
                );
                out.append(": ");
                out.append(message.as_str());
                out
            },
            Error::Decode(s) => prefixed("malformed response: ", s.as_str()),
            Error::BaseUrl(s) => prefixed("invalid base URL: ", s),
            Error::Credential(s) => prefixed("invalid credential: ", s),
            Error::TwoFactorRequired(p) => {
                let mut out: String = prefixed(
                    "two-factor authentication required (provider [",
                    join_texts(&number_texts(p), ", ").as_str(),
                );
                out.append("]) — not yet implemented");
                out
            },
            Error::Crypto(e) => prefixed("crypto: ", e.message().as_str()),
            Error::PqcTls(s) => prefixed("pqc tls config: ", s.as_str()),
        }
    }
}

/// An error tells what it is about: the status and the server's own words, the
/// providers, or what went wrong.
pub proof fn error_tells_what_it_is_about(
    s: Seq<char>,
    status: u16,
    fixed: &'static str,
    p: Seq<u32>,
    n: u32,
    e: crate::vault_core::error::Error,
)
    ensures
        api_error_text(ErrorView::Transport(s)) == "transport: "@ + s,
        api_error_text(ErrorView::ServerStatus { status, message: s }) == "server returned "@
            + decimal(status as nat) + ": "@ + s,
        api_error_text(ErrorView::Decode(s)) == "malformed response: "@ + s,
        api_error_text(ErrorView::BaseUrl(fixed)) == "invalid base URL: "@ + fixed@,
        api_error_text(ErrorView::Credential(fixed)) == "invalid credential: "@ + fixed@,
        api_error_text(ErrorView::Crypto(e)) == "crypto: "@ + error_text(e),
        api_error_text(ErrorView::PqcTls(s)) == "pqc tls config: "@ + s,
        numbers(p.push(n)) == numbers(p).push(decimal(n as nat)),
        api_error_text(ErrorView::TwoFactorRequired(p))
            == "two-factor authentication required (provider ["@ + join(numbers(p), ", "@)
            + "]) — not yet implemented"@,
{
    assert(numbers(p.push(n)) =~= numbers(p).push(decimal(n as nat)));
}

} // verus!
