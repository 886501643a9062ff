//! The client of a Bitwarden server. Requests are values here, and so are the
//! answers to them; sending and receiving is left to the caller.
pub mod client;
pub mod device;
pub mod error;
pub mod identity;
pub mod pqc;
pub mod sync;
pub mod urls;

pub use client::{BitwardenClient, TwoFactor};
pub use error::{Error, Result};
pub use identity::{PreloginResponse, TokenResponse};
pub use sync::SyncResponse;
pub use urls::BaseUrls;
