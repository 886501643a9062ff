//! The agent: it holds the keys of an unlocked vault and answers requests.
pub mod clipboard;
pub mod edit;
pub mod fingerprint;
pub mod list;
pub mod lookup;
pub mod online;
pub mod sealed;
pub mod server;
pub mod session;
pub mod startup;
pub mod state;
pub mod unlock;
pub mod vault;
