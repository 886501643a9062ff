//! A terminal client for a Bitwarden vault: its cryptography, its agent and
//! its command line.
use vstd::prelude::*;

pub mod clock;
pub mod crypto;
pub mod text;
pub mod text_map;
pub mod vault_agent;
pub mod vault_api;
pub mod vault_cli;
pub mod vault_core;
pub mod vault_ipc;
pub mod vault_store;
pub mod vault_theme;

verus! {

/// Version of the agent and the command line.
pub const VERSION: &'static str = "0.1.0";

} // verus!
