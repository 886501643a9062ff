//! The command line.
pub mod commands;
pub mod config;
pub mod env_exec;
pub mod spawn;
