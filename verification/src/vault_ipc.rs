//! The protocol between the agent and its clients.
pub mod debug;
pub mod proto;
pub mod socket;
pub mod transport;

pub use proto::{Cipher, Error, Field, Item, ListEntry, Request, Response, Status};
pub use socket::{default_socket_path, sanitize_socket_path};
