//! Cryptographic envelopes, key derivation, vault items and generators.
pub mod cipher;
pub mod enc_string;
pub mod error;
pub mod export;
pub mod generate;
pub mod kdf;
pub mod login;
pub mod org_key;
pub mod totp;

pub use cipher::{decrypt_user_key, Cipher, DecryptOptions, Login, PlainCipher};
pub use enc_string::EncString;
pub use error::{Error, Result};
pub use export::EncryptedExport;
pub use generate::{generate_passphrase, generate_password, GenerateOptions, PassphraseOptions};
pub use kdf::{derive_master_key, stretch_master_key, KdfParams, KdfType};
pub use login::master_password_hash;
pub use org_key::AccountKey;
