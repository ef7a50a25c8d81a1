//! The core of an encrypted record wallet: authenticated encryption of
//! records and tags, searchable ciphertexts, and the rewriting of queries
//! over plaintext into queries over ciphertext.

pub mod assoc;
pub mod credentials;
pub mod crypto;
pub mod encryption;
pub mod errors;
pub mod iterator;
pub mod json;
pub mod language;
pub mod options;
pub mod query_encryption;
pub mod service;
pub mod storage;
pub mod wallet;
