//! Encrypted history store: codecs, sealing, blob addressing and the
//! decisions the store makes over its records.

pub mod base64;
pub mod aead;
pub mod history;
pub mod blobs;
