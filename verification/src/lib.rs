//! Known-plaintext key search: candidate keys, written in hexadecimal one per
//! line, are tried against the first block of a ciphertext until one of them
//! decrypts it to a known prefix.

pub mod cipher;
pub mod ciphertext;
pub mod config;
pub mod engine;
pub mod hex;
pub mod report;
pub mod source;
pub mod tester;
