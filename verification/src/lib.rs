//! Portable pack container: a self-describing binary format that layers gzip
//! compression, a reversible XOR obfuscation, optional password-based
//! authenticated encryption, and a SHA-256 integrity digest, together with the
//! record and session types that surround it.

pub mod auth;
pub mod crypto;
pub mod records;
