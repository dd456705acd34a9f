//! Cryptographic primitives for a wallet: a BLAKE2b-512 content digest and
//! Ed25519 keypairs with deterministic signing and standalone verification.
pub mod hash;
pub mod signature;
