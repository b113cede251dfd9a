//! Privacy-preserving fingerprint matching built on transciphering: a client
//! encrypts its feature bits with the Trivium stream cipher and ships the
//! Trivium key and IV under fully homomorphic encryption; the server re-derives
//! the plaintext bits homomorphically, then computes the Hamming distance and a
//! threshold verdict without ever decrypting.

pub mod bits;
pub mod database;
pub mod fhe;
pub mod matching_fhe;
pub mod protocol;
pub mod session;
pub mod trivium;
pub mod trivium_fhe;
