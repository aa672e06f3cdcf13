//! BBS+ multi-message signatures over a bilinear group, with a composable
//! proof-of-knowledge layer: Schnorr proofs of commitment openings, selective
//! disclosure of signed messages, and cross-statement witness equality under a
//! single Fiat-Shamir challenge.
//!
//! Scalars and group elements are carried as their canonical byte encodings;
//! the pairing-group arithmetic itself is performed by the `ark` crates behind
//! a small set of trusted wrappers.

pub mod bytes_util;
pub mod codec;
pub mod composition;
pub mod dlog;
pub mod errors;
pub mod g1;
pub mod g2;
pub mod keys;
pub mod pairing;
pub mod params;
pub mod pok_sig;
pub mod proof_spec;
pub mod rng;
pub mod scalar;
pub mod schnorr;
pub mod sig;
pub mod statements;
pub mod transcript;
