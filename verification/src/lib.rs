//! Witness validation for transaction inputs.
//!
//! A witness claims spending authority over a transaction input.  It is
//! either a single recoverable ECDSA signature (checked against a
//! single-key redeem address) or a Schnorr signature under a public key
//! whose hash is committed inside a Merkle tree of authorized keys
//! (checked against the tree's root digest).  This crate defines the
//! canonical binary codec for witnesses, the Merkle-path re-derivation,
//! and the verification engine that dispatches between the two schemes,
//! together with a small storage-backed transaction cache.

pub mod bytes;
pub mod codec;
pub mod crypto;
pub mod service;
pub mod storage;
pub mod tx;
pub mod witness;
