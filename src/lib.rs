//! A per-account message ledger anchored to notarized TLS transcripts.
//!
//! Identity claims are read from a masked transcript, bound to an account
//! identifier through a SHA-256 digest, and every accepted message becomes a
//! leaf of a Merkle tree whose root and inclusion proofs are kept with it.
pub mod hexcode;
pub mod error;
pub mod merkle;
pub mod presentation;
pub mod claims;
pub mod binder;
pub mod ledger;
