//! A verified core for a proof-of-work block miner.
//!
//! The library covers block assembly and the proof-of-work search: merkle
//! root computation, coinbase construction with the consensus height
//! commitment, target handling, nonce-space partitioning, the hash-search
//! loop, and classification of submission outcomes.  Wall-clock time,
//! hashing and transaction-id computation come from outside crates through
//! a few trusted wrappers; everything around them is verified.

pub mod assemble;
pub mod coinbase;
pub mod hashes;
pub mod merkle;
pub mod mining;
pub mod submit;
pub mod target;
