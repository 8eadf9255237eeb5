//! Verification-side core of a stacked-DRG proof-of-replication scheme.
//!
//! The library reconstructs, from public commitments and randomness alone,
//! the exact challenge indices and field-element public inputs that a
//! pairing-based replication proof must answer, together with the
//! replica-identity binding checks that tie a replica to its claimed
//! provenance.

pub mod bytes;
pub mod cache;
pub mod chacha;
pub mod challenges;
pub mod drg;
pub mod field;
pub mod graph;
pub mod hashing;
pub mod hex_bytes;
pub mod identity;
pub mod msgs;
pub mod orchestrator;
pub mod params;
pub mod sector;
pub mod utils;
