//! BlitzHash: a high-throughput, non-cryptographic 256-bit hash.
//!
//! **Not cryptographically secure.** The digest offers no collision or
//! preimage resistance; it is meant for checksums, deduplication keys and
//! partitioning, where speed dominates.
//!
//! Four independent 64-bit lanes are seeded from a caller-supplied seed,
//! evolved by a multiply-rotate mixing primitive once per 8-byte input word,
//! bound to the total input length, and scrambled by a fixed number of
//! avalanche rounds before being serialized into a 32-byte digest.

pub mod lanes;
pub mod laws;
pub mod mix;
pub mod oneshot;
pub mod parallel;
pub mod state;
pub mod words;

pub use oneshot::blitz_hash;
pub use parallel::{blitz_hash_parallel, combine_digests};
pub use state::BlitzState;
