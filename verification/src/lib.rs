//! Sector lifecycle manager for a proof-of-replication storage miner.
//!
//! The crate accepts client byte streams ("pieces"), bin-packs them into
//! fixed-size staged sectors, tracks each sector through the seal state
//! machine, persists a snapshot of all sector metadata after every mutation,
//! and answers status, unseal-offset and health questions about the result.
//!
//! The cryptographic primitives (seal, unseal, proof generation) and all file
//! and thread plumbing are external collaborators: the engine here makes every
//! decision on plain values and hands the outcome back to its embedder.

pub mod metadata;
pub mod pieces;
pub mod state;
pub mod text;
pub mod error;
pub mod store;
pub mod helpers;
pub mod codec;
pub mod checksum;
pub mod kv_store;
pub mod metadata_manager;
pub mod worker;
pub mod scheduler;
pub mod builder;
pub mod responses;
