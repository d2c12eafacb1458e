//! Deterministic model of the message-dissemination and block-retrieval layer
//! of a chained BFT (HotStuff-family) consensus protocol.
//!
//! The crate provides the typed consensus messages (proposals, votes, timeout
//! and sync-info messages, block-retrieval requests and responses), the
//! per-epoch validator verifier with its quorum rule, the per-validator
//! network endpoint, and a deterministic network playground that routes
//! outbound traffic, buffers direct sends for explicitly drained delivery,
//! and lets a test drop messages between chosen pairs of peers.

pub mod endpoint;
pub mod envelope;
pub mod epoch;
pub mod message;
pub mod playground;
pub mod types;
pub mod validator_verifier;
