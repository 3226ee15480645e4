//! A distributed commit-reveal protocol built on additively homomorphic
//! Pedersen commitments.
//!
//! Each node can act as a dealer that opens a session and asks its peers to
//! co-commit, or as a peer that answers such requests.  The per-node
//! commitments are aggregated into a single commitment whose opening is the
//! sum of all contributions.

pub mod bytes;
pub mod commitment;
pub mod config;
pub mod errors;
pub mod group;
pub mod handlers;
pub mod laws;
pub mod peers;
pub mod random;
pub mod state;
