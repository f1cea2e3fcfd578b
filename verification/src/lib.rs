//! The state machine of a snap synchronisation.

pub mod account;
pub mod batch;
pub mod calls;
pub mod collections;
pub mod downloader;
pub mod effects;
pub mod error;
pub mod hashing;
pub mod laws;
pub mod model;
pub mod phase;
pub mod primitives;
pub mod rlp;
pub mod runs;
pub mod stage;
pub mod steps;
pub mod test_client;
pub mod wire;
