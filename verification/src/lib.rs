//! Verified core of an embedded agent-memory store and its peer sync protocol.

pub mod bytes;
pub mod codec;
pub mod config;
pub mod text;
pub mod types;
pub mod error;
pub mod gcounter;
pub mod laws;
pub mod model;
pub mod storage;
pub mod sync;
