//! On-disk records, keys, and the decisions the storage engine makes.

pub mod backup;
pub mod cascade;
pub mod decay;
pub mod existing;
pub mod experiences;
pub mod integrity;
pub mod listing;
pub mod open;
pub mod provider;
pub mod readback;
pub mod records;
pub mod redb;
pub mod reencode;
pub mod schema;
pub mod store;
pub mod wal;
