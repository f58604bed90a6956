//! What the operations are for: laws over what goes into a call and what comes out.
//!
//! Each law speaks of the results that a function's contract allows, and says field by
//! field and table by table what became of the inputs.

pub mod writes;
pub mod experiences;
pub mod records;
pub mod applying;
pub mod sending;
pub mod serving;
pub mod session;
pub mod replication;
pub mod log;
pub mod opening;
pub mod encoding;
pub mod failures;
pub mod acceptance;
