//! Store configuration.

use vstd::prelude::*;

use crate::types::EmbeddingDimension;

verus! {

/// What the caller asks of a store.
#[derive(Clone, Copy, Debug, PartialEq, Eq, Structural)]
pub struct Config {
    /// Size of every embedding.
    pub embedding_dimension: EmbeddingDimension,
    /// Whether the store must not be written to.
    pub read_only: bool,
    /// Memory the caller declares available to a one-time migration.
    pub migration_available_memory_bytes: Option<u64>,
}

impl Default for Config {
    fn default() -> (config: Self)
        ensures
            config == (Config {
                embedding_dimension: EmbeddingDimension::D384,
                read_only: false,
                migration_available_memory_bytes: None,
            }),
    {
        Config {
            embedding_dimension: EmbeddingDimension::D384,
            read_only: false,
            migration_available_memory_bytes: None,
        }
    }
}

} // verus!
