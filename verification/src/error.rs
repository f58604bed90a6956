//! Failures of the storage engine and of configuration checks.

use vstd::prelude::*;
use vstd::string::StringExecFns;

verus! {

/// A storage failure.
#[derive(Debug)]
#[allow(inconsistent_fields)]
pub enum StorageError {
    /// Stored bytes do not make sense.
    Corrupted(String),
    /// Another process holds the database file.
    DatabaseLocked,
    /// The store is at a schema version this build cannot work with.
    SchemaVersionMismatch {
        /// The newest version this build works with.
        expected: u32,
        /// The version found.
        found: u32,
    },
    /// A record could not be serialized or deserialized.
    Serialization(String),
    /// The embedded database reported a failure.
    Redb(String),
    /// The file is of an older database format and must be upgraded first.
    SubstrateUpgradeRequired {
        /// File format found.
        found: u8,
        /// Substrate format this build writes.
        current: u8,
    },
    /// The store was written by a newer build.
    SubstrateFormatTooNew {
        /// Substrate format found.
        found: u8,
        /// Substrate format this build writes.
        current: u8,
    },
    /// Re-encoding the store would need more memory than is known to be safe.
    SubstrateMigrationTooLarge {
        /// Size of the store file.
        store_size: u64,
        /// Projected peak memory of the re-encode.
        projected_peak: u64,
        /// Store size up to which no memory budget is asked for.
        budget: u64,
    },
    /// The file system has too little room for the migration.
    SubstrateMigrationInsufficientDisk {
        /// Size of the store file.
        store_size: u64,
        /// Room the migration needs.
        required: u64,
        /// Room there is.
        available: u64,
    },
    /// The store holds sync cursors that a build without sync cannot re-encode.
    SubstrateMigrationRequiresSync,
}

impl StorageError {
    /// Stored bytes that do not make sense, with the given explanation.
    pub fn corrupted(msg: &str) -> (e: Self)
        ensures
            e matches StorageError::Corrupted(m) && m@ == msg@,
    {
        StorageError::Corrupted(String::from_str(msg))
    }

    /// A serialization failure with the given explanation.
    pub fn serialization(msg: &str) -> (e: Self)
        ensures
            e matches StorageError::Serialization(m) && m@ == msg@,
    {
        StorageError::Serialization(String::from_str(msg))
    }
}

/// A refused input.
#[derive(Debug)]
pub enum ValidationError {
    /// The store's embeddings are of another size than the configuration's.
    DimensionMismatch {
        /// The configured size.
        expected: usize,
        /// The stored size.
        got: usize,
    },
    /// A field holds a value outside its range.
    InvalidField {
        /// Name of the field.
        field: String,
        /// What is wrong with it.
        reason: String,
    },
}

impl ValidationError {
    /// The text of the refusal.
    pub open spec fn message(self) -> Seq<char> {
        match self {
            ValidationError::DimensionMismatch { expected, got } =>
                "Embedding dimension mismatch: expected "@ + crate::text::decimal(expected as nat)
                    + ", got "@ + crate::text::decimal(got as nat),
            ValidationError::InvalidField { field, reason } =>
                "Invalid field '"@ + field@ + "': "@ + reason@,
        }
    }

    /// Renders the refusal as text.
    pub fn to_string(&self) -> (s: String)
        ensures
            s@ == self.message(),
    {
        match self {
            ValidationError::DimensionMismatch { expected, got } => {
                let mut s = String::from_str("Embedding dimension mismatch: expected ");
                s.append(crate::text::decimal_text(*expected as u64).as_str());
                s.append(", got ");
                s.append(crate::text::decimal_text(*got as u64).as_str());
                s
            },
            ValidationError::InvalidField { field, reason } => {
                let mut s = String::from_str("Invalid field '");
                s.append(field.as_str());
                s.append("': ");
                s.append(reason.as_str());
                s
            },
        }
    }

    /// A field that holds a value outside its range.
    pub fn invalid_field(field: &str, reason: &str) -> (e: Self)
        ensures
            e matches ValidationError::InvalidField { field: f, reason: r } && f@ == field@ && r@
                == reason@,
    {
        ValidationError::InvalidField {
            field: String::from_str(field),
            reason: String::from_str(reason),
        }
    }
}

/// What the operating system said about a failed file operation.
#[derive(Clone, Copy, Debug, PartialEq, Eq, Structural)]
pub struct IoFault {
    /// The raw operating-system code, where there is one.
    pub os_code: Option<i32>,
}

/// Any failure of the store.
#[derive(Debug)]
pub enum PulseDBError {
    /// The storage layer failed.
    Storage(StorageError),
    /// An input was refused.
    Validation(ValidationError),
    /// The operation needs write access that the configuration withholds.
    ReadOnly,
    /// A file operation failed.
    Io(IoFault),
}

impl PulseDBError {
    /// Whether the failure is that another process holds the database file.
    pub open spec fn is_lock(self) -> bool {
        self == PulseDBError::Storage(StorageError::DatabaseLocked)
    }

    /// Whether the failure is that another process holds the database file.
    pub fn is_database_locked(&self) -> (yes: bool)
        ensures
            yes == self.is_lock(),
    {
        matches!(self, PulseDBError::Storage(StorageError::DatabaseLocked))
    }
}

} // verus!
