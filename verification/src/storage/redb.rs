//! The substrate-format marker and the headroom a migration needs.

use vstd::prelude::*;
use vstd::string::StringExecFns;

use crate::config::Config;
use crate::error::{PulseDBError, StorageError, ValidationError};
use crate::storage::schema::{
    DatabaseMetadata, CURRENT_SUBSTRATE_FORMAT, LEGACY_SUBSTRATE_FORMAT, SCHEMA_VERSION,
    SUBSTRATE_MAGIC_0, SUBSTRATE_MAGIC_1, SUBSTRATE_MARKER_LEN,
};
use crate::types::{EmbeddingDimension, InstanceId};

verus! {

// ---------------------------------------------------------------------------
// Substrate-format marker
// ---------------------------------------------------------------------------

/// What the substrate-format marker of a store says.
#[derive(Clone, Copy, Debug, PartialEq, Eq, Structural)]
pub enum SubstrateFormat {
    /// No marker: a store from before markers were written.
    Absent,
    /// The format this build writes: open directly.
    Current,
    /// An older format: migrate forward.
    Older(u8),
    /// A newer format: do not touch.
    Newer(u8),
}

impl SubstrateFormat {
    /// The substrate format this value stands for.
    pub open spec fn spec_version(self) -> u8 {
        match self {
            SubstrateFormat::Absent => LEGACY_SUBSTRATE_FORMAT,
            SubstrateFormat::Current => CURRENT_SUBSTRATE_FORMAT,
            SubstrateFormat::Older(v) => v,
            SubstrateFormat::Newer(v) => v,
        }
    }

    /// What a marker of version `found` says.
    pub open spec fn spec_classify(found: u8) -> SubstrateFormat {
        if found == CURRENT_SUBSTRATE_FORMAT {
            SubstrateFormat::Current
        } else if found < CURRENT_SUBSTRATE_FORMAT {
            SubstrateFormat::Older(found)
        } else {
            SubstrateFormat::Newer(found)
        }
    }

    /// Whether the store must be brought to the current format before use.
    pub open spec fn needs_migration(self) -> bool {
        self is Absent || self is Older
    }

    /// The substrate format this value stands for.
    pub fn version(self) -> (v: u8)
        ensures
            v == self.spec_version(),
    {
        match self {
            SubstrateFormat::Absent => LEGACY_SUBSTRATE_FORMAT,
            SubstrateFormat::Current => CURRENT_SUBSTRATE_FORMAT,
            SubstrateFormat::Older(v) => v,
            SubstrateFormat::Newer(v) => v,
        }
    }

    /// What a marker of version `found` says.
    pub fn classify(found: u8) -> (format: Self)
        ensures
            format == SubstrateFormat::spec_classify(found),
    {
        if found == CURRENT_SUBSTRATE_FORMAT {
            SubstrateFormat::Current
        } else if found < CURRENT_SUBSTRATE_FORMAT {
            SubstrateFormat::Older(found)
        } else {
            SubstrateFormat::Newer(found)
        }
    }
}

/// The marker bytes of a substrate format.
pub open spec fn marker_bytes(version: u8) -> Seq<u8> {
    seq![SUBSTRATE_MAGIC_0, SUBSTRATE_MAGIC_1, version]
}

/// The marker bytes of a substrate format: two magic bytes and the version, never
/// serialized, so they can be read before the serializer is known.
pub fn encode_substrate_marker(version: u8) -> (marker: [u8; 3])
    ensures
        marker@ == marker_bytes(version),
{
    let marker: [u8; 3] = [SUBSTRATE_MAGIC_0, SUBSTRATE_MAGIC_1, version];
    assert(marker@ =~= marker_bytes(version));
    marker
}

/// Two bytes as a bracketed decimal pair.
pub open spec fn byte_pair_chars(a: u8, b: u8) -> Seq<char> {
    "["@ + crate::text::decimal(a as nat) + ", "@ + crate::text::decimal(b as nat) + "]"@
}

fn byte_pair_text(a: u8, b: u8) -> (s: String)
    ensures
        s@ == byte_pair_chars(a, b),
{
    let mut s = String::from_str("[");
    s.append(crate::text::decimal_text(a as u64).as_str());
    s.append(", ");
    s.append(crate::text::decimal_text(b as u64).as_str());
    s.append("]");
    s
}

/// Whether `bytes` are a marker.
pub open spec fn is_marker(bytes: Seq<u8>) -> bool {
    bytes.len() == SUBSTRATE_MARKER_LEN && bytes[0] == SUBSTRATE_MAGIC_0 && bytes[1]
        == SUBSTRATE_MAGIC_1
}

/// The explanation given for bytes that are not a marker.
pub open spec fn marker_fault_chars(bytes: Seq<u8>) -> Seq<char> {
    if bytes.len() != SUBSTRATE_MARKER_LEN {
        "substrate_format marker has wrong length: expected 3 bytes, found "@
            + crate::text::decimal(bytes.len())
    } else {
        "substrate_format marker magic mismatch: expected [80, 83], found "@ + byte_pair_chars(
            bytes[0],
            bytes[1],
        )
    }
}

/// The substrate format of marker bytes. Bytes of another length or with other
/// magic are corruption, not an unmarked store.
pub fn decode_substrate_marker(bytes: &[u8]) -> (version: Result<u8, PulseDBError>)
    ensures
        version is Ok <==> is_marker(bytes@),
        version matches Ok(v) ==> v == bytes@[2],
        version matches Err(e) ==> (e matches PulseDBError::Storage(StorageError::Corrupted(m))
            && m@ == marker_fault_chars(bytes@)),
{
    if bytes.len() != SUBSTRATE_MARKER_LEN {
        let count = crate::text::decimal_text(bytes.len() as u64);
        let text = crate::text::join(
            "substrate_format marker has wrong length: expected 3 bytes, found ",
            count.as_str(),
        );
        return Err(PulseDBError::Storage(StorageError::corrupted(text.as_str())));
    }
    if bytes[0] != SUBSTRATE_MAGIC_0 || bytes[1] != SUBSTRATE_MAGIC_1 {
        let found = byte_pair_text(bytes[0], bytes[1]);
        let text = crate::text::join(
            "substrate_format marker magic mismatch: expected [80, 83], found ",
            found.as_str(),
        );
        return Err(PulseDBError::Storage(StorageError::corrupted(text.as_str())));
    }
    Ok(bytes[2])
}

/// The bytes stored under a key, if any.
pub open spec fn stored_bytes(stored: Option<Vec<u8>>) -> Option<Seq<u8>> {
    match stored {
        None => None,
        Some(bytes) => Some(bytes@),
    }
}

/// What the bytes under the marker key say, if they are a marker or absent.
pub open spec fn marker_format(stored: Option<Seq<u8>>) -> Option<SubstrateFormat> {
    match stored {
        None => Some(SubstrateFormat::Absent),
        Some(bytes) => if is_marker(bytes) {
            Some(SubstrateFormat::spec_classify(bytes[2]))
        } else {
            None
        },
    }
}

/// What the raw bytes under the marker key say: no bytes is an unmarked store.
pub fn read_substrate_marker(stored: &Option<Vec<u8>>) -> (format: Result<
    SubstrateFormat,
    PulseDBError,
>)
    ensures
        match marker_format(stored_bytes(*stored)) {
            Some(f) => format == Ok::<SubstrateFormat, PulseDBError>(f),
            None => format matches Err(PulseDBError::Storage(StorageError::Corrupted(m))) && (
            *stored matches Some(bytes) && m@ == marker_fault_chars(bytes@)),
        },
{
    match stored {
        None => Ok(SubstrateFormat::Absent),
        Some(bytes) => match decode_substrate_marker(bytes.as_slice()) {
            Err(e) => Err(e),
            Ok(version) => Ok(SubstrateFormat::classify(version)),
        },
    }
}

/// A marker reads back as the version it was written for, and classifying keeps
/// the version.
pub proof fn law_marker_round_trip(version: u8)
    ensures
        marker_format(Some(marker_bytes(version))) == Some(SubstrateFormat::spec_classify(version)),
        SubstrateFormat::spec_classify(version).spec_version() == version,
        SubstrateFormat::spec_classify(CURRENT_SUBSTRATE_FORMAT) == SubstrateFormat::Current,
{
}

// ---------------------------------------------------------------------------
// The engine's cached header
// ---------------------------------------------------------------------------

/// What an open store knows about itself without reading.
#[derive(Clone, Debug)]
pub struct RedbStorage {
    /// The store's metadata, as of opening.
    pub metadata: DatabaseMetadata,
    /// Path of the database file.
    pub path: String,
    /// The store's own identity.
    pub instance_id: InstanceId,
}

/// Whether the metadata of an existing store fits this build and `config`.
pub open spec fn metadata_fits(metadata: DatabaseMetadata, config: Config) -> bool {
    1 <= metadata.schema_version <= SCHEMA_VERSION && metadata.embedding_dimension
        == config.embedding_dimension
}

/// The failure reported for metadata that does not fit: the schema version is
/// judged before the embedding size.
pub open spec fn metadata_fault(metadata: DatabaseMetadata, config: Config) -> PulseDBError {
    if !(1 <= metadata.schema_version <= SCHEMA_VERSION) {
        PulseDBError::Storage(
            StorageError::SchemaVersionMismatch {
                expected: SCHEMA_VERSION,
                found: metadata.schema_version,
            },
        )
    } else {
        PulseDBError::Validation(
            ValidationError::DimensionMismatch {
                expected: config.embedding_dimension.spec_size(),
                got: metadata.embedding_dimension.spec_size(),
            },
        )
    }
}

/// `n`, or the largest 64-bit number where `n` exceeds it.
pub open spec fn capped(n: nat) -> nat {
    if n > u64::MAX {
        u64::MAX as nat
    } else {
        n
    }
}

fn saturating_mul(a: u64, b: u64) -> (n: u64)
    ensures
        n == capped((a * b) as nat),
{
    match a.checked_mul(b) {
        Some(n) => n,
        None => {
            proof {
                assert(a * b >= 0) by (nonlinear_arith);
            }
            u64::MAX
        },
    }
}

/// Store size up to which a re-encode always runs in one transaction.
pub const SINGLE_TXN_STORE_FLOOR_BYTES: u64 = 1_073_741_824;

/// Peak memory of a re-encode, per hundred bytes re-encoded.
pub const PEAK_RSS_NUMERATOR: u64 = 10;

/// See [`PEAK_RSS_NUMERATOR`].
pub const PEAK_RSS_DENOMINATOR: u64 = 100;

/// Factor by which a projected peak is inflated, over
/// [`PEAK_SAFETY_MARGIN_DENOMINATOR`].
pub const PEAK_SAFETY_MARGIN_NUMERATOR: u64 = 3;

/// See [`PEAK_SAFETY_MARGIN_NUMERATOR`].
pub const PEAK_SAFETY_MARGIN_DENOMINATOR: u64 = 2;

/// Share of declared memory a migration may use, over
/// [`DECLARED_MEM_SAFETY_DENOMINATOR`].
pub const DECLARED_MEM_SAFETY_NUMERATOR: u64 = 1;

/// See [`DECLARED_MEM_SAFETY_NUMERATOR`].
pub const DECLARED_MEM_SAFETY_DENOMINATOR: u64 = 2;

/// Bytes a re-encode decodes and writes again: all but the copied-through ones.
pub open spec fn footprint(store_size: u64, copy_through: u64) -> u64 {
    if store_size >= copy_through {
        (store_size - copy_through) as u64
    } else {
        0
    }
}

/// Projected peak memory of re-encoding `bytes`: a tenth of them.
pub open spec fn peak_rss(bytes: u64) -> nat {
    capped((bytes * 10) as nat) / 100
}

/// The projected peak, inflated by half and rounded up.
pub open spec fn peak_with_margin(bytes: u64) -> nat {
    capped(capped(peak_rss(bytes) * 3) + 1) / 2
}

/// Whether a re-encode may run in one transaction: the store is small, or its
/// projected peak is no larger than a small store's, or the caller declared
/// more than twice the projected peak.
pub open spec fn single_txn_safe(store_size: u64, copy_through: u64, config: Config) -> bool {
    let peak = peak_with_margin(footprint(store_size, copy_through));
    ||| store_size <= SINGLE_TXN_STORE_FLOOR_BYTES
    ||| peak <= peak_with_margin(SINGLE_TXN_STORE_FLOOR_BYTES)
    ||| config.migration_available_memory_bytes matches Some(declared) && peak < declared / 2
}

/// Free disk a migration needs: the migrated file, a tenth for growth, and the
/// backup where one is made.
pub open spec fn required_disk(store_size: u64, makes_backup: bool) -> nat {
    if makes_backup {
        capped(capped((store_size * 2) as nat) + (store_size / 10) as nat)
    } else {
        capped((store_size + store_size / 10) as nat)
    }
}

impl RedbStorage {
    /// The embedding size fixed when the store was created.
    pub fn embedding_dimension(&self) -> (dimension: EmbeddingDimension)
        ensures
            dimension == self.metadata.embedding_dimension,
    {
        self.metadata.embedding_dimension
    }

    /// The store's metadata record.
    pub fn metadata(&self) -> (metadata: &DatabaseMetadata)
        ensures
            *metadata == self.metadata,
    {
        &self.metadata
    }

    /// Where the store lies; a store in a file always has a path.
    pub fn path(&self) -> (path: Option<&String>)
        ensures
            path == Some(&self.path),
    {
        Some(&self.path)
    }

    /// The identity the store was opened under.
    pub fn instance_id(&self) -> (id: InstanceId)
        ensures
            id == self.instance_id,
    {
        self.instance_id
    }

    /// Refuses an existing store whose schema version or embedding size does not
    /// fit.
    pub fn validate_existing_metadata(metadata: &DatabaseMetadata, config: &Config) -> (r: Result<
        (),
        PulseDBError,
    >)
        ensures
            r is Ok <==> metadata_fits(*metadata, *config),
            r matches Err(e) ==> e == metadata_fault(*metadata, *config),
    {
        if metadata.schema_version < 1 || metadata.schema_version > SCHEMA_VERSION {
            return Err(
                PulseDBError::Storage(
                    StorageError::SchemaVersionMismatch {
                        expected: SCHEMA_VERSION,
                        found: metadata.schema_version,
                    },
                ),
            );
        }
        if metadata.embedding_dimension != config.embedding_dimension {
            return Err(
                PulseDBError::Validation(
                    ValidationError::DimensionMismatch {
                        expected: config.embedding_dimension.size(),
                        got: metadata.embedding_dimension.size(),
                    },
                ),
            );
        }
        Ok(())
    }

    /// Store size up to which a re-encode always runs in one transaction.
    pub fn single_txn_floor_bytes() -> (n: u64)
        ensures
            n == SINGLE_TXN_STORE_FLOOR_BYTES,
    {
        SINGLE_TXN_STORE_FLOOR_BYTES
    }

    /// Bytes a re-encode decodes and writes again.
    pub fn re_encodable_footprint(store_size: u64, copy_through_bytes: u64) -> (n: u64)
        ensures
            n == footprint(store_size, copy_through_bytes),
    {
        store_size.saturating_sub(copy_through_bytes)
    }

    /// Projected peak memory of a re-encode, before any margin.
    pub fn projected_peak_rss(re_encodable_footprint: u64) -> (n: u64)
        ensures
            n == peak_rss(re_encodable_footprint),
    {
        saturating_mul(re_encodable_footprint, PEAK_RSS_NUMERATOR) / PEAK_RSS_DENOMINATOR
    }

    /// Projected peak memory of a re-encode, inflated so that it errs high.
    pub fn projected_peak_with_margin(re_encodable_footprint: u64) -> (n: u64)
        ensures
            n == peak_with_margin(re_encodable_footprint),
    {
        saturating_mul(
            Self::projected_peak_rss(re_encodable_footprint),
            PEAK_SAFETY_MARGIN_NUMERATOR,
        ).saturating_add(PEAK_SAFETY_MARGIN_DENOMINATOR - 1) / PEAK_SAFETY_MARGIN_DENOMINATOR
    }

    /// Decides whether a re-encode may run in one transaction, and refuses the
    /// store otherwise. Only declared memory counts; the host is never asked.
    pub fn resolve_codec_txn_shape(store_size: u64, copy_through_bytes: u64, config: &Config) -> (r:
        Result<(), PulseDBError>)
        ensures
            r is Ok <==> single_txn_safe(store_size, copy_through_bytes, *config),
            r matches Err(e) ==> e == PulseDBError::Storage(
                StorageError::SubstrateMigrationTooLarge {
                    store_size,
                    projected_peak: peak_with_margin(
                        footprint(store_size, copy_through_bytes),
                    ) as u64,
                    budget: SINGLE_TXN_STORE_FLOOR_BYTES,
                },
            ),
    {
        let bytes: u64 = Self::re_encodable_footprint(store_size, copy_through_bytes);
        let projected_peak: u64 = Self::projected_peak_with_margin(bytes);
        let floor: u64 = Self::single_txn_floor_bytes();
        let floor_peak_budget: u64 = Self::projected_peak_with_margin(floor);
        if store_size <= floor {
            return Ok(());
        }
        if projected_peak <= floor_peak_budget {
            return Ok(());
        }
        if let Some(declared) = config.migration_available_memory_bytes {
            let allowed: u64 = saturating_mul(declared, DECLARED_MEM_SAFETY_NUMERATOR)
                / DECLARED_MEM_SAFETY_DENOMINATOR;
            if projected_peak < allowed {
                return Ok(());
            }
        }
        Err(
            PulseDBError::Storage(
                StorageError::SubstrateMigrationTooLarge {
                    store_size,
                    projected_peak,
                    budget: floor,
                },
            ),
        )
    }

    /// Free disk a migration that makes a backup needs.
    pub fn required_migration_disk_bytes(store_size: u64) -> (n: u64)
        ensures
            n == required_disk(store_size, true),
    {
        saturating_mul(store_size, 2).saturating_add(store_size / 10)
    }

    /// Refuses a migration for which disk, then memory, does not suffice, before
    /// anything is written.
    pub fn resolve_migration_headroom(
        store_size: u64,
        copy_through_bytes: u64,
        available: u64,
        config: &Config,
        makes_backup: bool,
    ) -> (r: Result<(), PulseDBError>)
        ensures
            r is Ok <==> available >= required_disk(store_size, makes_backup) && single_txn_safe(
                store_size,
                copy_through_bytes,
                *config,
            ),
            r matches Err(e) ==> e == if available < required_disk(store_size, makes_backup) {
                PulseDBError::Storage(
                    StorageError::SubstrateMigrationInsufficientDisk {
                        store_size,
                        required: required_disk(store_size, makes_backup) as u64,
                        available,
                    },
                )
            } else {
                PulseDBError::Storage(
                    StorageError::SubstrateMigrationTooLarge {
                        store_size,
                        projected_peak: peak_with_margin(
                            footprint(store_size, copy_through_bytes),
                        ) as u64,
                        budget: SINGLE_TXN_STORE_FLOOR_BYTES,
                    },
                )
            },
    {
        let required: u64 = if makes_backup {
            Self::required_migration_disk_bytes(store_size)
        } else {
            store_size.saturating_add(store_size / 10)
        };
        if available < required {
            return Err(
                PulseDBError::Storage(
                    StorageError::SubstrateMigrationInsufficientDisk {
                        store_size,
                        required,
                        available,
                    },
                ),
            );
        }
        Self::resolve_codec_txn_shape(store_size, copy_through_bytes, config)
    }
}

/// The margin only ever raises a projected peak.
pub proof fn law_margin_errs_high(bytes: u64)
    ensures
        peak_with_margin(bytes) >= peak_rss(bytes),
{
}

/// Re-encoding more never projects a lower peak.
pub proof fn law_peak_monotonic(a: u64, b: u64)
    requires
        a <= b,
    ensures
        peak_rss(a) <= peak_rss(b),
        peak_with_margin(a) <= peak_with_margin(b),
{
}

/// Copying more bytes through, or declaring more memory, never turns an accepted
/// migration into a refused one.
pub proof fn law_more_headroom_is_never_worse(
    store_size: u64,
    copy_a: u64,
    copy_b: u64,
    config: Config,
    declared_a: u64,
    declared_b: u64,
)
    requires
        copy_a <= copy_b,
        declared_a <= declared_b,
        single_txn_safe(
            store_size,
            copy_a,
            Config { migration_available_memory_bytes: Some(declared_a), ..config },
        ),
    ensures
        single_txn_safe(
            store_size,
            copy_b,
            Config { migration_available_memory_bytes: Some(declared_b), ..config },
        ),
{
    law_peak_monotonic(footprint(store_size, copy_b), footprint(store_size, copy_a));
}

/// A migration that makes no backup never needs more disk than one that does, and
/// both need at least the size of the store.
pub proof fn law_backup_costs_disk(store_size: u64)
    ensures
        store_size <= required_disk(store_size, false) <= required_disk(store_size, true),
{
}

} // verus!
