//! Opening a store: file-format migration, schema migration, and the writes that
//! bring an existing store up to date.

use vstd::prelude::*;

use crate::config::Config;
use crate::error::{IoFault, PulseDBError, StorageError};
use crate::model::{Experience, ExperienceV2};
use crate::storage::backup::{migration_io_error, source_error, BackupOutcome};
use crate::storage::experiences::{is_reshaped, reshape_experience};
use crate::storage::redb::{
    encode_substrate_marker, marker_bytes, metadata_fault, metadata_fits, required_disk,
    single_txn_safe, RedbStorage, SubstrateFormat,
};
use crate::storage::schema::{DatabaseMetadata, CURRENT_SUBSTRATE_FORMAT, SCHEMA_VERSION};
use crate::storage::store::{Plan, StoreOp, StoreView};
use crate::types::{ExperienceId, InstanceId, Timestamp};

verus! {

// ---------------------------------------------------------------------------
// The database file
// ---------------------------------------------------------------------------

/// Where opening the database file stands: which operation is under way.
#[derive(Clone, Copy, Debug, PartialEq, Eq, Structural)]
pub enum FileState {
    /// Opening or creating the file.
    Opening,
    /// Waiting for the migration lock.
    Locking,
    /// Opening once more under the lock: another process may have migrated.
    Rechecking,
    /// Measuring the file and the free disk.
    Measuring,
    /// Making the rollback copy.
    BackingUp,
    /// Upgrading the file in place, which is destructive.
    Upgrading {
        /// How the rollback copy came to be.
        backup: BackupOutcome,
    },
    /// Opening the upgraded file.
    Reopening,
    /// Nothing is under way.
    Finished,
}

/// What the operation under way reported.
#[derive(Debug)]
pub enum FileEvent {
    /// The operation succeeded.
    Done,
    /// The file is of an older database format.
    UpgradeRequired {
        /// The format found.
        found: u8,
    },
    /// Sizes of the store file and of the free disk.
    Measured {
        /// Size of the store file.
        store_size: u64,
        /// Free disk.
        available: u64,
    },
    /// The rollback copy is in place.
    BackedUp(BackupOutcome),
    /// The operation failed.
    Failed(PulseDBError),
}

/// The operation to perform next, or how opening ended.
#[derive(Debug)]
pub enum FileAction {
    /// Open or create the file.
    OpenFile,
    /// Wait for the migration lock. It is held until opening ends.
    AcquireLock,
    /// Measure the file and the free disk.
    Measure,
    /// Make the rollback copy.
    BackUp,
    /// Upgrade the file in place.
    Upgrade,
    /// Opening failed, and the rollback copy this attempt made may be stale: remove
    /// it, then report the failure.
    DiscardBackup(PulseDBError),
    /// The file is open and of the current database format.
    Opened,
    /// Opening failed.
    Fail(PulseDBError),
}

/// Whether an action writes to the disk.
pub open spec fn writes(action: FileAction) -> bool {
    match action {
        FileAction::AcquireLock | FileAction::BackUp | FileAction::Upgrade
        | FileAction::DiscardBackup(_) => true,
        _ => false,
    }
}

/// The failure reported where an older file is found once its upgrade is over.
pub open spec fn upgrade_required(found: u8) -> PulseDBError {
    PulseDBError::Storage(
        StorageError::SubstrateUpgradeRequired { found, current: CURRENT_SUBSTRATE_FORMAT },
    )
}

/// The failure reported for a migration without headroom.
pub open spec fn headroom_fault(
    store_size: u64,
    copy_through: u64,
    available: u64,
    makes_backup: bool,
) -> PulseDBError {
    if available < required_disk(store_size, makes_backup) {
        PulseDBError::Storage(
            StorageError::SubstrateMigrationInsufficientDisk {
                store_size,
                required: required_disk(store_size, makes_backup) as u64,
                available,
            },
        )
    } else {
        PulseDBError::Storage(
            StorageError::SubstrateMigrationTooLarge {
                store_size,
                projected_peak: crate::storage::redb::peak_with_margin(
                    crate::storage::redb::footprint(store_size, copy_through),
                ) as u64,
                budget: crate::storage::redb::SINGLE_TXN_STORE_FLOOR_BYTES,
            },
        )
    }
}

/// What follows when the operation under way in `state` reports `event`.
pub open spec fn file_next(state: FileState, event: FileEvent, config: Config) -> (
    FileState,
    FileAction,
) {
    match (state, event) {
        (FileState::Opening, FileEvent::UpgradeRequired { .. }) => if config.read_only {
            (FileState::Finished, FileAction::Fail(PulseDBError::ReadOnly))
        } else {
            (FileState::Locking, FileAction::AcquireLock)
        },
        (FileState::Rechecking, FileEvent::UpgradeRequired { .. }) => (
            FileState::Measuring,
            FileAction::Measure,
        ),
        (FileState::Measuring, FileEvent::Measured { store_size, available }) => if available
            >= required_disk(store_size, true) && single_txn_safe(store_size, 0, config) {
            (FileState::BackingUp, FileAction::BackUp)
        } else {
            (
                FileState::Finished,
                FileAction::Fail(headroom_fault(store_size, 0, available, true)),
            )
        },
        (FileState::BackingUp, FileEvent::BackedUp(backup)) => (
            FileState::Upgrading { backup },
            FileAction::Upgrade,
        ),
        (FileState::Upgrading { backup }, FileEvent::Failed(e)) => if backup
            == BackupOutcome::Created && e.is_lock() {
            (FileState::Finished, FileAction::DiscardBackup(e))
        } else {
            (FileState::Finished, FileAction::Fail(e))
        },
        (_, FileEvent::Failed(e)) => (FileState::Finished, FileAction::Fail(e)),
        (_, FileEvent::UpgradeRequired { found }) => (
            FileState::Finished,
            FileAction::Fail(upgrade_required(found)),
        ),
        (FileState::Locking, _) => (FileState::Rechecking, FileAction::OpenFile),
        (FileState::Upgrading { .. }, _) => (FileState::Reopening, FileAction::OpenFile),
        (FileState::Measuring, _) => (FileState::Measuring, FileAction::Measure),
        (FileState::BackingUp, _) => (FileState::BackingUp, FileAction::BackUp),
        (FileState::Opening, _) => (FileState::Finished, FileAction::Opened),
        (FileState::Rechecking, _) => (FileState::Finished, FileAction::Opened),
        (FileState::Reopening, _) => (FileState::Finished, FileAction::Opened),
        (FileState::Finished, _) => (FileState::Opening, FileAction::OpenFile),
    }
}

/// Begins opening the database file.
pub fn create_or_migrate() -> (start: (FileState, FileAction))
    ensures
        start.0 == FileState::Opening,
        start.1 is OpenFile,
{
    (FileState::Opening, FileAction::OpenFile)
}

/// Advances opening the database file.
pub fn file_step(state: FileState, event: FileEvent, config: &Config) -> (next: (
    FileState,
    FileAction,
))
    ensures
        next == file_next(state, event, *config),
{
    match event {
        FileEvent::Failed(e) => match state {
            FileState::Upgrading { backup } => {
                if backup == BackupOutcome::Created && e.is_database_locked() {
                    (FileState::Finished, FileAction::DiscardBackup(e))
                } else {
                    (FileState::Finished, FileAction::Fail(e))
                }
            },
            _ => (FileState::Finished, FileAction::Fail(e)),
        },
        FileEvent::UpgradeRequired { found } => match state {
            FileState::Opening => {
                if config.read_only {
                    (FileState::Finished, FileAction::Fail(PulseDBError::ReadOnly))
                } else {
                    (FileState::Locking, FileAction::AcquireLock)
                }
            },
            FileState::Rechecking => (FileState::Measuring, FileAction::Measure),
            _ => (
                FileState::Finished,
                FileAction::Fail(
                    PulseDBError::Storage(
                        StorageError::SubstrateUpgradeRequired {
                            found,
                            current: CURRENT_SUBSTRATE_FORMAT,
                        },
                    ),
                ),
            ),
        },
        FileEvent::Measured { store_size, available } => match state {
            FileState::Measuring => {
                match RedbStorage::resolve_migration_headroom(
                    store_size,
                    0,
                    available,
                    config,
                    true,
                ) {
                    Ok(_) => (FileState::BackingUp, FileAction::BackUp),
                    Err(e) => (FileState::Finished, FileAction::Fail(e)),
                }
            },
            _ => file_proceed(state),
        },
        FileEvent::BackedUp(backup) => match state {
            FileState::BackingUp => (FileState::Upgrading { backup }, FileAction::Upgrade),
            _ => file_proceed(state),
        },
        FileEvent::Done => file_proceed(state),
    }
}

/// What follows a success that reports nothing more.
fn file_proceed(state: FileState) -> (next: (FileState, FileAction))
    ensures
        next == match state {
            FileState::Locking => (FileState::Rechecking, FileAction::OpenFile),
            FileState::Upgrading { .. } => (FileState::Reopening, FileAction::OpenFile),
            FileState::Measuring => (FileState::Measuring, FileAction::Measure),
            FileState::BackingUp => (FileState::BackingUp, FileAction::BackUp),
            FileState::Opening => (FileState::Finished, FileAction::Opened),
            FileState::Rechecking => (FileState::Finished, FileAction::Opened),
            FileState::Reopening => (FileState::Finished, FileAction::Opened),
            FileState::Finished => (FileState::Opening, FileAction::OpenFile),
        },
{
    match state {
        FileState::Locking => (FileState::Rechecking, FileAction::OpenFile),
        FileState::Upgrading { .. } => (FileState::Reopening, FileAction::OpenFile),
        FileState::Measuring => (FileState::Measuring, FileAction::Measure),
        FileState::BackingUp => (FileState::BackingUp, FileAction::BackUp),
        FileState::Opening => (FileState::Finished, FileAction::Opened),
        FileState::Rechecking => (FileState::Finished, FileAction::Opened),
        FileState::Reopening => (FileState::Finished, FileAction::Opened),
        FileState::Finished => (FileState::Opening, FileAction::OpenFile),
    }
}

/// The state after `events`, from the start of one opening.
pub open spec fn file_run(events: Seq<FileEvent>, config: Config) -> FileState
    decreases events.len(),
{
    if events.len() == 0 {
        FileState::Opening
    } else {
        file_next(file_run(events.drop_last(), config), events.last(), config).0
    }
}

/// Whether a state is reached only under the migration lock.
pub open spec fn under_lock(state: FileState) -> bool {
    state is Rechecking || state is Measuring || state is BackingUp || state is Upgrading
        || state is Reopening
}

/// A read-only opening never writes: it never leaves the first step but to end.
pub proof fn law_read_only_never_writes(events: Seq<FileEvent>, config: Config, event: FileEvent)
    requires
        config.read_only,
    ensures
        file_run(events, config) is Opening || file_run(events, config) is Finished,
        !writes(file_next(file_run(events, config), event, config).1),
    decreases events.len(),
{
    if events.len() > 0 {
        law_read_only_never_writes(events.drop_last(), config, events.last());
    }
}

/// The destructive upgrade runs only once a rollback copy is in place, the copy is
/// made only once disk and memory were found to suffice, and both happen under the
/// lock.
pub proof fn law_upgrade_only_behind_a_backup(state: FileState, event: FileEvent, config: Config)
    ensures
        file_next(state, event, config).1 is Upgrade ==> state is BackingUp && event is BackedUp,
        file_next(state, event, config).0 is Upgrading ==> state is BackingUp
            && event is BackedUp,
        (file_next(state, event, config).1 is BackUp && !(state is BackingUp)) ==> (
        event matches FileEvent::Measured { store_size, available } && available >= required_disk(
            store_size,
            true,
        ) && single_txn_safe(store_size, 0, config)),
        under_lock(file_next(state, event, config).0) ==> under_lock(state) || state is Locking,
{
}

/// A rollback copy is removed only where this attempt made it and the upgrade never
/// began because another process held the file; a torn upgrade keeps it.
pub proof fn law_backup_kept_unless_lock_aborted(state: FileState, event: FileEvent, config: Config)
    ensures
        file_next(state, event, config).1 is DiscardBackup <==> (state == (FileState::Upgrading {
            backup: BackupOutcome::Created,
        }) && (event matches FileEvent::Failed(e) && e.is_lock())),
{
}

/// How many operations opening the file can still take.
pub open spec fn file_steps_left(state: FileState) -> nat {
    match state {
        FileState::Opening => 7,
        FileState::Locking => 6,
        FileState::Rechecking => 5,
        FileState::Measuring => 4,
        FileState::BackingUp => 3,
        FileState::Upgrading { .. } => 2,
        FileState::Reopening => 1,
        FileState::Finished => 0,
    }
}

/// Opening the file ends: each operation brings it closer to its end, as long as
/// measuring is answered by sizes and a backup by its outcome.
pub proof fn law_file_opening_ends(state: FileState, event: FileEvent, config: Config)
    requires
        state is Measuring ==> event is Measured || event is Failed,
        state is BackingUp ==> event is BackedUp || event is Failed,
    ensures
        state is Finished || file_steps_left(file_next(state, event, config).0) < file_steps_left(
            state,
        ),
{
}

// ---------------------------------------------------------------------------
// An existing store
// ---------------------------------------------------------------------------

/// The codec of a store's serialized records.
#[derive(Clone, Copy, Debug, PartialEq, Eq, Structural)]
pub enum RecordCodec {
    /// The codec of unmarked and older stores.
    Legacy,
    /// The codec this build writes.
    Current,
}

/// The failure reported for a store written by a newer build.
pub open spec fn too_new(found: u8) -> PulseDBError {
    PulseDBError::Storage(
        StorageError::SubstrateFormatTooNew { found, current: CURRENT_SUBSTRATE_FORMAT },
    )
}

/// The codec to read metadata with, before anything was re-encoded: the marker
/// alone decides, and a newer store is refused unread. A store without metadata is
/// refused first.
pub fn metadata_codec(marker: SubstrateFormat, present: bool) -> (codec: Result<
    RecordCodec,
    PulseDBError,
>)
    ensures
        !present ==> (codec matches Err(PulseDBError::Storage(StorageError::Corrupted(m))) && m@
            == "Missing database metadata"@),
        present ==> match marker {
            SubstrateFormat::Newer(found) => codec == Err::<RecordCodec, PulseDBError>(
                too_new(found),
            ),
            SubstrateFormat::Current => codec == Ok::<RecordCodec, PulseDBError>(
                RecordCodec::Current,
            ),
            _ => codec == Ok::<RecordCodec, PulseDBError>(RecordCodec::Legacy),
        },
{
    if !present {
        return Err(PulseDBError::Storage(StorageError::corrupted("Missing database metadata")));
    }
    match marker {
        SubstrateFormat::Absent => Ok(RecordCodec::Legacy),
        SubstrateFormat::Older(_) => Ok(RecordCodec::Legacy),
        SubstrateFormat::Newer(found) => Err(
            PulseDBError::Storage(
                StorageError::SubstrateFormatTooNew { found, current: CURRENT_SUBSTRATE_FORMAT },
            ),
        ),
        SubstrateFormat::Current => Ok(RecordCodec::Current),
    }
}

/// The metadata of a store, as `codec` decoded it.
pub fn read_metadata(codec: RecordCodec, decoded: Result<DatabaseMetadata, String>) -> (metadata:
    Result<DatabaseMetadata, PulseDBError>)
    ensures
        match decoded {
            Ok(m) => metadata == Ok::<DatabaseMetadata, PulseDBError>(m),
            Err(t) => metadata matches Err(PulseDBError::Storage(StorageError::Corrupted(m))) && m@
                == match codec {
                RecordCodec::Legacy => "Invalid legacy metadata format: "@ + t@,
                RecordCodec::Current => "Invalid metadata format: "@ + t@,
            },
        },
{
    match decoded {
        Ok(metadata) => Ok(metadata),
        Err(text) => {
            let message = match codec {
                RecordCodec::Legacy => crate::text::join(
                    "Invalid legacy metadata format: ",
                    text.as_str(),
                ),
                RecordCodec::Current => crate::text::join(
                    "Invalid metadata format: ",
                    text.as_str(),
                ),
            };
            Err(PulseDBError::Storage(StorageError::Corrupted(message)))
        },
    }
}

/// Which schema migrations a store needs.
#[derive(Clone, Copy, Debug, PartialEq, Eq, Structural)]
pub struct SchemaPlan {
    /// The log is still in its first form.
    pub reshape_log: bool,
    /// Experiences still carry a scalar count.
    pub reshape_experiences: bool,
}

/// The schema migrations of a store at `schema_version` whose marker says `format`.
/// The log is reshaped from the first version on. Experiences are reshaped unless both
/// the version and the marker are current: such a store carries per-instance counts
/// already.
pub open spec fn schema_plan(schema_version: u32, format: SubstrateFormat) -> SchemaPlan {
    SchemaPlan {
        reshape_log: schema_version == 1,
        reshape_experiences: schema_version < SCHEMA_VERSION || (schema_version <= 2 && format
            != SubstrateFormat::Current),
    }
}

/// Decides which schema migrations an existing store needs. A store that does not fit is
/// refused; so is one whose experiences would have to be reshaped, by its version or its
/// marker, where it may not be written to. A store that needs its log reshaped needs its
/// experiences reshaped too, so any schema migration refuses a read-only opening.
pub fn plan_schema(metadata: &DatabaseMetadata, format: SubstrateFormat, config: &Config) -> (plan:
    Result<SchemaPlan, PulseDBError>)
    ensures
        plan is Ok <==> metadata_fits(*metadata, *config) && !(config.read_only && schema_plan(
            metadata.schema_version,
            format,
        ).reshape_experiences),
        plan matches Ok(p) ==> p == schema_plan(metadata.schema_version, format),
        plan matches Ok(p) ==> (p.reshape_log ==> p.reshape_experiences),
        plan matches Err(e) ==> e == if !metadata_fits(*metadata, *config) {
            metadata_fault(*metadata, *config)
        } else {
            PulseDBError::ReadOnly
        },
{
    match RedbStorage::validate_existing_metadata(metadata, config) {
        Err(e) => Err(e),
        Ok(_) => {
            let current: bool = match format {
                SubstrateFormat::Current => true,
                _ => false,
            };
            let reshape_experiences: bool = metadata.schema_version < SCHEMA_VERSION || (
            metadata.schema_version <= 2 && !current);
            if reshape_experiences && config.read_only {
                return Err(PulseDBError::ReadOnly);
            }
            Ok(SchemaPlan { reshape_log: metadata.schema_version == 1, reshape_experiences })
        },
    }
}

/// What claiming and filling the schema-migration copy reported.
#[derive(Clone, Copy, Debug, PartialEq, Eq, Structural)]
pub enum ClaimReport {
    /// The name was free, and the copy is complete.
    Copied,
    /// The name was free, and copying failed.
    CopyFailed(IoFault),
    /// The name was taken.
    AlreadyThere,
    /// The name could not be claimed.
    ClaimFailed(IoFault),
}

/// How to go on after the schema-migration copy was claimed.
#[derive(Debug)]
pub enum ClaimOutcome {
    /// A complete copy is in place.
    Proceed,
    /// Remove the incomplete copy, then fail.
    RemoveThenFail(PulseDBError),
    /// Fail.
    Fail(PulseDBError),
}

/// Judges the schema-migration copy: one that is there already is kept, an
/// incomplete one is removed so that it is never mistaken for a complete one.
pub fn judge_pre_v3_backup(report: ClaimReport, windows: bool) -> (outcome: ClaimOutcome)
    ensures
        outcome == match report {
            ClaimReport::Copied => ClaimOutcome::Proceed,
            ClaimReport::AlreadyThere => ClaimOutcome::Proceed,
            ClaimReport::CopyFailed(f) => ClaimOutcome::RemoveThenFail(source_error(f, windows)),
            ClaimReport::ClaimFailed(f) => ClaimOutcome::Fail(source_error(f, windows)),
        },
{
    match report {
        ClaimReport::Copied => ClaimOutcome::Proceed,
        ClaimReport::AlreadyThere => ClaimOutcome::Proceed,
        ClaimReport::CopyFailed(f) => ClaimOutcome::RemoveThenFail(migration_io_error(f, windows)),
        ClaimReport::ClaimFailed(f) => ClaimOutcome::Fail(migration_io_error(f, windows)),
    }
}

/// Decides whether every record must be re-encoded and the marker written, refusing
/// a newer store, and an older one that may not be written to.
pub fn plan_substrate(marker: SubstrateFormat, config: &Config) -> (needed: Result<
    bool,
    PulseDBError,
>)
    ensures
        needed is Ok <==> !(marker is Newer) && !(marker.needs_migration() && config.read_only),
        needed matches Ok(yes) ==> yes == marker.needs_migration(),
        needed matches Err(e) ==> e == match marker {
            SubstrateFormat::Newer(found) => too_new(found),
            _ => PulseDBError::ReadOnly,
        },
{
    match marker {
        SubstrateFormat::Newer(found) => Err(
            PulseDBError::Storage(
                StorageError::SubstrateFormatTooNew { found, current: CURRENT_SUBSTRATE_FORMAT },
            ),
        ),
        SubstrateFormat::Current => Ok(false),
        SubstrateFormat::Absent => {
            if config.read_only {
                return Err(PulseDBError::ReadOnly);
            }
            Ok(true)
        },
        SubstrateFormat::Older(_) => {
            if config.read_only {
                return Err(PulseDBError::ReadOnly);
            }
            Ok(true)
        },
    }
}

/// Whether the bytes are those of an instance id.
pub open spec fn is_instance_id(stored: Option<Vec<u8>>) -> bool {
    stored matches Some(bytes) && bytes@.len() == 16
}

/// The identity a store carries.
pub fn read_instance_id(stored: &Option<Vec<u8>>) -> (id: Result<InstanceId, PulseDBError>)
    ensures
        id is Ok <==> is_instance_id(*stored),
        id matches Ok(i) ==> (*stored matches Some(bytes) && i.spec_bytes() == bytes@),
        id matches Err(e) ==> (e matches PulseDBError::Storage(StorageError::Corrupted(m)) && m@
            == if *stored is None {
            "Missing instance_id"@
        } else {
            "invalid instance_id bytes"@
        }),
{
    match stored {
        None => Err(PulseDBError::Storage(StorageError::corrupted("Missing instance_id"))),
        Some(bytes) => {
            if bytes.len() != 16 {
                return Err(
                    PulseDBError::Storage(StorageError::corrupted("invalid instance_id bytes")),
                );
            }
            let raw: [u8; 16] = crate::storage::schema::array_at::<16>(bytes.as_slice(), 0);
            assert(raw@ =~= bytes@);
            Ok(InstanceId::from_bytes(raw))
        },
    }
}

/// Lengths of what a re-encoding copies through untouched: embeddings, index
/// entries, and the metadata values that are raw bytes.
#[derive(Clone, Debug)]
pub struct CopyThrough {
    /// Key and value lengths of the embeddings.
    pub embeddings: Vec<(u64, u64)>,
    /// Per index key, its length and the lengths of its values.
    pub index_groups: Vec<(u64, Vec<u64>)>,
    /// Key and value lengths of the raw metadata values.
    pub raw_metadata: Vec<(u64, u64)>,
}

/// Sum of pairs of lengths.
pub open spec fn pair_bytes(pairs: Seq<(u64, u64)>) -> nat
    decreases pairs.len(),
{
    if pairs.len() == 0 {
        0
    } else {
        pair_bytes(pairs.drop_last()) + pairs.last().0 as nat + pairs.last().1 as nat
    }
}

/// Sum of lengths.
pub open spec fn length_bytes(lengths: Seq<u64>) -> nat
    decreases lengths.len(),
{
    if lengths.len() == 0 {
        0
    } else {
        length_bytes(lengths.drop_last()) + lengths.last() as nat
    }
}

/// Sum of the lengths of index groups.
pub open spec fn group_bytes(groups: Seq<(u64, Vec<u64>)>) -> nat
    decreases groups.len(),
{
    if groups.len() == 0 {
        0
    } else {
        group_bytes(groups.drop_last()) + groups.last().0 as nat + length_bytes(groups.last().1@)
    }
}

/// Adds pairs of lengths to `start`, saturating.
fn add_pairs(start: u64, pairs: &Vec<(u64, u64)>) -> (total: u64)
    ensures
        total == crate::storage::redb::capped(start as nat + pair_bytes(pairs@)),
{
    let mut total: u64 = start;
    let mut i: usize = 0;
    assert(pairs@.take(0) =~= Seq::empty());
    while i < pairs.len()
        invariant
            i <= pairs@.len(),
            total == crate::storage::redb::capped(
                start as nat + pair_bytes(pairs@.take(i as int)),
            ),
        decreases pairs@.len() - i,
    {
        assert(pairs@.take(i + 1).drop_last() =~= pairs@.take(i as int));
        total = total.saturating_add(pairs[i].0).saturating_add(pairs[i].1);
        i = i + 1;
    }
    assert(pairs@.take(i as int) =~= pairs@);
    total
}

/// Adds lengths to `start`, saturating.
fn add_lengths(start: u64, lengths: &Vec<u64>) -> (total: u64)
    ensures
        total == crate::storage::redb::capped(start as nat + length_bytes(lengths@)),
{
    let mut total: u64 = start;
    let mut i: usize = 0;
    assert(lengths@.take(0) =~= Seq::empty());
    while i < lengths.len()
        invariant
            i <= lengths@.len(),
            total == crate::storage::redb::capped(
                start as nat + length_bytes(lengths@.take(i as int)),
            ),
        decreases lengths@.len() - i,
    {
        assert(lengths@.take(i + 1).drop_last() =~= lengths@.take(i as int));
        total = total.saturating_add(lengths[i]);
        i = i + 1;
    }
    assert(lengths@.take(i as int) =~= lengths@);
    total
}

/// How many bytes a re-encoding copies through untouched, saturating.
pub fn copy_through_bytes(rows: &CopyThrough) -> (total: u64)
    ensures
        total == crate::storage::redb::capped(
            pair_bytes(rows.embeddings@) + group_bytes(rows.index_groups@) + pair_bytes(
                rows.raw_metadata@,
            ),
        ),
{
    let start: u64 = add_pairs(0, &rows.embeddings);
    let groups = &rows.index_groups;
    let mut total: u64 = start;
    let mut i: usize = 0;
    assert(groups@.take(0) =~= Seq::empty());
    while i < groups.len()
        invariant
            i <= groups@.len(),
            *groups == rows.index_groups,
            total == crate::storage::redb::capped(
                pair_bytes(rows.embeddings@) + group_bytes(groups@.take(i as int)),
            ),
        decreases groups@.len() - i,
    {
        assert(groups@.take(i + 1).drop_last() =~= groups@.take(i as int));
        total = add_lengths(total.saturating_add(groups[i].0), &groups[i].1);
        i = i + 1;
    }
    assert(groups@.take(i as int) =~= groups@);
    add_pairs(total, &rows.raw_metadata)
}

/// Whether `values` are second-schema rows reshaped, each under its own key.
pub open spec fn reshaped_rows(
    rows: Seq<(ExperienceId, ExperienceV2)>,
    values: Seq<(ExperienceId, Experience)>,
) -> bool {
    &&& values.len() == rows.len()
    &&& forall|i: int|
        #![trigger values[i]]
        0 <= i < values.len() ==> values[i].0 == rows[i].0 && is_reshaped(rows[i].1, values[i].1)
}

/// Reshapes every second-schema experience, each under the key it was read with.
pub fn migrate_experiences_v2_to_v3(rows: Vec<(ExperienceId, ExperienceV2)>) -> (plan: Plan)
    ensures
        plan.ops@.len() == rows@.len(),
        forall|i: int|
            #![trigger plan.ops@[i]]
            0 <= i < rows@.len() ==> (plan.ops@[i] matches StoreOp::PutExperience(key, e)
                && key == rows@[i].0 && is_reshaped(rows@[i].1, e)),
        exists|values: Seq<(ExperienceId, Experience)>|
            #![trigger reshaped_rows(rows@, values)]
            reshaped_rows(rows@, values) && forall|s: StoreView| #[trigger]
                plan.effect(s) == (StoreView {
                    experiences: crate::storage::reencode::put_all(s.experiences, values),
                    ..s
                }),
{
    let ghost all = rows@;
    let ghost mut values: Seq<(ExperienceId, Experience)> = Seq::empty();
    let mut plan = Plan::new();
    for row in it: rows
        invariant
            it.seq() == all,
            plan.ops@.len() == it.index(),
            forall|i: int|
                #![trigger plan.ops@[i]]
                0 <= i < it.index() ==> (plan.ops@[i] matches StoreOp::PutExperience(key, e)
                    && key == all[i].0 && is_reshaped(all[i].1, e)),
            reshaped_rows(all.take(it.index() as int), values),
            forall|s: StoreView| #[trigger]
                plan.effect(s) == (StoreView {
                    experiences: crate::storage::reencode::put_all(s.experiences, values),
                    ..s
                }),
    {
        let ghost n: int = plan.ops@.len() as int;
        assert(row == all[n]);
        let key = row.0;
        let v3 = reshape_experience(row.1);
        proof {
            let before = values;
            values = before.push((key, v3));
            assert(values.drop_last() =~= before);
            assert(reshaped_rows(all.take(n + 1), values)) by {
                assert forall|i: int| #![trigger values[i]] 0 <= i < values.len() implies values[i].0
                    == all.take(n + 1)[i].0 && is_reshaped(all.take(n + 1)[i].1, values[i].1) by {
                    if i < n {
                        assert(before[i] == values[i]);
                        assert(all.take(n)[i] == all.take(n + 1)[i]);
                    }
                }
            }
        }
        plan.push(StoreOp::PutExperience(key, v3));
    }
    assert(all.take(all.len() as int) =~= all);
    assert(reshaped_rows(all, values));
    plan
}

/// Reshaping every row of the experience table leaves its key set as it was and each key
/// with the reshaped record of its own row, even where a key is not its record's id.
pub proof fn law_reshape_keeps_keys(
    s: StoreView,
    rows: Seq<(ExperienceId, ExperienceV2)>,
    values: Seq<(ExperienceId, Experience)>,
)
    requires
        reshaped_rows(rows, values),
        forall|i: int, j: int|
            #![trigger rows[i], rows[j]]
            0 <= i < j < rows.len() ==> rows[i].0 != rows[j].0,
        forall|key: ExperienceId| #[trigger]
            s.experiences.dom().contains(key) <==> exists|i: int|
                #![trigger rows[i]]
                0 <= i < rows.len() && rows[i].0 == key,
    ensures
        ({
            let after = crate::storage::reencode::put_all(s.experiences, values);
            &&& after.dom() == s.experiences.dom()
            &&& forall|i: int|
                #![trigger rows[i]]
                0 <= i < rows.len() ==> is_reshaped(rows[i].1, after[rows[i].0])
        }),
{
    assert forall|i: int, j: int|
        #![trigger values[i], values[j]]
        0 <= i < j < values.len() implies values[i].0 != values[j].0 by {
        assert(rows[i].0 != rows[j].0);
    }
    assert forall|key: ExperienceId| #[trigger]
        s.experiences.dom().contains(key) implies exists|i: int|
        #![trigger values[i]]
        0 <= i < values.len() && values[i].0 == key by {
        let i = choose|i: int| #![trigger rows[i]] 0 <= i < rows.len() && rows[i].0 == key;
        assert(values[i].0 == key);
    }
    assert forall|i: int| #![trigger values[i]] 0 <= i < values.len() implies s.experiences.dom().contains(
        values[i].0,
    ) by {
        assert(rows[i].0 == values[i].0);
    }
    crate::storage::reencode::law_rewriting_a_table_keeps_its_keys(s.experiences, values);
    assert forall|i: int| #![trigger rows[i]] 0 <= i < rows.len() implies is_reshaped(
        rows[i].1,
        crate::storage::reencode::put_all(s.experiences, values)[rows[i].0],
    ) by {
        assert(values[i].0 == rows[i].0);
    }
}

/// The metadata a writable opening at `now` leaves behind.
pub open spec fn opened_metadata(
    metadata: DatabaseMetadata,
    schema: SchemaPlan,
    now: Timestamp,
) -> DatabaseMetadata {
    DatabaseMetadata {
        last_opened_at: now,
        schema_version: if schema.reshape_log || schema.reshape_experiences {
            SCHEMA_VERSION
        } else {
            metadata.schema_version
        },
        ..metadata
    }
}

/// The metadata a writable opening at `now` leaves behind.
pub fn touch_metadata(metadata: DatabaseMetadata, schema: SchemaPlan, now: Timestamp) -> (touched:
    DatabaseMetadata)
    ensures
        touched == opened_metadata(metadata, schema, now),
{
    let mut touched = metadata;
    touched.touch_at(now);
    if schema.reshape_log || schema.reshape_experiences {
        touched.schema_version = SCHEMA_VERSION;
    }
    touched
}

/// The writes of a writable opening, in order: the reshaped log, a fresh identity
/// where there is none, reshaped experiences, re-encoded records, the metadata, and
/// the marker.
pub open spec fn opening_ops(
    metadata: DatabaseMetadata,
    fresh_identity: Option<[u8; 16]>,
    log: Seq<StoreOp>,
    experiences: Seq<StoreOp>,
    records: Seq<StoreOp>,
    write_marker: bool,
    marker: [u8; 3],
) -> Seq<StoreOp> {
    let identity: Seq<StoreOp> = match fresh_identity {
        Some(id) => seq![StoreOp::SetInstanceId(id)],
        None => Seq::empty(),
    };
    let tail: Seq<StoreOp> = if write_marker {
        seq![StoreOp::SetMarker(marker)]
    } else {
        Seq::empty()
    };
    log + identity + experiences + records + seq![
        StoreOp::PutMetadata(metadata),
    ] + tail
}

/// Assembles the single transaction of a writable opening that leaves `metadata`
/// behind. `log`, `experiences` and
/// `records` are the migrations' own plans, empty where a migration is not needed.
pub fn opening_plan(
    metadata: DatabaseMetadata,
    fresh_identity: Option<InstanceId>,
    log: Plan,
    experiences: Plan,
    records: Plan,
    write_marker: bool,
) -> (plan: Plan)
    ensures
        exists|identity: Option<[u8; 16]>, marker: [u8; 3]|
            {
                &&& marker@ == marker_bytes(CURRENT_SUBSTRATE_FORMAT)
                &&& identity is Some <==> fresh_identity is Some
                &&& fresh_identity matches Some(id) ==> (identity matches Some(raw) && raw@
                    == id.spec_bytes())
                &&& plan.ops@ == #[trigger] opening_ops(
                    metadata,
                    identity,
                    log.ops@,
                    experiences.ops@,
                    records.ops@,
                    write_marker,
                    marker,
                )
            },
{
    let ghost log_ops = log.ops@;
    let ghost experience_ops = experiences.ops@;
    let ghost record_ops = records.ops@;
    let mut plan = log;
    let identity: Option<[u8; 16]> = match fresh_identity {
        Some(id) => Some(id.as_bytes()),
        None => None,
    };
    if let Some(raw) = identity {
        plan.push(StoreOp::SetInstanceId(raw));
    }
    let mut reshaped = experiences;
    plan.ops.append(&mut reshaped.ops);
    let mut rewritten = records;
    plan.ops.append(&mut rewritten.ops);
    plan.push(StoreOp::PutMetadata(metadata));
    let marker: [u8; 3] = encode_substrate_marker(CURRENT_SUBSTRATE_FORMAT);
    if write_marker {
        plan.push(StoreOp::SetMarker(marker));
    }
    proof {
        assert(plan.ops@ =~= opening_ops(
            metadata,
            identity,
            log_ops,
            experience_ops,
            record_ops,
            write_marker,
            marker,
        ));
    }
    plan
}

/// Whether no write of `ops` is the marker.
pub open spec fn leaves_marker(ops: Seq<StoreOp>) -> bool {
    forall|i: int| #![trigger ops[i]] 0 <= i < ops.len() ==> !(ops[i] is SetMarker)
}

/// The marker is the commit point of a migration: where it is written, it is the
/// last write of the transaction, and every migration precedes it.
pub proof fn law_marker_written_last(
    metadata: DatabaseMetadata,
    identity: Option<[u8; 16]>,
    log: Seq<StoreOp>,
    experiences: Seq<StoreOp>,
    records: Seq<StoreOp>,
    write_marker: bool,
    marker: [u8; 3],
)
    requires
        leaves_marker(log),
        leaves_marker(experiences),
        leaves_marker(records),
    ensures
        ({
            let ops = opening_ops(
                metadata,
                identity,
                log,
                experiences,
                records,
                write_marker,
                marker,
            );
            &&& write_marker ==> ops.last() == StoreOp::SetMarker(marker)
            &&& leaves_marker(if write_marker {
                ops.drop_last()
            } else {
                ops
            })
        }),
{
    let ops = opening_ops(
        metadata,
        identity,
        log,
        experiences,
        records,
        write_marker,
        marker,
    );
    let head = if write_marker {
        ops.drop_last()
    } else {
        ops
    };
    let middle: Seq<StoreOp> = match identity {
        Some(id) => seq![StoreOp::SetInstanceId(id)],
        None => Seq::empty(),
    };
    let last = seq![StoreOp::PutMetadata(metadata)];
    assert(head =~= log + middle + experiences + records + last);
    assert forall|i: int| #![trigger head[i]] 0 <= i < head.len() implies !(head[i] is SetMarker) by {
        let a = log.len() as int;
        let b = a + middle.len();
        let c = b + experiences.len();
        let d = c + records.len();
        if i < a {
            assert(head[i] == log[i]);
        } else if i < b {
            assert(head[i] == middle[i - a]);
        } else if i < c {
            assert(head[i] == experiences[i - b]);
        } else if i < d {
            assert(head[i] == records[i - c]);
        } else {
            assert(head[i] == last[i - d]);
        }
    }
}

// ---------------------------------------------------------------------------
// A new store
// ---------------------------------------------------------------------------

/// The writes that create a store: its metadata, its identity and the marker.
pub fn initialize_new(metadata: DatabaseMetadata, identity: InstanceId) -> (plan: Plan)
    ensures
        forall|s: StoreView| #[trigger]
            plan.effect(s) == (StoreView {
                metadata: Some(metadata),
                instance_id: Some(identity.spec_bytes()),
                marker: Some(marker_bytes(CURRENT_SUBSTRATE_FORMAT)),
                ..s
            }),
{
    let mut plan = Plan::new();
    plan.push(StoreOp::PutMetadata(metadata));
    plan.push(StoreOp::SetInstanceId(identity.as_bytes()));
    plan.push(StoreOp::SetMarker(encode_substrate_marker(CURRENT_SUBSTRATE_FORMAT)));
    plan
}

/// What is said of a store without an identity of sixteen bytes.
pub open spec fn identity_fault(stored: Option<Vec<u8>>, created: bool) -> Seq<char> {
    if stored is Some {
        "invalid instance_id bytes"@
    } else if created {
        "Missing instance_id after init"@
    } else {
        "Missing instance_id"@
    }
}

impl RedbStorage {
    /// The open store, once its file and its records are up to date: what remains is
    /// to read back its identity. `created` says that it was just created.
    pub fn open(
        path: String,
        metadata: DatabaseMetadata,
        stored_id: &Option<Vec<u8>>,
        created: bool,
    ) -> (storage: Result<Self, PulseDBError>)
        ensures
            storage is Ok <==> is_instance_id(*stored_id),
            storage matches Ok(s) ==> s.metadata == metadata && s.path == path && (
            *stored_id matches Some(bytes) && s.instance_id.spec_bytes() == bytes@),
            storage matches Err(e) ==> (e matches PulseDBError::Storage(
                StorageError::Corrupted(m),
            ) && m@ == identity_fault(*stored_id, created)),
    {
        match read_instance_id(stored_id) {
            Err(e) => {
                if created && stored_id.is_none() {
                    return Err(
                        PulseDBError::Storage(
                            StorageError::corrupted("Missing instance_id after init"),
                        ),
                    );
                }
                Err(e)
            },
            Ok(instance_id) => Ok(RedbStorage { metadata, path, instance_id }),
        }
    }
}

} // verus!
