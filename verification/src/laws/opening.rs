//! What opening, migrating and copying a store does.

use vstd::prelude::*;

use crate::config::Config;
use crate::error::{IoFault, PulseDBError, StorageError};
use crate::model::{Experience, ExperienceV2};
use crate::storage::backup::{
    backup_once, backup_step, backup_temp_path, is_lock_contention_io_error, migration_io_error,
    migration_lock_path, pre_substrate_backup_path, pre_v3_backup_path, BackupAction, BackupEvent,
    BackupOutcome, BackupState,
};
use crate::storage::decay::{StoredDecayConfig, StoredDecayConfigV1};
use crate::storage::existing::{
    create_new, open_existing, store_step, StoreAction, StoreEvent, StoreState,
};
use crate::storage::experiences::is_reshaped;
use crate::storage::open::{
    copy_through_bytes, create_or_migrate, file_step, initialize_new, judge_pre_v3_backup,
    metadata_codec, migrate_experiences_v2_to_v3, opening_plan, plan_schema, plan_substrate,
    read_instance_id, read_metadata, touch_metadata, ClaimOutcome, ClaimReport, CopyThrough,
    FileAction, FileEvent, FileState, RecordCodec, SchemaPlan,
};
use crate::storage::redb::{
    decode_substrate_marker, encode_substrate_marker, read_substrate_marker, RedbStorage,
    SubstrateFormat,
};
use crate::storage::reencode::{
    collect_rows, decode_blob_legacy_or_postcard, decoded, put_all, reencode_decay_row,
    reencode_event_row, reencode_experience_row, reencode_serde_blobs_to_postcard, BlobRows,
    CursorRows, Table,
};
use crate::storage::schema::{DatabaseMetadata, EntityTypeTag, WatchEventRecord, WatchEventRecordV1};
use crate::storage::store::{apply_all, Plan, StoreOp, StoreView};
use crate::types::{EmbeddingDimension, ExperienceId, InstanceId, Timestamp};

verus! {

// ---------------------------------------------------------------------------
// Markers and metadata
// ---------------------------------------------------------------------------

/// The marker of a format is the two bytes `P` and `S` and the version, and only three bytes
/// that open so are a marker; it then says its third byte. A store without a marker is not
/// marked. A version is current, older or newer as it compares with this build's, and the
/// version that a reading stands for is the one that was read.
pub proof fn law_markers(
    version: u8,
    marker: [u8; 3],
    bytes: &[u8],
    decoded_version: Result<u8, PulseDBError>,
    stored: &Option<Vec<u8>>,
    format: Result<SubstrateFormat, PulseDBError>,
)
    requires
        call_ensures(encode_substrate_marker, (version,), marker),
        call_ensures(decode_substrate_marker, (bytes,), decoded_version),
        call_ensures(read_substrate_marker, (stored,), format),
    ensures
        marker@ == seq![0x50u8, 0x53u8, version],
        decoded_version is Ok <==> bytes@.len() == 3 && bytes@[0] == 0x50 && bytes@[1] == 0x53,
        decoded_version is Ok ==> decoded_version->Ok_0 == bytes@[2],
        *stored is None ==> format is Ok && format->Ok_0 is Absent,
        *stored is Some && stored->Some_0@ == marker@ ==> format is Ok && {
            &&& version == crate::storage::schema::CURRENT_SUBSTRATE_FORMAT ==> format->Ok_0
                is Current
            &&& version < crate::storage::schema::CURRENT_SUBSTRATE_FORMAT ==> format->Ok_0
                == SubstrateFormat::Older(version)
            &&& version > crate::storage::schema::CURRENT_SUBSTRATE_FORMAT ==> format->Ok_0
                == SubstrateFormat::Newer(version)
        },
        *stored is Some && !(stored->Some_0@.len() == 3 && stored->Some_0@[0] == 0x50
            && stored->Some_0@[1] == 0x53) ==> format is Err,
{
    if *stored is Some && stored->Some_0@ == marker@ {
        crate::storage::redb::law_marker_round_trip(version);
    }
}

/// The metadata of a new store has the current schema version, the given embedding size and
/// its moment of creation; opening a store changes the moment it was last opened, and nothing
/// else. A store is compatible exactly at the current schema version.
pub proof fn law_metadata(
    dimension: EmbeddingDimension,
    now: Timestamp,
    made: DatabaseMetadata,
    metadata: &mut DatabaseMetadata,
    later: Timestamp,
    touched: (),
    other: &DatabaseMetadata,
    compatible: bool,
)
    requires
        call_ensures(DatabaseMetadata::new_at, (dimension, now), made),
        call_ensures(DatabaseMetadata::touch_at, (metadata, later), touched),
        call_ensures(DatabaseMetadata::is_compatible, (other,), compatible),
    ensures
        made.schema_version == crate::storage::schema::SCHEMA_VERSION,
        made.embedding_dimension == dimension,
        made.created_at == now,
        made.last_opened_at == now,
        final(metadata).last_opened_at == later,
        final(metadata).schema_version == old(metadata).schema_version,
        final(metadata).embedding_dimension == old(metadata).embedding_dimension,
        final(metadata).created_at == old(metadata).created_at,
        compatible <==> other.schema_version == crate::storage::schema::SCHEMA_VERSION,
{
}

/// An existing store is accepted exactly where its schema version is one of this build's past
/// ones or its own and its embedding size is the one asked for; a wrong version is reported
/// before a wrong size.
pub proof fn law_existing_metadata(
    metadata: &DatabaseMetadata,
    config: &Config,
    r: Result<(), PulseDBError>,
)
    requires
        call_ensures(RedbStorage::validate_existing_metadata, (metadata, config), r),
    ensures
        ({
            let known = 1 <= metadata.schema_version
                <= crate::storage::schema::SCHEMA_VERSION;
            &&& r is Ok <==> known && metadata.embedding_dimension == config.embedding_dimension
            &&& !known ==> r->Err_0 == PulseDBError::Storage(
                StorageError::SchemaVersionMismatch {
                    expected: crate::storage::schema::SCHEMA_VERSION,
                    found: metadata.schema_version,
                },
            )
            &&& known && r is Err ==> r->Err_0 is Validation
        }),
{
}

/// The metadata that a writable opening leaves behind has its moment, and the current schema
/// version where a migration was made; its embedding size and its moment of creation stay.
pub proof fn law_opened_metadata(
    metadata: DatabaseMetadata,
    schema: SchemaPlan,
    now: Timestamp,
    touched: DatabaseMetadata,
)
    requires
        call_ensures(touch_metadata, (metadata, schema, now), touched),
    ensures
        touched.last_opened_at == now,
        touched.created_at == metadata.created_at,
        touched.embedding_dimension == metadata.embedding_dimension,
        schema.reshape_log || schema.reshape_experiences ==> touched.schema_version
            == crate::storage::schema::SCHEMA_VERSION,
        !schema.reshape_log && !schema.reshape_experiences ==> touched.schema_version
            == metadata.schema_version,
{
}

/// Which codec metadata is read with follows the marker alone: the current one for a current
/// store, the earlier one for a store that is older or not marked. A newer store is refused,
/// and so is one without metadata. What was decoded is taken as it is.
pub proof fn law_metadata_codec(
    marker: SubstrateFormat,
    present: bool,
    codec: Result<RecordCodec, PulseDBError>,
    read_with: RecordCodec,
    found: Result<DatabaseMetadata, String>,
    metadata: Result<DatabaseMetadata, PulseDBError>,
)
    requires
        call_ensures(metadata_codec, (marker, present), codec),
        call_ensures(read_metadata, (read_with, found), metadata),
    ensures
        codec is Ok <==> present && !(marker is Newer),
        codec is Ok && marker is Current ==> codec->Ok_0 is Current,
        codec is Ok && !(marker is Current) ==> codec->Ok_0 is Legacy,
        metadata is Ok <==> found is Ok,
        metadata is Ok ==> metadata->Ok_0 == found->Ok_0,
{
}

/// The identity of a store is its sixteen stored bytes; fewer, more or none are corrupt. An
/// open store has that identity, its path and its metadata.
pub proof fn law_identity(
    stored: &Option<Vec<u8>>,
    id: Result<InstanceId, PulseDBError>,
    path: String,
    metadata: DatabaseMetadata,
    created: bool,
    opened: Result<RedbStorage, PulseDBError>,
)
    requires
        call_ensures(read_instance_id, (stored,), id),
        call_ensures(RedbStorage::open, (path, metadata, stored, created), opened),
    ensures
        id is Ok <==> *stored is Some && stored->Some_0@.len() == 16,
        id is Ok ==> crate::bytes::be(id->Ok_0.value as nat, 16) == stored->Some_0@,
        opened is Ok <==> id is Ok,
        opened is Ok ==> {
            &&& opened->Ok_0.metadata == metadata
            &&& opened->Ok_0.path == path
            &&& crate::bytes::be(opened->Ok_0.instance_id.value as nat, 16) == stored->Some_0@
        },
{
}

/// Creating a store writes its metadata, its identity and the marker of the current format, and
/// nothing else.
pub proof fn law_created_store(
    config: &Config,
    now: Timestamp,
    start: (StoreState, StoreAction),
    metadata: DatabaseMetadata,
    identity: InstanceId,
    plan: Plan,
    s: StoreView,
)
    requires
        call_ensures(create_new, (config, now), start),
        call_ensures(initialize_new, (metadata, identity), plan),
    ensures
        start.1 is Initialize,
        start.0 == (StoreState::Initializing { metadata: start.1->Initialize_metadata }),
        start.1->Initialize_metadata.schema_version == crate::storage::schema::SCHEMA_VERSION,
        start.1->Initialize_metadata.embedding_dimension == config.embedding_dimension,
        start.1->Initialize_metadata.created_at == now,
        start.1->Initialize_metadata.last_opened_at == now,
        plan.effect(s) == (StoreView {
            metadata: Some(metadata),
            instance_id: Some(identity.spec_bytes()),
            marker: Some(seq![0x50u8, 0x53u8, crate::storage::schema::CURRENT_SUBSTRATE_FORMAT]),
            ..s
        }),
{
}

// ---------------------------------------------------------------------------
// What a store needs
// ---------------------------------------------------------------------------

/// The log is reshaped from the first schema version. Experiences are reshaped in every store
/// that is of an earlier version, or not in the current format. A store that does not fit is
/// refused, and so is one whose experiences would be reshaped where it may not be written to.
pub proof fn law_schema_plan(
    metadata: &DatabaseMetadata,
    format: SubstrateFormat,
    config: &Config,
    fits: Result<(), PulseDBError>,
    r: Result<SchemaPlan, PulseDBError>,
)
    requires
        call_ensures(RedbStorage::validate_existing_metadata, (metadata, config), fits),
        call_ensures(plan_schema, (metadata, format, config), r),
    ensures
        ({
            let reshape = metadata.schema_version < crate::storage::schema::SCHEMA_VERSION
                || !(format is Current);
            &&& r is Ok <==> fits is Ok && !(config.read_only && reshape)
            &&& r is Ok ==> r->Ok_0.reshape_experiences == reshape
            &&& r is Ok ==> r->Ok_0.reshape_log == (metadata.schema_version == 1)
            &&& fits is Err ==> r->Err_0 == fits->Err_0
            &&& fits is Ok && r is Err ==> r->Err_0 is ReadOnly
        }),
{
}

/// Records are re-encoded exactly in stores that are older or not marked. Those are refused
/// where they may not be written to, and a newer store always.
pub proof fn law_substrate_plan(
    marker: SubstrateFormat,
    config: &Config,
    r: Result<bool, PulseDBError>,
)
    requires
        call_ensures(plan_substrate, (marker, config), r),
    ensures
        marker is Current ==> r == Ok::<bool, PulseDBError>(false),
        marker is Newer ==> r is Err && r->Err_0 is Storage,
        (marker is Absent || marker is Older) && !config.read_only ==> r == Ok::<
            bool,
            PulseDBError,
        >(true),
        (marker is Absent || marker is Older) && config.read_only ==> r is Err && r->Err_0
            is ReadOnly,
{
}

/// A migration needs free disk for the store and a tenth more, and for another copy of it where
/// a rollback copy is made. It needs a store of at most a gibibyte, or a small enough part of it
/// to re-encode, or enough declared memory. Lacking disk is reported before lacking memory.
pub proof fn law_headroom(
    store_size: u64,
    copied: u64,
    available: u64,
    config: &Config,
    makes_backup: bool,
    r: Result<(), PulseDBError>,
    shape: Result<(), PulseDBError>,
)
    requires
        store_size <= 0x1000_0000_0000_0000,
        call_ensures(
            RedbStorage::resolve_migration_headroom,
            (store_size, copied, available, config, makes_backup),
            r,
        ),
        call_ensures(RedbStorage::resolve_codec_txn_shape, (store_size, copied, config), shape),
    ensures
        ({
            let needed = store_size + store_size / 10 + if makes_backup {
                store_size as int
            } else {
                0
            };
            &&& r is Ok <==> available >= needed && shape is Ok
            &&& available < needed ==> r->Err_0 == PulseDBError::Storage(
                StorageError::SubstrateMigrationInsufficientDisk {
                    store_size,
                    required: needed as u64,
                    available,
                },
            )
            &&& available >= needed && r is Err ==> r->Err_0 == shape->Err_0
        }),
        store_size <= 1_073_741_824 ==> shape is Ok,
        shape is Err ==> shape->Err_0 is Storage,
{
}

/// What is re-encoded is what is not copied through. Its projected peak is a tenth of it, and
/// with its margin half as much again, rounded up. A store over a gibibyte may be migrated
/// exactly where that peak is no larger than a gibibyte's, or below half of the declared memory.
pub proof fn law_projected_peak(
    store_size: u64,
    copied: u64,
    config: &Config,
    bytes: u64,
    peak: u64,
    with_margin: u64,
    disk: u64,
    shape: Result<(), PulseDBError>,
)
    requires
        store_size <= 0x1000_0000_0000_0000,
        call_ensures(RedbStorage::re_encodable_footprint, (store_size, copied), bytes),
        call_ensures(RedbStorage::projected_peak_rss, (bytes,), peak),
        call_ensures(RedbStorage::projected_peak_with_margin, (bytes,), with_margin),
        call_ensures(RedbStorage::required_migration_disk_bytes, (store_size,), disk),
        call_ensures(RedbStorage::resolve_codec_txn_shape, (store_size, copied, config), shape),
    ensures
        copied <= store_size ==> bytes == store_size - copied,
        copied > store_size ==> bytes == 0,
        10 * peak <= bytes < 10 * peak + 10,
        2 * with_margin == 3 * peak || 2 * with_margin == 3 * peak + 1,
        disk == 2 * store_size + store_size / 10,
        store_size > 1_073_741_824 ==> (shape is Ok <==> with_margin <= 161_061_273 || (
        config.migration_available_memory_bytes is Some && with_margin
            < config.migration_available_memory_bytes->Some_0 / 2)),
{
}

/// The lengths of what is copied through are summed: keys and values of embeddings and of raw
/// metadata, and each index key with its values.
pub proof fn law_copied_through(
    rows: &CopyThrough,
    total: u64,
    pairs: Seq<(u64, u64)>,
    pair: (u64, u64),
    lengths: Seq<u64>,
    length: u64,
    groups: Seq<(u64, Vec<u64>)>,
    group: (u64, Vec<u64>),
)
    requires
        call_ensures(copy_through_bytes, (rows,), total),
    ensures
        ({
            let sum = crate::storage::open::pair_bytes(rows.embeddings@)
                + crate::storage::open::group_bytes(rows.index_groups@)
                + crate::storage::open::pair_bytes(rows.raw_metadata@);
            &&& sum <= u64::MAX ==> total == sum
            &&& sum > u64::MAX ==> total == u64::MAX
        }),
        crate::storage::open::pair_bytes(Seq::empty()) == 0,
        crate::storage::open::pair_bytes(pairs.push(pair)) == crate::storage::open::pair_bytes(pairs)
            + pair.0 + pair.1,
        crate::storage::open::length_bytes(Seq::empty()) == 0,
        crate::storage::open::length_bytes(lengths.push(length))
            == crate::storage::open::length_bytes(lengths) + length,
        crate::storage::open::group_bytes(Seq::empty()) == 0,
        crate::storage::open::group_bytes(groups.push(group)) == crate::storage::open::group_bytes(
            groups,
        ) + group.0 + crate::storage::open::length_bytes(group.1@),
{
    assert(pairs.push(pair).drop_last() =~= pairs);
    assert(lengths.push(length).drop_last() =~= lengths);
    assert(groups.push(group).drop_last() =~= groups);
}

// ---------------------------------------------------------------------------
// The database file
// ---------------------------------------------------------------------------

/// Opening the file begins by opening it. A file of the current format is open then. An older
/// one is refused where it may not be written to; otherwise the lock is taken, the file opened
/// once more, and only where it is still older it is measured, copied, upgraded and opened a
/// last time.
pub proof fn law_file_opening(
    state: FileState,
    event: FileEvent,
    config: &Config,
    next: (FileState, FileAction),
    start: (FileState, FileAction),
    headroom: Result<(), PulseDBError>,
    store_size: u64,
    available: u64,
)
    requires
        call_ensures(create_or_migrate, (), start),
        call_ensures(file_step, (state, event, config), next),
        call_ensures(
            RedbStorage::resolve_migration_headroom,
            (store_size, 0u64, available, config, true),
            headroom,
        ),
    ensures
        start.0 is Opening && start.1 is OpenFile,
        state is Opening && event is Done ==> next.0 is Finished && next.1 is Opened,
        state is Opening && event is UpgradeRequired && config.read_only ==> next.0 is Finished
            && next.1 == FileAction::Fail(PulseDBError::ReadOnly),
        state is Opening && event is UpgradeRequired && !config.read_only ==> next.0 is Locking
            && next.1 is AcquireLock,
        state is Locking && event is Done ==> next.0 is Rechecking && next.1 is OpenFile,
        state is Rechecking && event is Done ==> next.0 is Finished && next.1 is Opened,
        state is Rechecking && event is UpgradeRequired ==> next.0 is Measuring && next.1
            is Measure,
        state is Measuring && event == (FileEvent::Measured { store_size, available })
            && headroom is Ok ==> next.0 is BackingUp && next.1 is BackUp,
        state is Measuring && event == (FileEvent::Measured { store_size, available })
            && headroom is Err ==> next.0 is Finished && next.1 == FileAction::Fail(
            headroom->Err_0,
        ),
        state is BackingUp && event is BackedUp ==> next.0 == (FileState::Upgrading {
            backup: event->BackedUp_0,
        }) && next.1 is Upgrade,
        state is Upgrading && event is Done ==> next.0 is Reopening && next.1 is OpenFile,
        state is Reopening && event is Done ==> next.0 is Finished && next.1 is Opened,
{
}

/// A failure ends the opening of a file with that failure, after a rollback copy that this
/// attempt made is removed where the upgrade failed because another process holds the file. A
/// file that is still older once it was upgraded is reported as such.
pub proof fn law_file_opening_fails(
    state: FileState,
    event: FileEvent,
    config: &Config,
    next: (FileState, FileAction),
    e: PulseDBError,
)
    requires
        call_ensures(file_step, (state, event, config), next),
    ensures
        event == FileEvent::Failed(e) ==> next.0 is Finished && {
            let stale = state == (FileState::Upgrading { backup: BackupOutcome::Created }) && e
                == PulseDBError::Storage(StorageError::DatabaseLocked);
            &&& stale ==> next.1 == FileAction::DiscardBackup(e)
            &&& !stale ==> next.1 == FileAction::Fail(e)
        },
        state is Reopening && event is UpgradeRequired ==> next.0 is Finished && next.1
            == FileAction::Fail(
            PulseDBError::Storage(
                StorageError::SubstrateUpgradeRequired {
                    found: event->found,
                    current: crate::storage::schema::CURRENT_SUBSTRATE_FORMAT,
                },
            ),
        ),
{
}

// ---------------------------------------------------------------------------
// An existing store
// ---------------------------------------------------------------------------

/// What an existing store says of itself decides how it is opened: a newer one is refused, and
/// so is one that does not fit; one that may not be written to opens as it is where it is
/// current, and is refused otherwise. One whose experiences are reshaped is copied first, unless
/// that was done. A current one is then written without re-encoding, and any other is measured.
pub proof fn law_store_is_read(
    copied: bool,
    metadata: DatabaseMetadata,
    format: SubstrateFormat,
    now: Timestamp,
    state: StoreState,
    event: StoreEvent,
    config: &Config,
    windows: bool,
    next: (StoreState, StoreAction),
    stored: &DatabaseMetadata,
    fits: Result<(), PulseDBError>,
    start: (StoreState, StoreAction),
)
    requires
        state == (StoreState::Reading { copied }),
        event == (StoreEvent::Metadata { metadata, format, now }),
        *stored == metadata,
        call_ensures(open_existing, (), start),
        call_ensures(RedbStorage::validate_existing_metadata, (stored, config), fits),
        call_ensures(store_step, (state, event, config, windows), next),
    ensures
        start.0 == (StoreState::Reading { copied: false }) && start.1 is ReadMetadata,
        format is Newer ==> next.0 is Finished && next.1 is Fail && next.1->Fail_0
            == PulseDBError::Storage(
            StorageError::SubstrateFormatTooNew {
                found: format->Newer_0,
                current: crate::storage::schema::CURRENT_SUBSTRATE_FORMAT,
            },
        ),
        !(format is Newer) && fits is Err ==> next.0 is Finished && next.1 == StoreAction::Fail(
            fits->Err_0,
        ),
        !(format is Newer) && fits is Ok ==> {
            let old_store = metadata.schema_version < crate::storage::schema::SCHEMA_VERSION
                || !(format is Current);
            &&& config.read_only && old_store ==> next.0 is Finished && next.1
                == StoreAction::Fail(PulseDBError::ReadOnly)
            &&& config.read_only && !old_store ==> next.0 is Finished && next.1 == (
            StoreAction::Identify { metadata, created: false })
            &&& !config.read_only && old_store && !copied ==> next.0 is Copying && next.1
                is CloseAndCopy
            &&& !config.read_only && (copied || !old_store) && format is Current ==> next.1 is Write
                && !next.1->Write_write_marker && next.1->Write_metadata.last_opened_at == now
                && next.0 is Writing && next.0->Writing_metadata == next.1->Write_metadata
                && next.1->Write_schema.reshape_experiences == old_store
                && next.1->Write_schema.reshape_log == (metadata.schema_version == 1)
                && next.1->Write_metadata.created_at == metadata.created_at
                && next.1->Write_metadata.embedding_dimension == metadata.embedding_dimension
                && next.1->Write_metadata.schema_version == crate::storage::schema::SCHEMA_VERSION
            &&& !config.read_only && copied && !(format is Current) ==> next.1 is Measure && next.0
                is Measuring && next.0->Measuring_metadata == metadata
                && next.0->Measuring_schema.reshape_experiences
                && next.0->Measuring_schema.reshape_log == (metadata.schema_version == 1)
        },
{
}

/// A copy that is complete, or was there already, lets a migration go on: the file is opened and
/// read again. An incomplete one is removed before its failure is reported.
pub proof fn law_store_is_copied(
    report: ClaimReport,
    windows: bool,
    outcome: ClaimOutcome,
    state: StoreState,
    event: StoreEvent,
    config: &Config,
    next: (StoreState, StoreAction),
)
    requires
        call_ensures(judge_pre_v3_backup, (report, windows), outcome),
        call_ensures(store_step, (state, event, config, windows), next),
    ensures
        report is Copied || report is AlreadyThere <==> outcome is Proceed,
        report is CopyFailed <==> outcome is RemoveThenFail,
        report is ClaimFailed <==> outcome is Fail,
        state is Copying && event == StoreEvent::Copied(report) ==> {
            &&& outcome is Proceed ==> next.0 is Reopening && next.1 is Reopen
            &&& outcome is RemoveThenFail ==> next.0 is Finished && next.1
                == StoreAction::RemoveCopy(outcome->RemoveThenFail_0)
            &&& outcome is Fail ==> next.0 is Finished && next.1 == StoreAction::Fail(
                outcome->Fail_0,
            )
        },
        state is Reopening && event is Done ==> next.0 == (StoreState::Reading { copied: true })
            && next.1 is ReadMetadata,
{
}

/// A store that was measured is written, with every record re-encoded and the marker, exactly
/// where there is headroom without a rollback copy; the metadata has the moment of writing. A
/// store that was written or created is identified with the metadata it was given, and a failure
/// ends the opening with that failure.
pub proof fn law_store_is_written(
    state: StoreState,
    event: StoreEvent,
    config: &Config,
    windows: bool,
    next: (StoreState, StoreAction),
    store_size: u64,
    copy_through: u64,
    available: u64,
    now: Timestamp,
    headroom: Result<(), PulseDBError>,
    e: PulseDBError,
)
    requires
        call_ensures(store_step, (state, event, config, windows), next),
        call_ensures(
            RedbStorage::resolve_migration_headroom,
            (store_size, copy_through, available, config, false),
            headroom,
        ),
    ensures
        state is Measuring && event == (StoreEvent::Measured {
            store_size,
            copy_through,
            available,
            now,
        }) ==> {
            let metadata = state->Measuring_metadata;
            &&& headroom is Err ==> next.0 is Finished && next.1 == StoreAction::Fail(
                headroom->Err_0,
            )
            &&& headroom is Ok ==> next.0 is Writing && next.1 is Write
                && next.1->Write_write_marker && next.1->Write_schema == state->Measuring_schema
                && next.0->Writing_metadata == next.1->Write_metadata
                && next.1->Write_metadata.last_opened_at == now
                && next.1->Write_metadata.created_at == metadata.created_at
                && next.1->Write_metadata.embedding_dimension == metadata.embedding_dimension
        },
        state is Writing && event is Done ==> next.0 is Finished && next.1 == (
        StoreAction::Identify { metadata: state->Writing_metadata, created: false }),
        state is Initializing && event is Done ==> next.0 is Finished && next.1 == (
        StoreAction::Identify { metadata: state->Initializing_metadata, created: true }),
        event == StoreEvent::Failed(e) ==> next.0 is Finished && next.1 == StoreAction::Fail(e),
{
}

/// The single transaction of a writable opening does what its migrations do, in order, gives the
/// store an identity where it has none, writes the metadata and, where asked to, the marker.
pub proof fn law_opening_transaction(
    metadata: DatabaseMetadata,
    fresh: Option<InstanceId>,
    log: Plan,
    experiences: Plan,
    records: Plan,
    write_marker: bool,
    plan: Plan,
    s: StoreView,
)
    requires
        call_ensures(
            opening_plan,
            (metadata, fresh, log, experiences, records, write_marker),
            plan,
        ),
    ensures
        ({
            let logged = log.effect(s);
            let identified = if fresh is Some {
                StoreView { instance_id: Some(fresh->Some_0.spec_bytes()), ..logged }
            } else {
                logged
            };
            let migrated = records.effect(experiences.effect(identified));
            plan.effect(s) == (StoreView {
                metadata: Some(metadata),
                marker: if write_marker {
                    Some(
                        seq![0x50u8, 0x53u8, crate::storage::schema::CURRENT_SUBSTRATE_FORMAT],
                    )
                } else {
                    migrated.marker
                },
                ..migrated
            })
        }),
{
    let (identity, marker) = choose|identity: Option<[u8; 16]>, marker: [u8; 3]|
        {
            &&& marker@ == crate::storage::redb::marker_bytes(
                crate::storage::schema::CURRENT_SUBSTRATE_FORMAT,
            )
            &&& identity is Some <==> fresh is Some
            &&& fresh matches Some(id) ==> (identity matches Some(raw) && raw@ == id.spec_bytes())
            &&& plan.ops@ == #[trigger] crate::storage::open::opening_ops(
                metadata,
                identity,
                log.ops@,
                experiences.ops@,
                records.ops@,
                write_marker,
                marker,
            )
        };
    let middle: Seq<StoreOp> = match identity {
        Some(id) => seq![StoreOp::SetInstanceId(id)],
        None => Seq::empty(),
    };
    let tail: Seq<StoreOp> = if write_marker {
        seq![StoreOp::SetMarker(marker)]
    } else {
        Seq::empty()
    };
    let last = seq![StoreOp::PutMetadata(metadata)];
    let a = log.ops@;
    let b = a + middle;
    let c = b + experiences.ops@;
    let d = c + records.ops@;
    let e = d + last;
    assert(plan.ops@ == e + tail);
    lemma_effects_in_turn(s, a, middle);
    lemma_effects_in_turn(s, b, experiences.ops@);
    lemma_effects_in_turn(s, c, records.ops@);
    lemma_effects_in_turn(s, d, last);
    lemma_effects_in_turn(s, e, tail);
    reveal_with_fuel(apply_all, 2);
    assert(middle.len() > 0 ==> middle.drop_last() =~= Seq::empty());
    assert(tail.len() > 0 ==> tail.drop_last() =~= Seq::empty());
    assert(last.drop_last() =~= Seq::empty());
}

proof fn lemma_effects_in_turn(s: StoreView, a: Seq<StoreOp>, b: Seq<StoreOp>)
    ensures
        apply_all(s, a + b) == apply_all(apply_all(s, a), b),
    decreases b.len(),
{
    if b.len() == 0 {
        assert(a + b =~= a);
    } else {
        lemma_effects_in_turn(s, a, b.drop_last());
        assert((a + b).drop_last() =~= a + b.drop_last());
        assert((a + b).last() == b.last());
    }
}

// ---------------------------------------------------------------------------
// Migrated rows
// ---------------------------------------------------------------------------

proof fn lemma_put_all<K, V>(table: Map<K, V>, rows: Seq<(K, V)>, i: int, k: K)
    ensures
        0 <= i < rows.len() && (forall|j: int| i < j < rows.len() ==> (#[trigger] rows[j]).0
            != rows[i].0) ==> put_all(table, rows).contains_key(rows[i].0) && put_all(
            table,
            rows,
        )[rows[i].0] == rows[i].1,
        (forall|j: int| 0 <= j < rows.len() ==> (#[trigger] rows[j]).0 != k) ==> put_all(
            table,
            rows,
        ).contains_key(k) == table.contains_key(k) && put_all(table, rows)[k] == table[k],
    decreases rows.len(),
{
    if rows.len() > 0 {
        let init = rows.drop_last();
        lemma_put_all(table, init, i, k);
        assert(forall|j: int| 0 <= j < init.len() ==> (#[trigger] init[j]) == rows[j]);
        assert(rows.last() == rows[rows.len() - 1]);
    }
}

/// Migrating the experience table leaves under each key the record of its own row in current
/// form, with its importance, confidence, content, embedding, kind, domain, related files,
/// sources, time and archived flag; it changes no other key and no other table.
pub proof fn law_migrated_experiences(
    rows: Vec<(ExperienceId, ExperienceV2)>,
    plan: Plan,
    s: StoreView,
    i: int,
    other: ExperienceId,
)
    requires
        call_ensures(migrate_experiences_v2_to_v3, (rows,), plan),
        forall|a: int, b: int| 0 <= a < b < rows@.len() ==> rows@[a].0 != rows@[b].0,
    ensures
        ({
            let after = plan.effect(s);
            &&& after == (StoreView { experiences: after.experiences, ..s })
            &&& 0 <= i < rows@.len() ==> {
                let v2 = rows@[i].1;
                let v3 = after.experiences[rows@[i].0];
                &&& after.experiences.contains_key(rows@[i].0)
                &&& v3.id == v2.id
                &&& v3.collective_id == v2.collective_id
                &&& v3.content == v2.content
                &&& v3.embedding == v2.embedding
                &&& v3.experience_type == v2.experience_type
                &&& v3.importance == v2.importance
                &&& v3.confidence == v2.confidence
                &&& v3.domain == v2.domain
                &&& v3.related_files == v2.related_files
                &&& v3.source_agent == v2.source_agent
                &&& v3.source_task == v2.source_task
                &&& v3.timestamp == v2.timestamp
                &&& v3.archived == v2.archived
                &&& v3.last_reinforced == v2.timestamp
                &&& v3.tags@.len() == 0
            }
            &&& (forall|j: int| 0 <= j < rows@.len() ==> (#[trigger] rows@[j]).0 != other) ==> {
                &&& after.experiences.contains_key(other) == s.experiences.contains_key(other)
                &&& after.experiences[other] == s.experiences[other]
            }
        }),
{
    let values = choose|values: Seq<(ExperienceId, Experience)>|
        #![trigger crate::storage::open::reshaped_rows(rows@, values)]
        crate::storage::open::reshaped_rows(rows@, values) && forall|t: StoreView| #[trigger]
            plan.effect(t) == (StoreView {
                experiences: put_all(t.experiences, values),
                ..t
            });
    assert(plan.effect(s) == (StoreView { experiences: put_all(s.experiences, values), ..s }));
    lemma_put_all(s.experiences, values, i, other);
    if 0 <= i < rows@.len() {
        assert(values[i].0 == rows@[i].0 && is_reshaped(rows@[i].1, values[i].1));
        assert forall|j: int| i < j < values.len() implies (#[trigger] values[j]).0
            != values[i].0 by {
            assert(values[j].0 == rows@[j].0);
        }
    }
    if forall|j: int| 0 <= j < rows@.len() ==> (#[trigger] rows@[j]).0 != other {
        assert forall|j: int| 0 <= j < values.len() implies (#[trigger] values[j]).0 != other by {
            assert(values[j].0 == rows@[j].0);
        }
    }
}

/// A row that decodes in its current form is kept as it is. Otherwise an experience of the
/// second schema, an event of the first and a decay configuration of the first form are brought
/// into current form with what they carry; a row that decodes in neither form fails.
pub proof fn law_reencoded_rows(
    current: Result<Experience, StorageError>,
    second: Result<ExperienceV2, StorageError>,
    experience: Result<Experience, StorageError>,
    current_event: Result<WatchEventRecord, StorageError>,
    first_event: Result<WatchEventRecordV1, StorageError>,
    event: Result<WatchEventRecord, StorageError>,
    current_decay: Result<StoredDecayConfig, StorageError>,
    first_decay: Result<StoredDecayConfigV1, StorageError>,
    decay: Result<StoredDecayConfig, StorageError>,
)
    requires
        call_ensures(reencode_experience_row, (current, second), experience),
        call_ensures(reencode_event_row, (current_event, first_event), event),
        call_ensures(reencode_decay_row, (current_decay, first_decay), decay),
    ensures
        current is Ok ==> experience is Ok && experience->Ok_0 == current->Ok_0,
        current is Err && second is Ok ==> experience is Ok && {
            let v2 = second->Ok_0;
            let v3 = experience->Ok_0;
            &&& v3.id == v2.id
            &&& v3.collective_id == v2.collective_id
            &&& v3.content == v2.content
            &&& v3.embedding == v2.embedding
            &&& v3.experience_type == v2.experience_type
            &&& v3.importance == v2.importance
            &&& v3.confidence == v2.confidence
            &&& v3.domain == v2.domain
            &&& v3.related_files == v2.related_files
            &&& v3.source_agent == v2.source_agent
            &&& v3.source_task == v2.source_task
            &&& v3.timestamp == v2.timestamp
            &&& v3.archived == v2.archived
        },
        current is Err && second is Err ==> experience is Err,
        current_event is Ok ==> event is Ok && event->Ok_0 == current_event->Ok_0,
        current_event is Err && first_event is Ok ==> event is Ok && {
            let v1 = first_event->Ok_0;
            let v2 = event->Ok_0;
            &&& v2.entity_id == v1.experience_id
            &&& v2.collective_id == v1.collective_id
            &&& v2.event_type == v1.event_type
            &&& v2.timestamp_ms == v1.timestamp_ms
            &&& v2.entity_type == EntityTypeTag::Experience
        },
        current_event is Err && first_event is Err ==> event is Err,
        current_decay is Ok ==> decay is Ok && decay->Ok_0 == current_decay->Ok_0,
        current_decay is Err && first_decay is Ok ==> decay is Ok && {
            let v1 = first_decay->Ok_0;
            let v2 = decay->Ok_0;
            &&& v2.half_life_secs == v1.half_life_secs
            &&& v2.half_life_nanos == 0
            &&& v2.freq_weight == v1.freq_weight
            &&& v2.floor == v1.floor
            &&& v2.auto_archive_below_floor == v1.auto_archive_below_floor
            &&& v2.default_recall_weights == v1.default_recall_weights
        },
        current_decay is Err && first_decay is Err ==> decay is Err,
{
}

/// A record is what the earlier codec decodes, else what the current one does, else a failure;
/// a table is collected whole and in order, or not at all.
pub proof fn law_decoded_records<T>(
    what: &str,
    legacy: Result<T, String>,
    current: Result<T, String>,
    value: Result<T, StorageError>,
    rows: Vec<Result<T, StorageError>>,
    values: Result<Vec<T>, StorageError>,
    i: int,
)
    requires
        call_ensures(decode_blob_legacy_or_postcard::<T>, (what, legacy, current), value),
        call_ensures(collect_rows::<T>, (rows,), values),
    ensures
        legacy is Ok ==> value is Ok && value->Ok_0 == legacy->Ok_0,
        legacy is Err && current is Ok ==> value is Ok && value->Ok_0 == current->Ok_0,
        legacy is Err && current is Err ==> value is Err && value->Err_0 is Serialization,
        values is Ok ==> values->Ok_0@.len() == rows@.len(),
        values is Ok && 0 <= i < rows@.len() ==> rows@[i] is Ok && values->Ok_0@[i]
            == rows@[i]->Ok_0,
        0 <= i < rows@.len() && rows@[i] is Err ==> values is Err,
{
    if 0 <= i < rows@.len() {
        let row = rows@[i];
    }
}

/// Re-encoding fails where any record does not decode, or where sync cursors are there that this
/// build does not know. Otherwise, of a store whose own rows they are, every record is written
/// back under its own key, and nothing else is touched.
pub proof fn law_reencoded_store(
    rows: BlobRows,
    r: Result<Plan, PulseDBError>,
    s: StoreView,
    i: int,
)
    requires
        crate::storage::reencode::rows_of_store(s, rows),
        call_ensures(reencode_serde_blobs_to_postcard, (rows,), r),
    ensures
        r is Ok && 0 <= i < rows.collectives@.len() ==> rows.collectives@[i] is Ok && {
            let x = rows.collectives@[i]->Ok_0;
            r->Ok_0.effect(s).collectives[x.0] == x.1
        },
        r is Ok && 0 <= i < rows.decay_configs@.len() ==> rows.decay_configs@[i] is Ok && {
            let x = rows.decay_configs@[i]->Ok_0;
            r->Ok_0.effect(s).decay_configs[x.0] == x.1
        },
        r is Ok && 0 <= i < rows.experiences@.len() ==> rows.experiences@[i] is Ok && {
            let x = rows.experiences@[i]->Ok_0;
            r->Ok_0.effect(s).experiences[x.0] == x.1
        },
        r is Ok && 0 <= i < rows.relations@.len() ==> rows.relations@[i] is Ok && {
            let x = rows.relations@[i]->Ok_0;
            r->Ok_0.effect(s).relations[x.0] == x.1
        },
        r is Ok && 0 <= i < rows.insights@.len() ==> rows.insights@[i] is Ok && {
            let x = rows.insights@[i]->Ok_0;
            r->Ok_0.effect(s).insights[x.0] == x.1
        },
        r is Ok && 0 <= i < rows.activities@.len() ==> rows.activities@[i] is Ok && {
            let x = rows.activities@[i]->Ok_0;
            r->Ok_0.effect(s).activities[x.0@] == x.1
        },
        r is Ok && 0 <= i < rows.events@.len() ==> rows.events@[i] is Ok && {
            let x = rows.events@[i]->Ok_0;
            r->Ok_0.effect(s).events[x.0@] == x.1
        },
        r is Ok && rows.metadata is Some ==> rows.metadata->Some_0 is Ok && r->Ok_0.effect(
            s,
        ).metadata == Some(rows.metadata->Some_0->Ok_0),
        r is Ok ==> (rows.cursors matches CursorRows::Opaque { present } ==> !present),
        r is Ok ==> (rows.cursors matches CursorRows::Decoded(c) ==> (0 <= i < c@.len() ==> c@[i]
            is Ok && r->Ok_0.effect(s).cursors[c@[i]->Ok_0.0] == c@[i]->Ok_0.1)),
        r is Ok ==> {
            let after = r->Ok_0.effect(s);
            &&& after.marker == s.marker
            &&& after.instance_id == s.instance_id
            &&& after.wal_sequence == s.wal_sequence
            &&& after.provider_identity == s.provider_identity
            &&& after.provider_stamped_at == s.provider_stamped_at
            &&& after.embeddings == s.embeddings
            &&& after.by_collective == s.by_collective
            &&& after.by_type == s.by_type
            &&& after.by_source == s.by_source
            &&& after.by_target == s.by_target
            &&& after.insights_by_collective == s.insights_by_collective
        },
{
    assert(r is Ok <==> crate::storage::reencode::reencodable(rows));
    if r is Ok {
        let plan = r->Ok_0;
        assert(plan.effect(s) == crate::storage::reencode::reencoded(s, rows));
        crate::storage::reencode::law_reencode_keeps_keys(s, rows);
        if 0 <= i < rows.collectives@.len() {
            assert(rows.collectives@[i] is Ok);
            assert(decoded(rows.collectives@)[i] == rows.collectives@[i]->Ok_0);
        }
        if 0 <= i < rows.decay_configs@.len() {
            assert(rows.decay_configs@[i] is Ok);
            assert(decoded(rows.decay_configs@)[i] == rows.decay_configs@[i]->Ok_0);
        }
        if 0 <= i < rows.experiences@.len() {
            assert(rows.experiences@[i] is Ok);
            assert(decoded(rows.experiences@)[i] == rows.experiences@[i]->Ok_0);
        }
        if 0 <= i < rows.relations@.len() {
            assert(rows.relations@[i] is Ok);
            assert(decoded(rows.relations@)[i] == rows.relations@[i]->Ok_0);
        }
        if 0 <= i < rows.insights@.len() {
            assert(rows.insights@[i] is Ok);
            assert(decoded(rows.insights@)[i] == rows.insights@[i]->Ok_0);
        }
        if 0 <= i < rows.activities@.len() {
            let x = rows.activities@[i]->Ok_0;
            assert(rows.activities@[i] is Ok);
            assert(crate::storage::reencode::activity_rows(decoded(rows.activities@))[i] == (
                x.0@,
                x.1,
            ));
        }
        if 0 <= i < rows.events@.len() {
            let x = rows.events@[i]->Ok_0;
            assert(rows.events@[i] is Ok);
            assert(crate::storage::reencode::event_rows(decoded(rows.events@))[i] == (x.0@, x.1));
        }
        match rows.cursors {
            CursorRows::Decoded(c) => {
                if 0 <= i < c@.len() {
                    assert(c@[i] is Ok);
                    assert(decoded(c@)[i] == c@[i]->Ok_0);
                }
            },
            _ => {},
        }
    }
}

/// The tables that hold serialized records are those of metadata, collectives, decay
/// configurations, experiences, relations, insights, activities, events and cursors; embeddings
/// and the indexes hold raw bytes.
pub proof fn law_serialized_tables(table: Table, yes: bool)
    requires
        call_ensures(Table::is_serde_blob, (table,), yes),
    ensures
        yes <==> !(table is Embeddings || table is ExperiencesByCollective
            || table is ExperiencesByType || table is RelationsBySource
            || table is RelationsByTarget || table is InsightsByCollective),
{
}

// ---------------------------------------------------------------------------
// Rollback copies
// ---------------------------------------------------------------------------

/// A copy is made in order: unless its name is taken, the staging name is cleared, the staging
/// file created, the database opened and copied chunk by chunk to its end, then made durable,
/// renamed into place and its directory made durable.
pub proof fn law_copy_is_made(
    state: BackupState,
    event: BackupEvent,
    windows: bool,
    next: (BackupState, BackupAction),
    start: (BackupState, BackupAction),
)
    requires
        call_ensures(backup_once, (), start),
        call_ensures(backup_step, (state, event, windows), next),
    ensures
        start.0 is Checking && start.1 is Check,
        state is Checking && event == BackupEvent::Exists(true) ==> next.0 is Finished && next.1
            == BackupAction::Finish(BackupOutcome::Preserved),
        state is Checking && event == BackupEvent::Exists(false) ==> next.0 is Clearing && next.1
            is RemoveTemp,
        state is Clearing ==> next.0 is Creating && next.1 is CreateTemp,
        state is Creating && event is Done ==> next.0 is Opening && next.1 is OpenSource,
        state is Opening && event is Done ==> next.0 is Reading && next.1 is ReadChunk,
        state is Reading && event is Done ==> next.0 is Writing && next.1 is WriteChunk,
        state is Writing && event is Done ==> next.0 is Reading && next.1 is ReadChunk,
        state is Reading && event is EndOfFile ==> next.0 is Syncing && next.1 is SyncTemp,
        state is Syncing && event is Done ==> next.0 is Publishing && next.1 is Publish,
        state is Publishing && event is Done ==> next.0 is SyncingDirectory && next.1
            is SyncDirectory,
        state is SyncingDirectory ==> next.0 is Finished && next.1 == BackupAction::Finish(
            BackupOutcome::Created,
        ),
{
}

/// A failure before the staging file is there is reported at once. A later one removes the
/// staging file first and is then reported: one of reading the database as the lock failure where
/// it means that another process holds the file, any other as it is.
pub proof fn law_copy_fails(
    state: BackupState,
    event: BackupEvent,
    windows: bool,
    next: (BackupState, BackupAction),
    fault: IoFault,
    on_source: bool,
    locked: bool,
    reported: PulseDBError,
)
    requires
        call_ensures(backup_step, (state, event, windows), next),
        call_ensures(is_lock_contention_io_error, (fault, windows), locked),
        call_ensures(migration_io_error, (fault, windows), reported),
    ensures
        locked <==> windows && (fault.os_code == Some(32i32) || fault.os_code == Some(33i32)),
        locked ==> reported == PulseDBError::Storage(StorageError::DatabaseLocked),
        !locked ==> reported == PulseDBError::Io(fault),
        event == BackupEvent::Failed(fault) ==> {
            &&& state is Checking || state is Creating ==> next.0 is Finished && next.1
                == BackupAction::Fail(PulseDBError::Io(fault))
            &&& state is Opening || state is Reading ==> next.0 == (BackupState::Abandoning {
                fault,
                on_source: true,
            }) && next.1 is RemoveTemp
            &&& state is Writing || state is Syncing || state is Publishing ==> next.0 == (
            BackupState::Abandoning { fault, on_source: false }) && next.1 is RemoveTemp
        },
        state == (BackupState::Abandoning { fault, on_source }) ==> next.0 is Finished && {
            &&& on_source ==> next.1 == BackupAction::Fail(reported)
            &&& !on_source ==> next.1 == BackupAction::Fail(PulseDBError::Io(fault))
        },
{
}

/// A version is current, older or newer as it compares with this build's; what it is classified
/// as stands for that version, and no marker for version zero.
pub proof fn law_versions(found: u8, format: SubstrateFormat, version: u8)
    requires
        call_ensures(SubstrateFormat::classify, (found,), format),
        call_ensures(SubstrateFormat::version, (format,), version),
    ensures
        version == found,
        format is Current <==> found == crate::storage::schema::CURRENT_SUBSTRATE_FORMAT,
        format is Older <==> found < crate::storage::schema::CURRENT_SUBSTRATE_FORMAT,
        format is Newer <==> found > crate::storage::schema::CURRENT_SUBSTRATE_FORMAT,
        !(format is Absent),
{
}

/// The names of the files beside a store open with its own name, or with that of a store whose
/// path has none, and each ends in its own way.
pub proof fn law_sidecar_names(
    file_name: Option<&str>,
    pre_v3: String,
    pre_substrate: String,
    path: &str,
    staged: String,
    lock: String,
)
    requires
        call_ensures(pre_v3_backup_path, (file_name,), pre_v3),
        call_ensures(pre_substrate_backup_path, (file_name,), pre_substrate),
        call_ensures(backup_temp_path, (path,), staged),
        call_ensures(migration_lock_path, (path,), lock),
    ensures
        ({
            let name = match file_name {
                Some(name) => name@,
                None => "pulsedb.redb"@,
            };
            &&& pre_v3@ == name + ".pre-v3.bak"@
            &&& pre_substrate@ == name + ".pre-substrate.bak"@
        }),
        staged@ == path@ + ".tmp"@,
        lock@ == path@ + ".migrate.lock"@,
{
}

} // verus!
