//! Opening a store whose file is open: the order in which an existing store is
//! checked, copied, migrated and written, and the creation of a missing one.

use vstd::prelude::*;

use crate::config::Config;
use crate::error::PulseDBError;
use crate::storage::open::{
    judge_pre_v3_backup, plan_schema, plan_substrate, touch_metadata, ClaimOutcome, ClaimReport,
    SchemaPlan,
};
use crate::storage::redb::{RedbStorage, SubstrateFormat};
use crate::storage::schema::{DatabaseMetadata, CURRENT_SUBSTRATE_FORMAT, SCHEMA_VERSION};
use crate::storage::store::{StoreOp, StoreView};
use crate::types::Timestamp;

verus! {

/// Where opening stands: which operation is under way.
#[derive(Clone, Copy, Debug, PartialEq, Eq, Structural)]
pub enum StoreState {
    /// Reading the marker and the metadata.
    Reading {
        /// Whether the schema-migration copy is in place.
        copied: bool,
    },
    /// Closing the file and making the schema-migration copy.
    Copying,
    /// Opening the file again.
    Reopening,
    /// Measuring the store and the free disk.
    Measuring {
        /// The store's metadata.
        metadata: DatabaseMetadata,
        /// The schema migrations it needs.
        schema: SchemaPlan,
        /// Whether the schema-migration copy is in place.
        copied: bool,
    },
    /// Running the single write transaction.
    Writing {
        /// The metadata it leaves behind.
        metadata: DatabaseMetadata,
        /// The schema migrations it performs.
        schema: SchemaPlan,
        /// Whether it re-encodes every record and writes the marker.
        write_marker: bool,
    },
    /// Creating the store.
    Initializing {
        /// Its metadata.
        metadata: DatabaseMetadata,
    },
    /// Nothing is under way.
    Finished,
}

/// What the operation under way reported.
#[derive(Debug)]
pub enum StoreEvent {
    /// The operation succeeded.
    Done,
    /// The metadata, decoded as the marker says, what the marker says, and the time.
    Metadata {
        /// The metadata.
        metadata: DatabaseMetadata,
        /// What the marker says.
        format: SubstrateFormat,
        /// The current time.
        now: Timestamp,
    },
    /// What became of the schema-migration copy.
    Copied(ClaimReport),
    /// Sizes, and the time.
    Measured {
        /// Size of the store file.
        store_size: u64,
        /// Bytes a re-encode copies through untouched.
        copy_through: u64,
        /// Free disk.
        available: u64,
        /// The current time.
        now: Timestamp,
    },
    /// The operation failed.
    Failed(PulseDBError),
}

/// The operation to perform next, or how opening ended.
#[derive(Debug)]
pub enum StoreAction {
    /// Read the marker, then read and decode the metadata.
    ReadMetadata,
    /// Close the file, claim the name of the schema-migration copy and fill it.
    CloseAndCopy,
    /// Remove the incomplete copy, then report the failure.
    RemoveCopy(PulseDBError),
    /// Open the file again.
    Reopen,
    /// Measure the store and the free disk.
    Measure,
    /// Run the single write transaction.
    Write {
        /// The metadata it leaves behind.
        metadata: DatabaseMetadata,
        /// The schema migrations it performs.
        schema: SchemaPlan,
        /// Whether it re-encodes every record and writes the marker.
        write_marker: bool,
    },
    /// Create the store.
    Initialize {
        /// Its metadata.
        metadata: DatabaseMetadata,
    },
    /// Read back the identity: the store is open.
    Identify {
        /// The store's metadata.
        metadata: DatabaseMetadata,
        /// Whether it was just created.
        created: bool,
    },
    /// Opening failed.
    Fail(PulseDBError),
}

/// The operation under way in `state`.
pub open spec fn under_way(state: StoreState) -> StoreAction {
    match state {
        StoreState::Reading { .. } => StoreAction::ReadMetadata,
        StoreState::Copying => StoreAction::CloseAndCopy,
        StoreState::Reopening => StoreAction::Reopen,
        StoreState::Measuring { .. } => StoreAction::Measure,
        StoreState::Writing { metadata, schema, write_marker } => StoreAction::Write {
            metadata,
            schema,
            write_marker,
        },
        StoreState::Initializing { metadata } => StoreAction::Initialize { metadata },
        StoreState::Finished => StoreAction::ReadMetadata,
    }
}

/// Whether an action writes to the disk.
pub open spec fn store_writes(action: StoreAction) -> bool {
    action is CloseAndCopy || action is RemoveCopy || action is Write || action is Initialize
}

/// What follows the marker and the metadata: a newer store is refused, then one that
/// does not fit, then one that would have to be migrated but may not be written to. A
/// store whose experiences are reshaped is copied first. One in the current format needs
/// no measuring.
pub open spec fn after_metadata(
    metadata: DatabaseMetadata,
    format: SubstrateFormat,
    now: Timestamp,
    copied: bool,
    config: Config,
) -> (StoreState, StoreAction) {
    let schema = crate::storage::open::schema_plan(metadata.schema_version, format);
    if let SubstrateFormat::Newer(found) = format {
        (StoreState::Finished, StoreAction::Fail(crate::storage::open::too_new(found)))
    } else if !crate::storage::redb::metadata_fits(metadata, config) {
        (
            StoreState::Finished,
            StoreAction::Fail(crate::storage::redb::metadata_fault(metadata, config)),
        )
    } else if config.read_only {
        if schema.reshape_experiences || format != SubstrateFormat::Current {
            (StoreState::Finished, StoreAction::Fail(PulseDBError::ReadOnly))
        } else {
            (StoreState::Finished, StoreAction::Identify { metadata, created: false })
        }
    } else if schema.reshape_experiences && !copied {
        (StoreState::Copying, StoreAction::CloseAndCopy)
    } else if format == SubstrateFormat::Current {
        start_writing(metadata, schema, false, now)
    } else {
        (StoreState::Measuring { metadata, schema, copied }, StoreAction::Measure)
    }
}

/// What follows the report on the schema-migration copy.
pub open spec fn after_copy(report: ClaimReport, windows: bool) -> (StoreState, StoreAction) {
    match report {
        ClaimReport::Copied => (StoreState::Reopening, StoreAction::Reopen),
        ClaimReport::AlreadyThere => (StoreState::Reopening, StoreAction::Reopen),
        ClaimReport::CopyFailed(f) => (
            StoreState::Finished,
            StoreAction::RemoveCopy(crate::storage::backup::source_error(f, windows)),
        ),
        ClaimReport::ClaimFailed(f) => (
            StoreState::Finished,
            StoreAction::Fail(crate::storage::backup::source_error(f, windows)),
        ),
    }
}

/// The write transaction at `now`.
pub open spec fn start_writing(
    metadata: DatabaseMetadata,
    schema: SchemaPlan,
    write_marker: bool,
    now: Timestamp,
) -> (StoreState, StoreAction) {
    let touched = crate::storage::open::opened_metadata(metadata, schema, now);
    (
        StoreState::Writing { metadata: touched, schema, write_marker },
        StoreAction::Write { metadata: touched, schema, write_marker },
    )
}

/// Whether a re-encode without a rollback copy has the headroom it needs.
pub open spec fn has_headroom(
    store_size: u64,
    copy_through: u64,
    available: u64,
    config: Config,
) -> bool {
    available >= crate::storage::redb::required_disk(store_size, false)
        && crate::storage::redb::single_txn_safe(store_size, copy_through, config)
}

/// What follows when the operation under way in `state` reports `event`.
pub open spec fn store_next(state: StoreState, event: StoreEvent, config: Config, windows: bool) -> (
    StoreState,
    StoreAction,
) {
    match (state, event) {
        (_, StoreEvent::Failed(e)) => (StoreState::Finished, StoreAction::Fail(e)),
        (
            StoreState::Reading { copied },
            StoreEvent::Metadata { metadata, format, now },
        ) => after_metadata(metadata, format, now, copied, config),
        (StoreState::Copying, StoreEvent::Copied(report)) => after_copy(report, windows),
        (StoreState::Reopening, StoreEvent::Done) => (
            StoreState::Reading { copied: true },
            StoreAction::ReadMetadata,
        ),
        (
            StoreState::Measuring { metadata, schema, .. },
            StoreEvent::Measured { store_size, copy_through, available, now },
        ) => if has_headroom(store_size, copy_through, available, config) {
            start_writing(metadata, schema, true, now)
        } else {
            (
                StoreState::Finished,
                StoreAction::Fail(
                    crate::storage::open::headroom_fault(
                        store_size,
                        copy_through,
                        available,
                        false,
                    ),
                ),
            )
        },
        (StoreState::Writing { metadata, .. }, StoreEvent::Done) => (
            StoreState::Finished,
            StoreAction::Identify { metadata, created: false },
        ),
        (StoreState::Initializing { metadata }, StoreEvent::Done) => (
            StoreState::Finished,
            StoreAction::Identify { metadata, created: true },
        ),
        // An event that answers something else: ask again.
        (StoreState::Finished, _) => (
            StoreState::Reading { copied: false },
            StoreAction::ReadMetadata,
        ),
        _ => (state, under_way(state)),
    }
}

/// Begins opening an existing store.
pub fn open_existing() -> (start: (StoreState, StoreAction))
    ensures
        start == (StoreState::Reading { copied: false }, StoreAction::ReadMetadata),
{
    (StoreState::Reading { copied: false }, StoreAction::ReadMetadata)
}

/// Begins creating a store at `now`.
pub fn create_new(config: &Config, now: Timestamp) -> (start: (StoreState, StoreAction))
    ensures
        ({
            let metadata = DatabaseMetadata {
                schema_version: crate::storage::schema::SCHEMA_VERSION,
                embedding_dimension: config.embedding_dimension,
                created_at: now,
                last_opened_at: now,
            };
            start == (StoreState::Initializing { metadata }, StoreAction::Initialize { metadata })
        }),
{
    let metadata = DatabaseMetadata::new_at(config.embedding_dimension, now);
    (StoreState::Initializing { metadata }, StoreAction::Initialize { metadata })
}

/// The operation under way in `state`.
fn current_action(state: StoreState) -> (action: StoreAction)
    ensures
        action == under_way(state),
{
    match state {
        StoreState::Reading { .. } => StoreAction::ReadMetadata,
        StoreState::Copying => StoreAction::CloseAndCopy,
        StoreState::Reopening => StoreAction::Reopen,
        StoreState::Measuring { .. } => StoreAction::Measure,
        StoreState::Writing { metadata, schema, write_marker } => StoreAction::Write {
            metadata,
            schema,
            write_marker,
        },
        StoreState::Initializing { metadata } => StoreAction::Initialize { metadata },
        StoreState::Finished => StoreAction::ReadMetadata,
    }
}

fn step_copy(report: ClaimReport, windows: bool) -> (next: (StoreState, StoreAction))
    ensures
        next == after_copy(report, windows),
{
    match judge_pre_v3_backup(report, windows) {
        ClaimOutcome::Proceed => (StoreState::Reopening, StoreAction::Reopen),
        ClaimOutcome::RemoveThenFail(e) => (StoreState::Finished, StoreAction::RemoveCopy(e)),
        ClaimOutcome::Fail(e) => (StoreState::Finished, StoreAction::Fail(e)),
    }
}

fn step_write(
    metadata: DatabaseMetadata,
    schema: SchemaPlan,
    write_marker: bool,
    now: Timestamp,
) -> (next: (StoreState, StoreAction))
    ensures
        next == start_writing(metadata, schema, write_marker, now),
{
    let touched = touch_metadata(metadata, schema, now);
    (
        StoreState::Writing { metadata: touched, schema, write_marker },
        StoreAction::Write { metadata: touched, schema, write_marker },
    )
}

fn step_metadata(
    metadata: DatabaseMetadata,
    format: SubstrateFormat,
    now: Timestamp,
    copied: bool,
    config: &Config,
) -> (next: (StoreState, StoreAction))
    ensures
        next == after_metadata(metadata, format, now, copied, *config),
{
    let substrate = plan_substrate(format, config);
    if let SubstrateFormat::Newer(_) = format {
        if let Err(e) = substrate {
            return (StoreState::Finished, StoreAction::Fail(e));
        }
    }
    let schema = match plan_schema(&metadata, format, config) {
        Err(e) => {
            return (StoreState::Finished, StoreAction::Fail(e));
        },
        Ok(schema) => schema,
    };
    if schema.reshape_experiences && !copied {
        return (StoreState::Copying, StoreAction::CloseAndCopy);
    }
    match substrate {
        Err(e) => (StoreState::Finished, StoreAction::Fail(e)),
        Ok(false) => {
            if config.read_only {
                return (StoreState::Finished, StoreAction::Identify { metadata, created: false });
            }
            step_write(metadata, schema, false, now)
        },
        Ok(true) => (StoreState::Measuring { metadata, schema, copied }, StoreAction::Measure),
    }
}

/// Advances opening a store.
pub fn store_step(state: StoreState, event: StoreEvent, config: &Config, windows: bool) -> (next: (
    StoreState,
    StoreAction,
))
    ensures
        next == store_next(state, event, *config, windows),
{
    match (state, event) {
        (_, StoreEvent::Failed(e)) => (StoreState::Finished, StoreAction::Fail(e)),
        (
            StoreState::Reading { copied },
            StoreEvent::Metadata { metadata, format, now },
        ) => step_metadata(metadata, format, now, copied, config),
        (StoreState::Copying, StoreEvent::Copied(report)) => step_copy(report, windows),
        (StoreState::Reopening, StoreEvent::Done) => (
            StoreState::Reading { copied: true },
            StoreAction::ReadMetadata,
        ),
        (
            StoreState::Measuring { metadata, schema, .. },
            StoreEvent::Measured { store_size, copy_through, available, now },
        ) => {
            match RedbStorage::resolve_migration_headroom(
                store_size,
                copy_through,
                available,
                config,
                false,
            ) {
                Ok(_) => step_write(metadata, schema, true, now),
                Err(e) => (StoreState::Finished, StoreAction::Fail(e)),
            }
        },
        (StoreState::Writing { metadata, .. }, StoreEvent::Done) => (
            StoreState::Finished,
            StoreAction::Identify { metadata, created: false },
        ),
        (StoreState::Initializing { metadata }, StoreEvent::Done) => (
            StoreState::Finished,
            StoreAction::Identify { metadata, created: true },
        ),
        (StoreState::Finished, _) => (
            StoreState::Reading { copied: false },
            StoreAction::ReadMetadata,
        ),
        (asked, _) => {
            let action = current_action(asked);
            (asked, action)
        },
    }
}

// ---------------------------------------------------------------------------
// What opening promises
// ---------------------------------------------------------------------------

/// The state after `events`, from the start of opening an existing store.
pub open spec fn store_run(events: Seq<StoreEvent>, config: Config, windows: bool) -> StoreState
    decreases events.len(),
{
    if events.len() == 0 {
        StoreState::Reading { copied: false }
    } else {
        store_next(
            store_run(events.drop_last(), config, windows),
            events.last(),
            config,
            windows,
        ).0
    }
}

/// Whether the copy is in place where `schema` reshapes experiences.
pub open spec fn guarded(schema: SchemaPlan, copied: bool) -> bool {
    schema.reshape_experiences ==> copied
}

/// What holds of every state on the way.
pub open spec fn sound_state(state: StoreState, config: Config) -> bool {
    match state {
        StoreState::Reading { copied } => copied ==> !config.read_only,
        StoreState::Copying => !config.read_only,
        StoreState::Reopening => !config.read_only,
        StoreState::Measuring { metadata, schema, copied } => {
            &&& crate::storage::redb::metadata_fits(metadata, config)
            &&& schema == crate::storage::open::schema_plan(
                metadata.schema_version,
                SubstrateFormat::Absent,
            )
            &&& guarded(schema, copied)
            &&& !config.read_only
        },
        StoreState::Writing { metadata, .. } => {
            &&& metadata.schema_version == SCHEMA_VERSION
            &&& metadata.embedding_dimension == config.embedding_dimension
            &&& !config.read_only
        },
        StoreState::Initializing { .. } => false,
        StoreState::Finished => true,
    }
}

proof fn lemma_run_is_sound(events: Seq<StoreEvent>, config: Config, windows: bool)
    ensures
        sound_state(store_run(events, config, windows), config),
    decreases events.len(),
{
    if events.len() > 0 {
        lemma_run_is_sound(events.drop_last(), config, windows);
    }
}

/// A read-only opening of an existing store never writes.
pub proof fn law_read_only_store_never_writes(
    events: Seq<StoreEvent>,
    event: StoreEvent,
    config: Config,
    windows: bool,
)
    requires
        config.read_only,
    ensures
        !store_writes(store_next(store_run(events, config, windows), event, config, windows).1),
{
    lemma_run_is_sound(events, config, windows);
}

/// The write transaction of an existing store begins only where its metadata fits,
/// its marker is not newer than this build, the schema-migration copy is in place
/// for every reshape, and, for a re-encode, the headroom was found sufficient.
pub proof fn law_write_only_when_safe(
    events: Seq<StoreEvent>,
    event: StoreEvent,
    config: Config,
    windows: bool,
)
    ensures
        ({
            let state = store_run(events, config, windows);
            let next = store_next(state, event, config, windows);
            (next.0 is Writing && !(state is Writing)) ==> match state {
                StoreState::Reading { copied } => {
                    &&& event matches StoreEvent::Metadata { metadata, format, .. }
                    &&& crate::storage::redb::metadata_fits(metadata, config)
                    &&& format == SubstrateFormat::Current
                    &&& guarded(next.0->Writing_schema, copied)
                    &&& next.0->write_marker == false
                },
                StoreState::Measuring { metadata, schema, copied } => {
                    &&& crate::storage::redb::metadata_fits(metadata, config)
                    &&& guarded(schema, copied)
                    &&& next.0->Writing_schema == schema
                    &&& event matches StoreEvent::Measured {
                        store_size,
                        copy_through,
                        available,
                        ..
                    }
                    &&& has_headroom(store_size, copy_through, available, config)
                    &&& next.0->write_marker
                },
                _ => false,
            }
        }),
{
    lemma_run_is_sound(events, config, windows);
}

/// A store is measured for a re-encode only where its marker says that it is older.
pub proof fn law_reencode_follows_the_marker(
    state: StoreState,
    event: StoreEvent,
    config: Config,
    windows: bool,
)
    ensures
        ({
            let next = store_next(state, event, config, windows);
            (next.0 is Measuring && !(state is Measuring)) ==> (event matches StoreEvent::Metadata {
                format,
                ..
            } && format.needs_migration() && !config.read_only)
        }),
{
}

/// What a reading of the store `s` reports at `now`.
pub open spec fn reading_of(s: StoreView, now: Timestamp) -> StoreEvent
    recommends
        s.metadata is Some,
        crate::storage::redb::marker_format(s.marker) is Some,
{
    StoreEvent::Metadata {
        metadata: s.metadata->Some_0,
        format: crate::storage::redb::marker_format(s.marker)->Some_0,
        now,
    }
}

/// Whether `s` carries `metadata` and the marker of the current format, as a store does
/// that was just created or whose migration was just committed.
pub open spec fn is_current_store(s: StoreView, metadata: DatabaseMetadata) -> bool {
    &&& s.metadata == Some(metadata)
    &&& s.marker == Some(crate::storage::redb::marker_bytes(CURRENT_SUBSTRATE_FORMAT))
}

/// A read-only opening of a store that fits is settled by its version and its marker:
/// where either is older it is refused as read-only, and where both are current it opens
/// with its metadata as stored.
pub proof fn law_read_only_opening_needs_a_current_store(
    metadata: DatabaseMetadata,
    format: SubstrateFormat,
    now: Timestamp,
    config: Config,
    windows: bool,
)
    requires
        config.read_only,
        crate::storage::redb::metadata_fits(metadata, config),
        !(format is Newer),
    ensures
        store_next(
            StoreState::Reading { copied: false },
            StoreEvent::Metadata { metadata, format, now },
            config,
            windows,
        ) == (
            StoreState::Finished,
            if format.needs_migration() || metadata.schema_version < SCHEMA_VERSION {
                StoreAction::Fail(PulseDBError::ReadOnly)
            } else {
                StoreAction::Identify { metadata, created: false }
            },
        ),
{
}

/// A store of the current version in the current format opens as it is. A read-only opening ends after one
/// reading with the stored metadata and never writes. A writable opening goes straight to
/// its transaction: no copy is made, no experience is reshaped and no record re-encoded.
pub proof fn law_current_store_opens_as_it_is(
    s: StoreView,
    metadata: DatabaseMetadata,
    now: Timestamp,
    config: Config,
    windows: bool,
)
    requires
        is_current_store(s, metadata),
        crate::storage::redb::metadata_fits(metadata, config),
        metadata.schema_version == SCHEMA_VERSION,
    ensures
        ({
            let start = StoreState::Reading { copied: false };
            let next = store_next(start, reading_of(s, now), config, windows);
            &&& !store_writes(under_way(start))
            &&& config.read_only ==> {
                &&& next == (
                    StoreState::Finished,
                    StoreAction::Identify { metadata, created: false },
                )
                &&& !store_writes(next.1)
            }
            &&& !config.read_only ==> {
                &&& next.1 matches StoreAction::Write { schema, write_marker, .. }
                &&& schema == (SchemaPlan { reshape_log: false, reshape_experiences: false })
                &&& !write_marker
            }
        }),
{
    crate::storage::redb::law_marker_round_trip(CURRENT_SUBSTRATE_FORMAT);
}

/// A store opens read-only right after it was created: from the metadata that
/// [`create_new`] chose and the marker that
/// [`initialize_new`](crate::storage::open::initialize_new) wrote, a read-only run ends
/// with that metadata, and none of its actions writes.
pub proof fn law_new_store_opens_read_only(
    s: StoreView,
    identity: Seq<u8>,
    created: Timestamp,
    now: Timestamp,
    config: Config,
    windows: bool,
)
    requires
        config.read_only,
    ensures
        ({
            let metadata = DatabaseMetadata {
                schema_version: SCHEMA_VERSION,
                embedding_dimension: config.embedding_dimension,
                created_at: created,
                last_opened_at: created,
            };
            let fresh = StoreView {
                metadata: Some(metadata),
                instance_id: Some(identity),
                marker: Some(crate::storage::redb::marker_bytes(CURRENT_SUBSTRATE_FORMAT)),
                ..s
            };
            let start = StoreState::Reading { copied: false };
            let next = store_next(start, reading_of(fresh, now), config, windows);
            &&& next.1 == (StoreAction::Identify { metadata, created: false })
            &&& !store_writes(under_way(start))
            &&& !store_writes(next.1)
        }),
{
    crate::storage::redb::law_marker_round_trip(CURRENT_SUBSTRATE_FORMAT);
}

proof fn lemma_marker_stays(s: StoreView, ops: Seq<StoreOp>)
    requires
        crate::storage::open::leaves_marker(ops),
    ensures
        crate::storage::store::apply_all(s, ops).marker == s.marker,
    decreases ops.len(),
{
    if ops.len() > 0 {
        let init = ops.drop_last();
        assert forall|i: int| #![trigger init[i]] 0 <= i < init.len() implies !(
        init[i] is SetMarker) by {
            assert(init[i] == ops[i]);
        }
        lemma_marker_stays(s, init);
        assert(ops.last() == ops[ops.len() - 1]);
    }
}

/// A writable opening leaves a store in the current format behind: its transaction
/// writes the metadata, and the marker unless the store carried it already.
pub proof fn law_write_leaves_a_current_store(
    s: StoreView,
    metadata: DatabaseMetadata,
    identity: Option<[u8; 16]>,
    log: Seq<StoreOp>,
    experiences: Seq<StoreOp>,
    records: Seq<StoreOp>,
    write_marker: bool,
    marker: [u8; 3],
)
    requires
        marker@ == crate::storage::redb::marker_bytes(CURRENT_SUBSTRATE_FORMAT),
        crate::storage::open::leaves_marker(log),
        crate::storage::open::leaves_marker(experiences),
        crate::storage::open::leaves_marker(records),
        write_marker || s.marker == Some(marker@),
    ensures
        is_current_store(
            crate::storage::store::apply_all(
                s,
                crate::storage::open::opening_ops(
                    metadata,
                    identity,
                    log,
                    experiences,
                    records,
                    write_marker,
                    marker,
                ),
            ),
            metadata,
        ),
{
    let ops = crate::storage::open::opening_ops(
        metadata,
        identity,
        log,
        experiences,
        records,
        write_marker,
        marker,
    );
    crate::storage::open::law_marker_written_last(
        metadata,
        identity,
        log,
        experiences,
        records,
        write_marker,
        marker,
    );
    if write_marker {
        let head = ops.drop_last();
        assert(head.last() == StoreOp::PutMetadata(metadata));
        reveal_with_fuel(crate::storage::store::apply_all, 3);
    } else {
        assert(ops.last() == StoreOp::PutMetadata(metadata));
        lemma_marker_stays(s, ops);
    }
}

/// A migrated store needs no second migration: the metadata that a writable opening
/// leaves behind, with the marker of the current format, opens without a copy or a
/// reshape, and read-only without a write.
pub proof fn law_migrated_store_reopens(
    events: Seq<StoreEvent>,
    s: StoreView,
    now: Timestamp,
    config: Config,
    later: Config,
    windows: bool,
)
    requires
        store_run(events, config, windows) is Writing,
        is_current_store(s, store_run(events, config, windows)->Writing_metadata),
        later.embedding_dimension == config.embedding_dimension,
    ensures
        ({
            let metadata = store_run(events, config, windows)->Writing_metadata;
            let next = store_next(
                StoreState::Reading { copied: false },
                reading_of(s, now),
                later,
                windows,
            );
            &&& metadata.schema_version == SCHEMA_VERSION
            &&& later.read_only ==> next.1 == (StoreAction::Identify { metadata, created: false })
            &&& !later.read_only ==> {
                &&& next.1 matches StoreAction::Write { schema, write_marker, .. }
                &&& schema == (SchemaPlan { reshape_log: false, reshape_experiences: false })
                &&& !write_marker
            }
        }),
{
    lemma_run_is_sound(events, config, windows);
    crate::storage::redb::law_marker_round_trip(CURRENT_SUBSTRATE_FORMAT);
}

/// Whether `event` answers the operation under way in `state`.
pub open spec fn answers(state: StoreState, event: StoreEvent) -> bool {
    event is Failed || match state {
        StoreState::Reading { .. } => event is Metadata,
        StoreState::Copying => event is Copied,
        StoreState::Reopening => event is Done,
        StoreState::Measuring { .. } => event is Measured,
        StoreState::Writing { .. } => event is Done,
        StoreState::Initializing { .. } => event is Done,
        StoreState::Finished => false,
    }
}

/// How many operations opening can still take.
pub open spec fn steps_left(state: StoreState) -> nat {
    match state {
        StoreState::Reading { copied: false } => 6,
        StoreState::Copying => 5,
        StoreState::Reopening => 4,
        StoreState::Reading { copied: true } => 3,
        StoreState::Measuring { .. } => 2,
        StoreState::Writing { .. } => 1,
        StoreState::Initializing { .. } => 1,
        StoreState::Finished => 0,
    }
}

/// Opening a store ends: every answered operation brings it closer to its end, and
/// the store is copied at most once.
pub proof fn law_opening_ends(
    state: StoreState,
    event: StoreEvent,
    config: Config,
    windows: bool,
)
    requires
        answers(state, event),
    ensures
        state is Finished || steps_left(store_next(state, event, config, windows).0) < steps_left(
            state,
        ),
        steps_left(state) <= 5 ==> !(store_next(state, event, config, windows).1 is CloseAndCopy),
{
}

} // verus!
