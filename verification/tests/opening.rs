//! Opening and migrating a store.

use pulsedb::config::Config;
use pulsedb::error::{IoFault, PulseDBError, StorageError, ValidationError};
use pulsedb::model::{ExperienceType, ExperienceV2};
use pulsedb::storage::backup::{
    backup_once, backup_step, backup_temp_path, is_lock_contention_io_error, migration_io_error,
    migration_lock_path, pre_substrate_backup_path, pre_v3_backup_path, BackupAction, BackupEvent,
    BackupOutcome, BackupState,
};
use pulsedb::storage::existing::{
    create_new, open_existing, store_step, StoreAction, StoreEvent, StoreState,
};
use pulsedb::storage::experiences::legacy_applications_instance_id;
use pulsedb::storage::open::{
    copy_through_bytes, create_or_migrate, file_step, initialize_new, judge_pre_v3_backup,
    metadata_codec, migrate_experiences_v2_to_v3, opening_plan, plan_schema, plan_substrate,
    read_instance_id, read_metadata, touch_metadata, ClaimOutcome, ClaimReport, CopyThrough, FileAction, FileEvent,
    FileState, RecordCodec,
};
use pulsedb::storage::redb::{encode_substrate_marker, RedbStorage, SubstrateFormat};
use pulsedb::storage::schema::{
    DatabaseMetadata, ExperienceTypeTag, CURRENT_SUBSTRATE_FORMAT, SCHEMA_VERSION,
};
use pulsedb::storage::store::{Plan, StoreOp};
use pulsedb::types::{CollectiveId, EmbeddingDimension, ExperienceId, InstanceId, Timestamp};

fn read_only() -> Config {
    Config { read_only: true, ..Config::default() }
}

fn metadata(schema_version: u32) -> DatabaseMetadata {
    let mut m = DatabaseMetadata::new_at(
        Config::default().embedding_dimension,
        Timestamp::from_millis(1),
    );
    m.schema_version = schema_version;
    m
}

fn locked() -> PulseDBError {
    PulseDBError::Storage(StorageError::DatabaseLocked)
}

#[test]
fn a_current_file_opens_at_once() {
    let (state, action) = create_or_migrate();
    assert!(matches!(action, FileAction::OpenFile));
    let (state, action) = file_step(state, FileEvent::Done, &Config::default());
    assert_eq!(state, FileState::Finished);
    assert!(matches!(action, FileAction::Opened));
}

#[test]
fn an_older_file_is_upgraded_behind_lock_measure_and_backup() {
    let config = Config::default();
    let (state, _) = create_or_migrate();
    let (state, action) = file_step(state, FileEvent::UpgradeRequired { found: 2 }, &config);
    assert!(matches!(action, FileAction::AcquireLock));
    let (state, action) = file_step(state, FileEvent::Done, &config);
    assert!(matches!(action, FileAction::OpenFile));
    let (state, action) = file_step(state, FileEvent::UpgradeRequired { found: 2 }, &config);
    assert!(matches!(action, FileAction::Measure));
    let measured = FileEvent::Measured { store_size: 1_000, available: 2_100 };
    let (state, action) = file_step(state, measured, &config);
    assert!(matches!(action, FileAction::BackUp));
    let (state, action) = file_step(state, FileEvent::BackedUp(BackupOutcome::Created), &config);
    assert!(matches!(action, FileAction::Upgrade));
    let (state, action) = file_step(state, FileEvent::Done, &config);
    assert!(matches!(action, FileAction::OpenFile));
    assert_eq!(state, FileState::Reopening);
    let (_, action) = file_step(state, FileEvent::Done, &config);
    assert!(matches!(action, FileAction::Opened));
}

#[test]
fn a_read_only_opening_of_an_older_file_writes_nothing() {
    let (state, _) = create_or_migrate();
    let (_, action) = file_step(state, FileEvent::UpgradeRequired { found: 2 }, &read_only());
    assert!(matches!(action, FileAction::Fail(PulseDBError::ReadOnly)));
}

#[test]
fn too_little_disk_stops_before_the_backup() {
    let measured = FileEvent::Measured { store_size: 1_000, available: 2_099 };
    let (_, action) = file_step(FileState::Measuring, measured, &Config::default());
    assert!(matches!(
        action,
        FileAction::Fail(PulseDBError::Storage(
            StorageError::SubstrateMigrationInsufficientDisk {
                store_size: 1_000,
                required: 2_100,
                available: 2_099
            }
        ))
    ));
}

#[test]
fn test_cleanup_stale_backup_removes_sidecar_only_on_lock_abort() {
    let created = FileState::Upgrading { backup: BackupOutcome::Created };
    let preserved = FileState::Upgrading { backup: BackupOutcome::Preserved };
    let config = Config::default();
    let torn = || PulseDBError::Storage(StorageError::Redb("torn in-place upgrade".to_string()));

    let (_, action) = file_step(created, FileEvent::Failed(locked()), &config);
    assert!(matches!(action, FileAction::DiscardBackup(ref e) if e.is_database_locked()));
    let (_, action) = file_step(created, FileEvent::Failed(torn()), &config);
    assert!(matches!(action, FileAction::Fail(PulseDBError::Storage(StorageError::Redb(_)))));
    let (_, action) = file_step(preserved, FileEvent::Failed(locked()), &config);
    assert!(matches!(action, FileAction::Fail(ref e) if e.is_database_locked()));
}

#[test]
fn metadata_is_read_by_the_codec_its_marker_names() {
    assert_eq!(metadata_codec(SubstrateFormat::Absent, true).unwrap(), RecordCodec::Legacy);
    assert_eq!(metadata_codec(SubstrateFormat::Older(1), true).unwrap(), RecordCodec::Legacy);
    assert_eq!(metadata_codec(SubstrateFormat::Current, true).unwrap(), RecordCodec::Current);
    assert!(matches!(
        metadata_codec(SubstrateFormat::Newer(9), true),
        Err(PulseDBError::Storage(StorageError::SubstrateFormatTooNew { found: 9, .. }))
    ));
    assert!(matches!(
        metadata_codec(SubstrateFormat::Newer(9), false),
        Err(PulseDBError::Storage(StorageError::Corrupted(ref m))) if m == "Missing database metadata"
    ));
    let broken = read_metadata(RecordCodec::Legacy, Err("short".to_string()));
    assert!(matches!(
        broken,
        Err(PulseDBError::Storage(StorageError::Corrupted(ref m)))
            if m == "Invalid legacy metadata format: short"
    ));
    let broken = read_metadata(RecordCodec::Current, Err("short".to_string()));
    assert!(matches!(
        broken,
        Err(PulseDBError::Storage(StorageError::Corrupted(ref m)))
            if m == "Invalid metadata format: short"
    ));
    assert_eq!(read_metadata(RecordCodec::Current, Ok(metadata(2))).unwrap().schema_version, 2);
}

#[test]
fn schema_migrations_follow_the_stored_version() {
    let config = Config::default();
    let absent = SubstrateFormat::Absent;
    let first = plan_schema(&metadata(1), absent, &config).unwrap();
    assert!(first.reshape_log && first.reshape_experiences);
    let second = plan_schema(&metadata(2), absent, &config).unwrap();
    assert!(!second.reshape_log && second.reshape_experiences);
    let older = plan_schema(&metadata(2), SubstrateFormat::Older(1), &config).unwrap();
    assert!(!older.reshape_log && older.reshape_experiences);
    let lagging = plan_schema(&metadata(1), SubstrateFormat::Current, &config).unwrap();
    assert!(lagging.reshape_log && lagging.reshape_experiences);
    assert!(matches!(
        plan_schema(&metadata(1), SubstrateFormat::Current, &read_only()),
        Err(PulseDBError::ReadOnly)
    ));
    for config in [Config::default(), read_only()] {
        let current = plan_schema(&metadata(2), SubstrateFormat::Current, &config).unwrap();
        assert!(!current.reshape_log && !current.reshape_experiences);
    }
    assert!(matches!(plan_schema(&metadata(2), absent, &read_only()), Err(PulseDBError::ReadOnly)));
    assert!(matches!(
        plan_schema(&metadata(0), absent, &config),
        Err(PulseDBError::Storage(StorageError::SchemaVersionMismatch { .. }))
    ));
    assert!(matches!(
        plan_schema(&metadata(SCHEMA_VERSION + 1), absent, &config),
        Err(PulseDBError::Storage(StorageError::SchemaVersionMismatch { .. }))
    ));
}

#[test]
fn another_embedding_size_is_refused_with_both_sizes() {
    let stored = DatabaseMetadata::new_at(EmbeddingDimension::D384, Timestamp::from_millis(1));
    let config = Config { embedding_dimension: EmbeddingDimension::D768, ..Config::default() };
    let err = plan_schema(&stored, SubstrateFormat::Current, &config).unwrap_err();
    assert!(matches!(
        err,
        PulseDBError::Validation(ValidationError::DimensionMismatch { expected: 768, got: 384 })
    ));
}

#[test]
fn the_schema_copy_is_kept_and_never_left_half_done() {
    let fault = IoFault { os_code: Some(28) };
    assert!(matches!(judge_pre_v3_backup(ClaimReport::Copied, false), ClaimOutcome::Proceed));
    assert!(matches!(judge_pre_v3_backup(ClaimReport::AlreadyThere, false), ClaimOutcome::Proceed));
    assert!(matches!(
        judge_pre_v3_backup(ClaimReport::CopyFailed(fault), false),
        ClaimOutcome::RemoveThenFail(PulseDBError::Io(_))
    ));
    let held = IoFault { os_code: Some(33) };
    assert!(matches!(
        judge_pre_v3_backup(ClaimReport::ClaimFailed(held), true),
        ClaimOutcome::Fail(ref e) if e.is_database_locked()
    ));
}

#[test]
fn contention_codes_mean_a_lock_on_windows_only() {
    for code in [32, 33] {
        let fault = IoFault { os_code: Some(code) };
        assert!(is_lock_contention_io_error(fault, true));
        assert!(!is_lock_contention_io_error(fault, false));
        assert!(migration_io_error(fault, true).is_database_locked());
        assert!(!migration_io_error(fault, false).is_database_locked());
    }
    assert!(!is_lock_contention_io_error(IoFault { os_code: None }, true));
}

#[test]
fn re_encoding_follows_the_marker() {
    let config = Config::default();
    assert!(matches!(
        plan_substrate(SubstrateFormat::Newer(CURRENT_SUBSTRATE_FORMAT + 1), &config),
        Err(PulseDBError::Storage(StorageError::SubstrateFormatTooNew { found, current }))
            if found == CURRENT_SUBSTRATE_FORMAT + 1 && current == CURRENT_SUBSTRATE_FORMAT
    ));
    assert!(!plan_substrate(SubstrateFormat::Current, &read_only()).unwrap());
    assert!(plan_substrate(SubstrateFormat::Absent, &config).unwrap());
    assert!(plan_substrate(SubstrateFormat::Older(1), &config).unwrap());
    assert!(matches!(
        plan_substrate(SubstrateFormat::Older(1), &read_only()),
        Err(PulseDBError::ReadOnly)
    ));
}

#[test]
fn the_identity_is_sixteen_bytes() {
    assert_eq!(
        read_instance_id(&Some(vec![7u8; 16])).unwrap(),
        InstanceId::from_bytes([7u8; 16])
    );
    assert!(matches!(
        read_instance_id(&None),
        Err(PulseDBError::Storage(StorageError::Corrupted(ref m))) if m == "Missing instance_id"
    ));
    assert!(matches!(
        read_instance_id(&Some(vec![7u8; 15])),
        Err(PulseDBError::Storage(StorageError::Corrupted(ref m))) if m == "invalid instance_id bytes"
    ));
    let storage = RedbStorage::open("a.db".to_string(), metadata(2), &Some(vec![7u8; 16]), false).unwrap();
    assert_eq!(storage.path().map(|p| p.as_str()), Some("a.db"));
    assert_eq!(storage.metadata().schema_version, 2);
    assert_eq!(storage.instance_id(), InstanceId::from_bytes([7u8; 16]));
}

#[test]
fn an_open_store_knows_its_embedding_size() {
    let stored = DatabaseMetadata::new_at(EmbeddingDimension::D768, Timestamp::from_millis(1));
    let storage = RedbStorage::open("b.db".to_string(), stored, &Some(vec![1u8; 16]), false).unwrap();
    assert_eq!(storage.embedding_dimension(), EmbeddingDimension::D768);
    assert_eq!(storage.embedding_dimension().size(), 768);
}

#[test]
fn copied_through_bytes_are_all_counted_and_saturate() {
    let rows = CopyThrough {
        embeddings: vec![(16, 1536), (16, 1536)],
        index_groups: vec![(16, vec![24, 24, 24]), (17, vec![16]), (16, vec![])],
        raw_metadata: vec![(11, 16), (12, 8), (16, 3)],
    };
    assert_eq!(copy_through_bytes(&rows), 3104 + 88 + 33 + 16 + 66);
    let huge = CopyThrough {
        embeddings: vec![(u64::MAX, 1)],
        index_groups: vec![(1, vec![u64::MAX])],
        raw_metadata: vec![(2, 3)],
    };
    assert_eq!(copy_through_bytes(&huge), u64::MAX);
}

#[test]
fn the_scalar_count_moves_into_the_reserved_bucket() {
    let v2 = ExperienceV2 {
        id: ExperienceId::from_bytes([1; 16]),
        collective_id: CollectiveId::from_bytes([2; 16]),
        content: "learned".to_string(),
        embedding: vec![0.25f32.to_bits(); 4],
        experience_type: ExperienceType { tag: ExperienceTypeTag::Fact, detail: String::new() },
        importance: 0.5f32.to_bits(),
        confidence: 0.5f32.to_bits(),
        applications: 42,
        domain: vec![],
        related_files: vec![],
        source_agent: "agent".to_string(),
        source_task: None,
        timestamp: Timestamp::from_millis(77),
        archived: false,
    };
    let key = ExperienceId::from_bytes([0x77; 16]);
    let plan = migrate_experiences_v2_to_v3(vec![(key, v2)]);
    assert_eq!(plan.ops.len(), 1);
    match &plan.ops[0] {
        StoreOp::PutExperience(id, e) => {
            assert_eq!(*id, key);
            assert_eq!(e.applications(), 42);
            let bucket = legacy_applications_instance_id();
            assert_eq!(&bucket.as_bytes(), b"PULSEDB_LEGACY__");
            assert_eq!(e.applications.get(&bucket.value), Some(&42));
            assert_eq!(e.last_reinforced, Timestamp::from_millis(77));
            assert_eq!(e.content, "learned");
        }
        other => panic!("unexpected write: {other:?}"),
    }
}

#[test]
fn the_marker_is_the_last_write_of_an_opening() {
    let mut log = Plan::new();
    log.push(StoreOp::RemoveEvent([0; 8]));
    let mut records = Plan::new();
    records.push(StoreOp::RemoveCollective(CollectiveId::nil()));
    let m = metadata(1);
    let schema = plan_schema(&m, SubstrateFormat::Absent, &Config::default()).unwrap();
    let plan = opening_plan(
        touch_metadata(m, schema, Timestamp::from_millis(500)),
        Some(InstanceId::from_bytes([9; 16])),
        log,
        Plan::new(),
        records,
        true,
    );
    assert_eq!(plan.ops.len(), 5);
    assert!(matches!(plan.ops[0], StoreOp::RemoveEvent(_)));
    assert!(matches!(plan.ops[1], StoreOp::SetInstanceId(id) if id == [9; 16]));
    assert!(matches!(plan.ops[2], StoreOp::RemoveCollective(_)));
    assert!(matches!(
        plan.ops[3],
        StoreOp::PutMetadata(ref m)
            if m.schema_version == SCHEMA_VERSION
                && m.last_opened_at == Timestamp::from_millis(500)
    ));
    assert!(matches!(plan.ops[4], StoreOp::SetMarker(b)
        if b == encode_substrate_marker(CURRENT_SUBSTRATE_FORMAT)));
}

#[test]
fn a_new_store_is_written_with_its_identity_and_marker() {
    let plan = initialize_new(metadata(SCHEMA_VERSION), InstanceId::from_bytes([4; 16]));
    assert!(plan.ops.iter().any(|op| matches!(op, StoreOp::SetMarker(b)
        if *b == encode_substrate_marker(CURRENT_SUBSTRATE_FORMAT))));
    assert!(plan.ops.iter().any(|op| matches!(op, StoreOp::SetInstanceId(id) if *id == [4; 16])));
    assert_eq!(plan.ops.len(), 3);
}

#[test]
fn sidecars_lie_beside_the_store() {
    assert_eq!(pre_v3_backup_path(Some("data.db")), "data.db.pre-v3.bak");
    assert_eq!(pre_substrate_backup_path(Some("data.db")), "data.db.pre-substrate.bak");
    assert_eq!(pre_substrate_backup_path(None), "pulsedb.redb.pre-substrate.bak");
    assert_eq!(backup_temp_path("x.bak"), "x.bak.tmp");
    assert_eq!(migration_lock_path("data.db"), "data.db.migrate.lock");
}

#[test]
fn a_copy_is_published_only_once_durable() {
    let (mut state, action) = backup_once();
    assert!(matches!(action, BackupAction::Check));
    let events = vec![
        BackupEvent::Exists(false),
        BackupEvent::Done,
        BackupEvent::Done,
        BackupEvent::Done,
        BackupEvent::Done,
        BackupEvent::Done,
        BackupEvent::EndOfFile,
        BackupEvent::Done,
        BackupEvent::Done,
        BackupEvent::Done,
    ];
    let mut names = Vec::new();
    for event in events {
        let (next, action) = backup_step(state, event, false);
        state = next;
        names.push(format!("{action:?}"));
    }
    assert_eq!(
        names,
        vec![
            "RemoveTemp",
            "CreateTemp",
            "OpenSource",
            "ReadChunk",
            "WriteChunk",
            "ReadChunk",
            "SyncTemp",
            "Publish",
            "SyncDirectory",
            "Finish(Created)"
        ]
    );
    assert_eq!(state, BackupState::Finished);
}

#[test]
fn an_existing_copy_is_preserved_and_a_failed_one_removed() {
    let (state, _) = backup_once();
    let (_, action) = backup_step(state, BackupEvent::Exists(true), false);
    assert!(matches!(action, BackupAction::Finish(BackupOutcome::Preserved)));

    let fault = IoFault { os_code: Some(32) };
    let (state, action) = backup_step(BackupState::Reading, BackupEvent::Failed(fault), true);
    assert!(matches!(action, BackupAction::RemoveTemp));
    let (_, action) = backup_step(state, BackupEvent::Done, true);
    assert!(matches!(action, BackupAction::Fail(ref e) if e.is_database_locked()));

    let (state, _) = backup_step(BackupState::Syncing, BackupEvent::Failed(fault), true);
    let (_, action) = backup_step(state, BackupEvent::Done, true);
    assert!(matches!(action, BackupAction::Fail(PulseDBError::Io(_))));
}

fn reading(schema_version: u32, format: SubstrateFormat) -> StoreEvent {
    StoreEvent::Metadata {
        metadata: metadata(schema_version),
        format,
        now: Timestamp::from_millis(9),
    }
}

fn measured(store_size: u64, available: u64) -> StoreEvent {
    StoreEvent::Measured {
        store_size,
        copy_through: 0,
        available,
        now: Timestamp::from_millis(9),
    }
}

#[test]
fn an_old_schema_is_copied_before_it_is_rewritten() {
    let config = Config::default();
    let (state, action) = open_existing();
    assert!(matches!(action, StoreAction::ReadMetadata));
    let (state, action) =
        store_step(state, reading(1, SubstrateFormat::Absent), &config, false);
    assert!(matches!(action, StoreAction::CloseAndCopy));
    let (state, action) =
        store_step(state, StoreEvent::Copied(ClaimReport::Copied), &config, false);
    assert!(matches!(action, StoreAction::Reopen));
    let (state, action) = store_step(state, StoreEvent::Done, &config, false);
    assert_eq!(state, StoreState::Reading { copied: true });
    assert!(matches!(action, StoreAction::ReadMetadata));
    let (state, action) =
        store_step(state, reading(1, SubstrateFormat::Absent), &config, false);
    assert!(matches!(action, StoreAction::Measure));
    let (state, action) = store_step(state, measured(1000, u64::MAX), &config, false);
    assert!(matches!(
        action,
        StoreAction::Write { ref metadata, schema, write_marker: true }
            if metadata.schema_version == SCHEMA_VERSION
                && metadata.last_opened_at == Timestamp::from_millis(9)
                && schema.reshape_log && schema.reshape_experiences
    ));
    let (state, action) = store_step(state, StoreEvent::Done, &config, false);
    assert_eq!(state, StoreState::Finished);
    assert!(matches!(action, StoreAction::Identify { created: false, .. }));
}

#[test]
fn a_failed_copy_is_removed_and_a_failed_claim_is_not() {
    let config = Config::default();
    let fault = || IoFault { os_code: Some(28) };
    let (_, action) = store_step(
        StoreState::Copying,
        StoreEvent::Copied(ClaimReport::CopyFailed(fault())),
        &config,
        false,
    );
    assert!(matches!(action, StoreAction::RemoveCopy(PulseDBError::Io(_))), "{action:?}");
    let (_, action) = store_step(
        StoreState::Copying,
        StoreEvent::Copied(ClaimReport::ClaimFailed(fault())),
        &config,
        false,
    );
    assert!(matches!(action, StoreAction::Fail(PulseDBError::Io(_))), "{action:?}");
}

#[test]
fn an_old_marker_is_rewritten_only_with_headroom() {
    let config = Config::default();
    let state = StoreState::Reading { copied: true };
    let (measuring, action) =
        store_step(state, reading(2, SubstrateFormat::Absent), &config, false);
    assert!(matches!(action, StoreAction::Measure));
    let (_, action) = store_step(measuring, measured(1000, 0), &config, false);
    assert!(matches!(
        action,
        StoreAction::Fail(PulseDBError::Storage(StorageError::SubstrateMigrationInsufficientDisk { .. }))
    ), "{action:?}");
    let (_, action) = store_step(measuring, measured(1000, u64::MAX), &config, false);
    assert!(matches!(action, StoreAction::Write { write_marker: true, .. }));
    let (_, action) = store_step(state, reading(2, SubstrateFormat::Newer(9)), &config, false);
    assert!(matches!(
        action,
        StoreAction::Fail(PulseDBError::Storage(StorageError::SubstrateFormatTooNew { found: 9, .. }))
    ));
}

#[test]
fn a_read_only_opening_asks_for_no_write() {
    let (state, _) = open_existing();
    for format in [SubstrateFormat::Absent, SubstrateFormat::Older(1)] {
        for version in 1..=SCHEMA_VERSION {
            let (_, action) = store_step(state, reading(version, format), &read_only(), false);
            assert!(matches!(action, StoreAction::Fail(PulseDBError::ReadOnly)));
        }
    }
    let (_, action) =
        store_step(state, reading(1, SubstrateFormat::Current), &read_only(), false);
    assert!(matches!(action, StoreAction::Fail(PulseDBError::ReadOnly)));
    let (_, action) =
        store_step(state, reading(2, SubstrateFormat::Current), &read_only(), false);
    assert!(matches!(
        action,
        StoreAction::Identify { metadata: m, created: false } if m == metadata(2)
    ));
}

#[test]
fn a_missing_store_is_created_then_identified() {
    let config = Config::default();
    let (state, action) = create_new(&config, Timestamp::from_millis(3));
    assert!(matches!(
        action,
        StoreAction::Initialize { ref metadata }
            if metadata.schema_version == SCHEMA_VERSION
                && metadata.created_at == Timestamp::from_millis(3)
    ));
    let (_, action) = store_step(state, StoreEvent::Done, &config, false);
    assert!(matches!(action, StoreAction::Identify { created: true, .. }));
    assert!(matches!(
        RedbStorage::open("c.db".to_string(), metadata(2), &None, true),
        Err(PulseDBError::Storage(StorageError::Corrupted(ref m)))
            if m == "Missing instance_id after init"
    ));
}

#[test]
fn a_failed_operation_ends_the_opening() {
    let (state, _) = open_existing();
    let (state, action) =
        store_step(state, StoreEvent::Failed(PulseDBError::ReadOnly), &Config::default(), false);
    assert_eq!(state, StoreState::Finished);
    assert!(matches!(action, StoreAction::Fail(PulseDBError::ReadOnly)));
}
