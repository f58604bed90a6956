//! A store's life on an imagined disk: created, refused, backed up, upgraded.

use std::collections::BTreeMap;

use pulsedb::config::Config;
use pulsedb::error::{IoFault, PulseDBError, StorageError, ValidationError};
use pulsedb::model::{Collective, Experience, ExperienceType, ExperienceV2};
use pulsedb::storage::backup::{
    backup_once, backup_step, backup_temp_path, pre_substrate_backup_path, pre_v3_backup_path,
    BackupAction, BackupEvent, BackupOutcome,
};
use pulsedb::storage::existing::{
    create_new, open_existing, store_step, StoreAction, StoreEvent,
};
use pulsedb::storage::experiences::{get_experience, legacy_applications_instance_id};
use pulsedb::storage::listing::{get_recent_experience_ids, read_row, read_rows};
use pulsedb::storage::open::{
    create_or_migrate, file_step, initialize_new, metadata_codec, migrate_experiences_v2_to_v3,
    opening_plan, read_metadata, ClaimReport, FileAction, FileEvent, SchemaPlan,
};
use pulsedb::storage::redb::{
    encode_substrate_marker, read_substrate_marker, RedbStorage, SubstrateFormat,
};
use pulsedb::storage::reencode::{
    reencode_experience_row, reencode_serde_blobs_to_postcard, BlobRows, CursorRows,
};
use pulsedb::storage::schema::{
    DatabaseMetadata, ExperienceTypeTag, CURRENT_SUBSTRATE_FORMAT, LEGACY_SUBSTRATE_FORMAT,
    SCHEMA_VERSION,
};
use pulsedb::storage::store::{Plan, StoreOp};
use pulsedb::sync::server::SyncServer;
use pulsedb::types::{
    CollectiveId, EmbeddingDimension, ExperienceId, InstanceId, Timestamp,
};

fn default_config() -> Config {
    Config::default()
}

fn read_only() -> Config {
    Config { read_only: true, ..Config::default() }
}

fn locked() -> PulseDBError {
    PulseDBError::Storage(StorageError::DatabaseLocked)
}

/// One directory entry.
#[derive(Clone, Debug, PartialEq)]
enum Entry {
    File(Vec<u8>),
    Link(String),
}

/// A directory.
type Disk = BTreeMap<String, Entry>;

fn refused() -> BackupEvent {
    BackupEvent::Failed(IoFault { os_code: None })
}

/// Backs `src` up on `disk`, reading `chunk` bytes at a time.
fn back_up(disk: &mut Disk, src: &str, chunk: usize) -> Result<BackupOutcome, PulseDBError> {
    let backup = pre_substrate_backup_path(Some(src));
    let temp = backup_temp_path(&backup);
    let mut source: Vec<u8> = Vec::new();
    let mut read = 0;
    let mut pending: Vec<u8> = Vec::new();
    let (mut state, mut action) = backup_once();
    loop {
        let event = match action {
            BackupAction::Finish(outcome) => return Ok(outcome),
            BackupAction::Fail(e) => return Err(e),
            BackupAction::Check => BackupEvent::Exists(disk.contains_key(&backup)),
            BackupAction::RemoveTemp => {
                disk.remove(&temp);
                BackupEvent::Done
            }
            BackupAction::CreateTemp => {
                if disk.contains_key(&temp) {
                    refused()
                } else {
                    disk.insert(temp.clone(), Entry::File(Vec::new()));
                    BackupEvent::Done
                }
            }
            BackupAction::OpenSource => match disk.get(src) {
                Some(Entry::File(bytes)) => {
                    source = bytes.clone();
                    BackupEvent::Done
                }
                _ => refused(),
            },
            BackupAction::ReadChunk => {
                let end = source.len().min(read + chunk);
                pending = source[read..end].to_vec();
                read = end;
                if pending.is_empty() {
                    BackupEvent::EndOfFile
                } else {
                    BackupEvent::Done
                }
            }
            BackupAction::WriteChunk => {
                let target = match disk.get(&temp) {
                    Some(Entry::Link(target)) => target.clone(),
                    _ => temp.clone(),
                };
                match disk.get_mut(&target) {
                    Some(Entry::File(bytes)) => {
                        bytes.extend_from_slice(&pending);
                        BackupEvent::Done
                    }
                    _ => refused(),
                }
            }
            BackupAction::SyncTemp | BackupAction::SyncDirectory => BackupEvent::Done,
            BackupAction::Publish => match disk.remove(&temp) {
                Some(entry) => {
                    disk.insert(backup.clone(), entry);
                    BackupEvent::Done
                }
                None => refused(),
            },
        };
        (state, action) = backup_step(state, event, false);
    }
}

#[test]
fn test_backup_once_is_atomic_and_idempotent() {
    let mut disk = Disk::new();
    disk.insert("data.db".to_string(), Entry::File(b"pristine-v2-bytes".to_vec()));
    let backup_path = pre_substrate_backup_path(Some("data.db"));

    assert_eq!(back_up(&mut disk, "data.db", 4).unwrap(), BackupOutcome::Created);
    assert_eq!(disk.get(&backup_path), Some(&Entry::File(b"pristine-v2-bytes".to_vec())));

    disk.insert("data.db".to_string(), Entry::File(b"already-migrated-v3-bytes".to_vec()));
    assert_eq!(back_up(&mut disk, "data.db", 4).unwrap(), BackupOutcome::Preserved);
    assert_eq!(disk.get(&backup_path), Some(&Entry::File(b"pristine-v2-bytes".to_vec())));
}

#[test]
fn test_backup_once_fsyncs_sidecar_and_content_unchanged() {
    let payload = vec![0xABu8; 64 * 1024];
    let mut disk = Disk::new();
    disk.insert("source.db".to_string(), Entry::File(payload.clone()));
    let sidecar = "source.db.pre-substrate.bak";

    assert_eq!(back_up(&mut disk, "source.db", 4096).unwrap(), BackupOutcome::Created);
    assert_eq!(disk.get(sidecar), Some(&Entry::File(payload.clone())));
    assert_eq!(back_up(&mut disk, "source.db", 4096).unwrap(), BackupOutcome::Preserved);
    assert_eq!(disk.get(sidecar), Some(&Entry::File(payload)));
    assert_eq!(disk.len(), 2);
}

#[test]
fn test_backup_once_does_not_follow_temp_symlink() {
    let mut disk = Disk::new();
    disk.insert("data.db".to_string(), Entry::File(b"pristine-v2-bytes".to_vec()));
    disk.insert("victim.txt".to_string(), Entry::File(b"DO-NOT-TOUCH".to_vec()));
    let backup_path = pre_substrate_backup_path(Some("data.db"));
    disk.insert(backup_temp_path(&backup_path), Entry::Link("victim.txt".to_string()));

    assert_eq!(back_up(&mut disk, "data.db", 4).unwrap(), BackupOutcome::Created);
    assert_eq!(disk.get("victim.txt"), Some(&Entry::File(b"DO-NOT-TOUCH".to_vec())));
    assert_eq!(disk.get(&backup_path), Some(&Entry::File(b"pristine-v2-bytes".to_vec())));
    assert!(matches!(disk.get(&backup_path), Some(Entry::File(_))));
}

/// A file of the older format: how large it is, how much room there is, and whether a
/// legacy writer holds it.
struct OldFile {
    bytes: Vec<u8>,
    modified: usize,
    store_size: u64,
    available: u64,
    held: bool,
    upgraded: bool,
    backup: bool,
    locks: usize,
}

impl OldFile {
    fn new() -> Self {
        OldFile {
            bytes: b"pristine-v2-bytes".to_vec(),
            modified: 0,
            store_size: 1_000,
            available: u64::MAX,
            held: false,
            upgraded: false,
            backup: false,
            locks: 0,
        }
    }

    fn open(&mut self, config: &Config) -> Result<(), PulseDBError> {
        let (mut state, mut action) = create_or_migrate();
        loop {
            let event = match action {
                FileAction::OpenFile if self.upgraded => FileEvent::Done,
                FileAction::OpenFile => FileEvent::UpgradeRequired { found: 2 },
                FileAction::AcquireLock => {
                    self.locks += 1;
                    FileEvent::Done
                }
                FileAction::Measure => FileEvent::Measured {
                    store_size: self.store_size,
                    available: self.available,
                },
                FileAction::BackUp => {
                    let outcome = if self.backup {
                        BackupOutcome::Preserved
                    } else {
                        BackupOutcome::Created
                    };
                    self.backup = true;
                    FileEvent::BackedUp(outcome)
                }
                FileAction::Upgrade if self.held => FileEvent::Failed(locked()),
                FileAction::Upgrade => {
                    self.bytes = b"upgraded-v3-bytes".to_vec();
                    self.modified += 1;
                    self.upgraded = true;
                    FileEvent::Done
                }
                FileAction::DiscardBackup(e) => {
                    self.backup = false;
                    return Err(e);
                }
                FileAction::Opened => return Ok(()),
                FileAction::Fail(e) => return Err(e),
            };
            (state, action) = file_step(state, event, config);
        }
    }
}

#[test]
fn test_read_only_open_of_redb_v2_store_refuses_with_zero_writes() {
    let mut file = OldFile::new();
    let err = file.open(&read_only()).unwrap_err();
    assert!(matches!(err, PulseDBError::ReadOnly));
    assert!(!file.backup);
    assert!(!file.upgraded);
    assert_eq!(file.locks, 0);
}

#[test]
fn test_read_only_open_too_large_returns_readonly() {
    let mut file = OldFile { store_size: u64::MAX, ..OldFile::new() };
    let err = file.open(&read_only()).unwrap_err();
    assert!(matches!(err, PulseDBError::ReadOnly));
    assert!(!file.backup);
}

#[test]
fn test_too_large_fails_closed_before_mutation_store_bytes_unchanged() {
    let too_large = 4 * RedbStorage::single_txn_floor_bytes();
    let mut file = OldFile { store_size: too_large, ..OldFile::new() };
    let bytes_before = file.bytes.clone();
    assert!(!file.backup);
    let err = file.open(&default_config()).unwrap_err();
    assert!(matches!(
        err,
        PulseDBError::Storage(StorageError::SubstrateMigrationTooLarge { .. })
    ));
    assert!(!file.backup);
    assert_eq!(file.bytes, bytes_before);
    assert_eq!(file.modified, 0);
    assert!(!file.upgraded);
}

#[test]
fn test_lock_aborted_upgrade_leaves_no_stale_pre_substrate_sidecar() {
    let (mut s, experience_id) = schema_v2_store();
    let mut file = OldFile { held: true, ..OldFile::new() };
    let err = file.open(&default_config()).unwrap_err();
    assert!(matches!(err, PulseDBError::Storage(StorageError::DatabaseLocked)));
    assert!(!file.backup);

    file.held = false;
    file.open(&default_config()).unwrap();
    s.open(&default_config()).unwrap();
    assert_eq!(s.format(), SubstrateFormat::Current);
    assert!(matches!(
        &s.experiences[&experience_id.value],
        StoredExperience::Current(e) if e.content == "legacy" && e.applications() == 42
    ));
    assert!(file.backup);
    assert!(file.upgraded);
}

#[test]
fn test_writable_open_of_redb_v2_store_migrates_and_writes_marker() {
    let mut file = OldFile::new();
    let mut s = older_store(SCHEMA_VERSION, None);
    assert!(!file.backup);
    file.open(&default_config()).unwrap();
    s.open(&default_config()).unwrap();
    assert!(file.backup);
    assert!(file.upgraded);

    let marker = s.format();
    assert_eq!(marker, SubstrateFormat::Current);
    assert_eq!(marker.version(), CURRENT_SUBSTRATE_FORMAT);
    assert_ne!(
        pre_substrate_backup_path(Some("legacy_v2.db")),
        pre_v3_backup_path(Some("legacy_v2.db"))
    );

    file.open(&default_config()).unwrap();
    s.open(&default_config()).unwrap();
    assert_eq!(file.locks, 1);
    assert_eq!(s.format(), SubstrateFormat::Current);
}

#[test]
fn test_db_without_marker_reads_as_absent() {
    let marker = read_substrate_marker(&None).unwrap();
    assert_eq!(marker, SubstrateFormat::Absent);
    assert_eq!(marker.version(), LEGACY_SUBSTRATE_FORMAT);
}

#[test]
fn test_malformed_marker_is_corruption_not_absent() {
    let err = read_substrate_marker(&Some(vec![0xDE_u8, 0xAD, 0x01])).unwrap_err();
    assert!(matches!(err, PulseDBError::Storage(_)));
}

#[test]
fn test_older_marker1_store_reads_as_older_before_migration() {
    let stored = Some(encode_substrate_marker(1).to_vec());
    assert_eq!(read_substrate_marker(&stored).unwrap(), SubstrateFormat::Older(1));
}

#[test]
fn test_corruption_detection_invalid_metadata_bytes() {
    let mut s = Store::missing();
    s.open(&default_config()).unwrap();
    s.metadata = Some(Err("Hit the end of buffer, expected more data".to_string()));
    let result = s.open(&default_config());
    assert!(result.is_err(), "Corrupted metadata must be rejected");
    match result.unwrap_err() {
        PulseDBError::Storage(StorageError::Corrupted(msg)) => {
            assert!(msg.contains("Invalid metadata format"), "got: {msg}");
        }
        other => panic!("expected Corrupted, got: {other:?}"),
    }
}

#[test]
fn test_corruption_detection_missing_metadata_key() {
    let mut s = Store::missing();
    s.open(&default_config()).unwrap();
    s.metadata = None;
    let result = s.open(&default_config());
    assert!(result.is_err(), "Missing metadata key must be rejected");
    match result.unwrap_err() {
        PulseDBError::Storage(StorageError::Corrupted(msg)) => {
            assert!(msg.contains("Missing database metadata"), "got: {msg}");
        }
        other => panic!("expected Corrupted, got: {other:?}"),
    }
}

/// An experience as a store keeps it.
#[derive(Clone)]
enum StoredExperience {
    Second(ExperienceV2),
    Current(Experience),
}

/// A store in a file: what its tables hold, and what was done to it.
struct Store {
    exists: bool,
    metadata: Option<Result<DatabaseMetadata, String>>,
    marker: Option<Vec<u8>>,
    instance_id: Option<Vec<u8>>,
    experiences: BTreeMap<u128, StoredExperience>,
    embeddings: BTreeMap<u128, Vec<u8>>,
    by_collective: Vec<(CollectiveId, [u8; 24])>,
    foreign_cursors: bool,
    clock: i64,
    copies: usize,
    writes: usize,
}

fn another_shape() -> StorageError {
    StorageError::serialization("another shape")
}

impl Store {
    fn missing() -> Self {
        Store {
            exists: false,
            metadata: None,
            marker: None,
            instance_id: None,
            experiences: BTreeMap::new(),
            embeddings: BTreeMap::new(),
            by_collective: Vec::new(),
            foreign_cursors: false,
            clock: 1_000,
            copies: 0,
            writes: 0,
        }
    }

    fn get_experience(&self, id: ExperienceId) -> Option<Experience> {
        match self.experiences.get(&id.value) {
            Some(StoredExperience::Current(e)) => {
                get_experience(Some(e.clone()), &self.embeddings.get(&id.value).cloned())
            }
            Some(StoredExperience::Second(_)) => panic!("the experience was not reshaped"),
            None => None,
        }
    }

    fn entries(&self, collective_id: CollectiveId) -> Vec<[u8; 24]> {
        self.by_collective.iter().filter(|(c, _)| *c == collective_id).map(|(_, e)| *e).collect()
    }

    fn format(&self) -> SubstrateFormat {
        read_substrate_marker(&self.marker).unwrap()
    }

    /// The metadata as the marker says to read it, and what the marker says.
    fn read(&self) -> Result<(DatabaseMetadata, SubstrateFormat), PulseDBError> {
        let format = read_substrate_marker(&self.marker)?;
        let codec = metadata_codec(format, self.metadata.is_some())?;
        let metadata = read_metadata(codec, self.metadata.clone().unwrap())?;
        Ok((metadata, format))
    }

    /// Creates the store where it is missing, and opens it otherwise.
    fn open(&mut self, config: &Config) -> Result<RedbStorage, PulseDBError> {
        self.clock += 10;
        let now = Timestamp::from_millis(self.clock);
        let (mut state, mut action) =
            if self.exists { open_existing() } else { create_new(config, now) };
        loop {
            let event = match action {
                StoreAction::ReadMetadata => match self.read() {
                    Ok((metadata, format)) => StoreEvent::Metadata { metadata, format, now },
                    Err(e) => StoreEvent::Failed(e),
                },
                StoreAction::CloseAndCopy => {
                    let report = if self.copies == 0 {
                        ClaimReport::Copied
                    } else {
                        ClaimReport::AlreadyThere
                    };
                    self.copies += 1;
                    StoreEvent::Copied(report)
                }
                StoreAction::Reopen => StoreEvent::Done,
                StoreAction::Measure => StoreEvent::Measured {
                    store_size: 1_000,
                    copy_through: 0,
                    available: u64::MAX,
                    now,
                },
                StoreAction::Write { metadata, schema, write_marker } => {
                    match self.writable_opening(metadata, schema, write_marker) {
                        Ok(plan) => {
                            self.apply(plan);
                            StoreEvent::Done
                        }
                        Err(e) => StoreEvent::Failed(e),
                    }
                }
                StoreAction::Initialize { metadata } => {
                    self.apply(initialize_new(metadata, InstanceId::from_bytes([4; 16])));
                    StoreEvent::Done
                }
                StoreAction::Identify { metadata, created } => {
                    let path = "test.db".to_string();
                    return RedbStorage::open(path, metadata, &self.instance_id, created);
                }
                StoreAction::RemoveCopy(e) | StoreAction::Fail(e) => return Err(e),
            };
            (state, action) = store_step(state, event, config, false);
        }
    }

    fn writable_opening(
        &self,
        metadata: DatabaseMetadata,
        schema: SchemaPlan,
        write_marker: bool,
    ) -> Result<Plan, PulseDBError> {
        let reshaped = if schema.reshape_experiences {
            let mut rows = Vec::new();
            for (key, row) in &self.experiences {
                match row {
                    StoredExperience::Second(e) => rows.push((ExperienceId { value: *key }, e.clone())),
                    StoredExperience::Current(_) => panic!("reshaped twice"),
                }
            }
            migrate_experiences_v2_to_v3(rows)
        } else {
            Plan::new()
        };
        let records = if write_marker {
            let experiences = self
                .experiences
                .iter()
                .map(|(key, row)| {
                    let (current, second) = match row.clone() {
                        StoredExperience::Second(e) => (Err(another_shape()), Ok(e)),
                        StoredExperience::Current(e) => (Ok(e), Err(another_shape())),
                    };
                    reencode_experience_row(current, second)
                        .map(|e| (ExperienceId { value: *key }, e))
                })
                .collect();
            reencode_serde_blobs_to_postcard(BlobRows {
                metadata: Some(self.read().map(|(m, _)| m).map_err(|_| another_shape())),
                collectives: vec![],
                decay_configs: vec![],
                experiences,
                relations: vec![],
                insights: vec![],
                activities: vec![],
                events: vec![],
                cursors: if self.foreign_cursors {
                    CursorRows::Opaque { present: true }
                } else {
                    CursorRows::Decoded(vec![])
                },
            })?
        } else {
            Plan::new()
        };
        let fresh = match &self.instance_id {
            None => Some(InstanceId::from_bytes([4; 16])),
            Some(_) => None,
        };
        Ok(opening_plan(metadata, fresh, Plan::new(), reshaped, records, write_marker))
    }

    fn apply(&mut self, plan: Plan) {
        for op in plan.ops {
            match op {
                StoreOp::PutMetadata(m) => self.metadata = Some(Ok(m)),
                StoreOp::SetMarker(bytes) => self.marker = Some(bytes.to_vec()),
                StoreOp::SetInstanceId(bytes) => self.instance_id = Some(bytes.to_vec()),
                StoreOp::PutExperience(id, e) => {
                    self.experiences.insert(id.value, StoredExperience::Current(e));
                }
                other => panic!("unexpected write: {other:?}"),
            }
        }
        self.exists = true;
        self.writes += 1;
    }
}

/// A store that was written before this format, at `schema_version`.
fn older_store(schema_version: u32, marker: Option<u8>) -> Store {
    let mut metadata =
        DatabaseMetadata::new_at(EmbeddingDimension::D384, Timestamp::from_millis(1_000));
    metadata.schema_version = schema_version;
    Store {
        exists: true,
        metadata: Some(Ok(metadata)),
        marker: marker.map(|version| encode_substrate_marker(version).to_vec()),
        ..Store::missing()
    }
}

/// A store of the second schema with one experience, applied 42 times.
fn schema_v2_store() -> (Store, ExperienceId) {
    let id = ExperienceId::from_bytes([0; 16]);
    let mut s = older_store(2, None);
    s.experiences.insert(
        id.value,
        StoredExperience::Second(ExperienceV2 {
            id,
            collective_id: CollectiveId::from_bytes([0; 16]),
            content: "legacy".to_string(),
            embedding: vec![],
            experience_type: ExperienceType {
                tag: ExperienceTypeTag::Generic,
                detail: String::new(),
            },
            importance: 0,
            confidence: 0,
            applications: 42,
            domain: vec![],
            related_files: vec![],
            source_agent: "agent".to_string(),
            source_task: None,
            timestamp: Timestamp::from_millis(0),
            archived: false,
        }),
    );
    s.embeddings.insert(id.value, 0.25f32.to_le_bytes().repeat(384));
    s.by_collective.push((CollectiveId::from_bytes([0; 16]), [0; 24]));
    (s, id)
}

#[test]
fn test_read_only_open_refuses_unmigrated_schema_v2_store() {
    let (mut s, _) = schema_v2_store();
    let err = s.open(&read_only()).unwrap_err();
    assert!(matches!(err, PulseDBError::ReadOnly));
    assert_eq!(s.copies, 0);
    assert_eq!(s.writes, 0);
}

#[test]
fn test_read_only_open_of_older_marker1_store_refuses_with_zero_codec_writes() {
    let (mut s, experience_id) = schema_v2_store();
    s.marker = Some(encode_substrate_marker(1).to_vec());
    let err = s.open(&read_only()).unwrap_err();
    assert!(matches!(err, PulseDBError::ReadOnly));
    assert_eq!(s.format(), SubstrateFormat::Older(1));
    assert!(matches!(
        &s.experiences[&experience_id.value],
        StoredExperience::Second(e) if e.applications == 42
    ));
    assert_eq!(s.copies, 0);
    assert_eq!(s.writes, 0);
}

#[test]
fn test_read_only_open_of_current_store_writes_nothing() {
    let mut s = Store::missing();
    let opened_at_before = s.open(&default_config()).unwrap().metadata().last_opened_at;
    assert_eq!(s.writes, 1);
    let storage = s.open(&read_only()).unwrap();
    assert_eq!(storage.metadata().last_opened_at, opened_at_before);
    assert_eq!(s.copies, 0);
    assert_eq!(s.writes, 1);
}

#[test]
fn test_open_creates_new_database() {
    let mut s = Store::missing();
    assert!(!s.exists);
    let storage = s.open(&default_config()).unwrap();
    assert!(s.exists);
    assert_eq!(s.metadata, Some(Ok(*storage.metadata())));
    assert_eq!(s.format(), SubstrateFormat::Current);
    assert_eq!(s.writes, 1);
    assert_eq!(storage.metadata().schema_version, SCHEMA_VERSION);
    assert_eq!(storage.metadata().embedding_dimension, EmbeddingDimension::D384);
}

#[test]
fn test_fresh_db_writes_current_substrate_marker() {
    let mut s = Store::missing();
    s.open(&default_config()).unwrap();
    let marker = s.format();
    assert_eq!(marker, SubstrateFormat::Current);
    assert_eq!(marker.version(), CURRENT_SUBSTRATE_FORMAT);
    assert_eq!(s.marker, Some(vec![b'P', b'S', CURRENT_SUBSTRATE_FORMAT]));
}

#[test]
fn test_open_storage() {
    let mut s = Store::missing();
    let storage = s.open(&default_config()).unwrap();
    assert_eq!(storage.metadata().embedding_dimension, EmbeddingDimension::D384);
    assert!(storage.path().is_some());
}

#[test]
fn test_embedding_dimension_accessor() {
    let config =
        Config { embedding_dimension: EmbeddingDimension::D768, ..Default::default() };
    let storage = Store::missing().open(&config).unwrap();
    assert_eq!(storage.embedding_dimension(), EmbeddingDimension::D768);
}

#[test]
fn test_dimension_mismatch_returns_error() {
    let config_384 =
        Config { embedding_dimension: EmbeddingDimension::D384, ..Default::default() };
    let mut s = Store::missing();
    s.open(&config_384).unwrap();

    let config_768 =
        Config { embedding_dimension: EmbeddingDimension::D768, ..Default::default() };
    let result = s.open(&config_768);
    assert!(result.is_err());
    let err = result.unwrap_err();
    assert!(matches!(
        err,
        PulseDBError::Validation(ValidationError::DimensionMismatch { .. })
    ));
}

#[test]
fn test_open_existing_database() {
    let mut s = Store::missing();
    let created_at = s.open(&default_config()).unwrap().metadata().created_at;
    let storage = s.open(&default_config()).unwrap();
    assert_eq!(storage.metadata().created_at, created_at);
    assert!(storage.metadata().last_opened_at > created_at);
    assert_eq!(s.copies, 0);
}

#[test]
fn test_metadata_preserved_across_opens() {
    let config =
        Config { embedding_dimension: EmbeddingDimension::Custom(512), ..Default::default() };
    let mut s = Store::missing();
    let storage = s.open(&config).unwrap();
    assert_eq!(storage.metadata().embedding_dimension, EmbeddingDimension::Custom(512));
    let storage = s.open(&config).unwrap();
    assert_eq!(storage.metadata().embedding_dimension, EmbeddingDimension::Custom(512));
}

#[test]
fn a_store_of_the_first_schema_is_rewritten_behind_its_copy() {
    let mut s = older_store(1, None);
    let storage = s.open(&default_config()).unwrap();
    let metadata = storage.metadata();
    assert_eq!(s.copies, 1);
    assert_eq!(s.writes, 1);
    assert_eq!(s.format(), SubstrateFormat::Current);
    assert_eq!(metadata.schema_version, SCHEMA_VERSION);
    assert_eq!(metadata.last_opened_at, Timestamp::from_millis(1_010));
}

#[test]
fn test_schema_v3_reopen_skips_pre_v3_migration_path() {
    let (mut s, experience_id) = schema_v2_store();
    let storage = s.open(&default_config()).unwrap();
    assert_eq!(storage.metadata().schema_version, SCHEMA_VERSION);
    assert_eq!(s.copies, 1);

    let reopened = s.open(&default_config()).unwrap();
    assert_eq!(reopened.metadata().schema_version, SCHEMA_VERSION);
    assert_eq!(s.copies, 1);
    let experience = s.get_experience(experience_id).unwrap();
    let bucket = legacy_applications_instance_id();
    assert_eq!(experience.applications.get(&bucket.value), Some(&42));
}

#[test]
fn test_schema_v2_experience_migration_writes_legacy_bucket_backup_and_preserves_queries() {
    let (mut s, experience_id) = schema_v2_store();
    let collective_id = CollectiveId::from_bytes([0; 16]);
    let timestamp = Timestamp::from_millis(0);
    assert_eq!(s.copies, 0);

    s.open(&default_config()).unwrap();

    assert_eq!(s.copies, 1, "the migration must retain a copy");
    let experience = s.get_experience(experience_id).unwrap();
    assert_eq!(experience.last_reinforced, timestamp);
    assert_eq!(experience.applications(), 42);
    assert_eq!(
        experience.applications.get(&legacy_applications_instance_id().value),
        Some(&42)
    );
    assert_eq!(experience.embedding, vec![0.25f32.to_bits(); 384]);

    let recent = get_recent_experience_ids(&s.entries(collective_id), 10);
    assert!(
        recent.iter().any(|(id, _)| *id == experience_id),
        "migrated experience must remain in the by-collective index"
    );
}

#[test]
fn a_store_of_the_first_schema_is_not_current_whatever_its_marker_says() {
    let mut s = older_store(1, Some(CURRENT_SUBSTRATE_FORMAT));
    assert!(matches!(s.open(&read_only()).unwrap_err(), PulseDBError::ReadOnly));
    assert_eq!((s.copies, s.writes), (0, 0));
    let storage = s.open(&default_config()).unwrap();
    assert_eq!((s.copies, s.writes), (1, 1));
    assert_eq!(storage.metadata().schema_version, SCHEMA_VERSION);
    s.open(&read_only()).unwrap();
    assert_eq!((s.copies, s.writes), (1, 1));
}

#[test]
fn a_migrated_store_opens_read_only_as_it_is() {
    let (mut s, _) = schema_v2_store();
    let migrated = s.open(&default_config()).unwrap();
    let reopened = s.open(&read_only()).unwrap();
    assert_eq!(reopened.metadata(), migrated.metadata());
    assert_eq!(s.writes, 1);
}

#[test]
fn test_substrate_format_too_new_is_refused() {
    let mut file = OldFile::new();
    let mut s = older_store(SCHEMA_VERSION, Some(CURRENT_SUBSTRATE_FORMAT + 1));
    file.open(&default_config()).unwrap();
    match s.open(&default_config()).unwrap_err() {
        PulseDBError::Storage(StorageError::SubstrateFormatTooNew { found, current }) => {
            assert_eq!(found, CURRENT_SUBSTRATE_FORMAT + 1);
            assert_eq!(current, CURRENT_SUBSTRATE_FORMAT);
        }
        other => panic!("expected SubstrateFormatTooNew, got: {other:?}"),
    }
}

#[test]
fn a_newer_store_is_refused_untouched() {
    let mut s = older_store(SCHEMA_VERSION + 7, Some(CURRENT_SUBSTRATE_FORMAT + 1));
    for config in [default_config(), read_only()] {
        let err = s.open(&config).unwrap_err();
        assert!(matches!(
            err,
            PulseDBError::Storage(StorageError::SubstrateFormatTooNew { .. })
        ));
    }
    assert_eq!(s.copies, 0);
    assert_eq!(s.writes, 0);
}

#[test]
fn test_get_nonexistent_collective_returns_none() {
    assert!(read_row::<Collective>(None).unwrap().is_none());
}

#[test]
fn test_list_collectives_empty() {
    assert!(read_rows::<Collective>(vec![]).unwrap().is_empty());
}

#[test]
fn test_list_collectives_returns_all() {
    let named = |n: u8, name: &str| Collective {
        id: CollectiveId::from_bytes([n; 16]),
        name: name.to_string(),
        owner_id: None,
        embedding_dimension: 384,
        created_at: Timestamp::from_millis(0),
        updated_at: Timestamp::from_millis(0),
    };
    let rows = vec![
        Ok(named(1, "project-alpha")),
        Ok(named(2, "project-beta")),
        Ok(named(3, "project-gamma")),
    ];
    let collectives = read_rows(rows).unwrap();
    assert_eq!(collectives.len(), 3);
    let ids: Vec<CollectiveId> = collectives.iter().map(|c| c.id).collect();
    assert!(ids.contains(&CollectiveId::from_bytes([1; 16])));
    assert!(ids.contains(&CollectiveId::from_bytes([2; 16])));
    assert!(ids.contains(&CollectiveId::from_bytes([3; 16])));
}

#[test]
fn test_non_sync_build_refuses_migration_when_sync_cursors_present() {
    let mut s = Store { foreign_cursors: true, ..older_store(SCHEMA_VERSION, Some(1)) };
    let err = s.open(&default_config()).unwrap_err();
    assert!(matches!(
        err,
        PulseDBError::Storage(StorageError::SubstrateMigrationRequiresSync)
    ));
    assert_eq!(s.format(), SubstrateFormat::Older(1));
    assert_eq!(s.writes, 0);
}

#[test]
fn test_database_metadata_touch() {
    let mut meta = DatabaseMetadata::new(EmbeddingDimension::D384);
    let original = meta.last_opened_at;
    while Timestamp::now() <= original {}
    meta.touch();
    assert!(meta.last_opened_at > original);
}

fn assert_send_sync<T: Send + Sync>() {}

#[test]
fn test_storage_engine_is_send_sync() {
    assert_send_sync::<RedbStorage>();
}

#[test]
fn test_sync_server_is_send_sync() {
    assert_send_sync::<SyncServer>();
}
