//! The re-encode pass.

use pulsedb::error::{PulseDBError, StorageError};
use pulsedb::model::{Collective, ExperienceType, ExperienceV2, SyncCursor};
use pulsedb::storage::decay::{StoredDecayConfig, StoredDecayConfigV1};
use pulsedb::storage::reencode::{
    collect_rows, decode_blob_legacy_or_postcard, reencode_decay_row, reencode_event_row,
    reencode_experience_row, reencode_serde_blobs_to_postcard, BlobRows, CursorRows,
};
use pulsedb::storage::schema::{
    EntityTypeTag, ExperienceTypeTag, WatchEventRecord, WatchEventRecordV1, WatchEventTypeTag,
};
use pulsedb::storage::store::StoreOp;
use pulsedb::types::{CollectiveId, ExperienceId, InstanceId, Timestamp};

fn no_rows() -> BlobRows {
    BlobRows {
        metadata: None,
        collectives: vec![],
        decay_configs: vec![],
        experiences: vec![],
        relations: vec![],
        insights: vec![],
        activities: vec![],
        events: vec![],
        cursors: CursorRows::Decoded(vec![]),
    }
}

fn collective(n: u8) -> Collective {
    Collective {
        id: CollectiveId::from_bytes([n; 16]),
        name: "name".to_string(),
        owner_id: Some("owner".to_string()),
        embedding_dimension: 384,
        created_at: Timestamp::from_millis(0),
        updated_at: Timestamp::from_millis(1),
    }
}

#[test]
fn every_row_is_written_back() {
    let cursor = SyncCursor {
        instance_id: InstanceId::from_bytes([1; 16]),
        push_sequence: 1,
        pull_sequence: 2,
    };
    let rows = BlobRows {
        collectives: vec![
            Ok((collective(1).id, collective(1))),
            Ok((collective(2).id, collective(2))),
        ],
        cursors: CursorRows::Decoded(vec![Ok((cursor.instance_id, cursor))]),
        ..no_rows()
    };
    let plan = reencode_serde_blobs_to_postcard(rows).unwrap();
    assert_eq!(plan.ops.len(), 3);
    assert!(matches!(
        &plan.ops[1],
        StoreOp::PutCollective(id, c) if *id == collective(2).id && c.id == *id
            && c.owner_id.as_deref() == Some("owner") && c.updated_at == Timestamp::from_millis(1)
    ));
    assert!(matches!(
        &plan.ops[2],
        StoreOp::PutCursor(id, c) if *id == cursor.instance_id && *c == cursor
    ));
}

#[test]
fn a_row_stays_under_its_own_key() {
    let key = CollectiveId::from_bytes([7; 16]);
    let rows = BlobRows { collectives: vec![Ok((key, collective(1)))], ..no_rows() };
    let plan = reencode_serde_blobs_to_postcard(rows).unwrap();
    assert_eq!(plan.ops.len(), 1);
    assert!(matches!(
        &plan.ops[0],
        StoreOp::PutCollective(id, c) if *id == key && c.id == collective(1).id
    ));
}

#[test]
fn one_undecodable_row_refuses_the_pass() {
    let rows = BlobRows {
        collectives: vec![
            Ok((collective(1).id, collective(1))),
            Err(StorageError::serialization("bad row")),
        ],
        ..no_rows()
    };
    let err = reencode_serde_blobs_to_postcard(rows).unwrap_err();
    assert!(matches!(
        err,
        PulseDBError::Storage(StorageError::Serialization(ref m)) if m == "bad row"
    ));
}

#[test]
fn cursors_of_a_build_that_does_not_sync_refuse_the_pass() {
    let absent = BlobRows { cursors: CursorRows::Opaque { present: false }, ..no_rows() };
    assert!(reencode_serde_blobs_to_postcard(absent).unwrap().ops.is_empty());
    let present = BlobRows { cursors: CursorRows::Opaque { present: true }, ..no_rows() };
    assert!(matches!(
        reencode_serde_blobs_to_postcard(present),
        Err(PulseDBError::Storage(StorageError::SubstrateMigrationRequiresSync))
    ));
}

#[test]
fn the_legacy_codec_is_tried_first() {
    let both: Result<u8, StorageError> = decode_blob_legacy_or_postcard("x", Ok(1), Ok(2));
    assert_eq!(both.unwrap(), 1);
    let second: Result<u8, StorageError> =
        decode_blob_legacy_or_postcard("x", Err("a".to_string()), Ok(2));
    assert_eq!(second.unwrap(), 2);
    let neither: Result<u8, StorageError> =
        decode_blob_legacy_or_postcard("relation", Err("a".to_string()), Err("b".to_string()));
    assert!(matches!(
        neither,
        Err(StorageError::Serialization(ref m))
            if m == "relation: legacy bincode decode failed (a); postcard decode also failed (b)"
    ));
}

#[test]
fn older_rows_are_brought_up_to_date() {
    let v1 = StoredDecayConfigV1 {
        half_life_secs: 42,
        freq_weight: 1,
        floor: 2,
        auto_archive_below_floor: true,
        default_recall_weights: None,
    };
    let row = reencode_decay_row(Err(StorageError::serialization("x")), Ok(v1)).unwrap();
    assert_eq!(
        row,
        StoredDecayConfig {
            half_life_secs: 42,
            half_life_nanos: 0,
            freq_weight: 1,
            floor: 2,
            auto_archive_below_floor: true,
            default_recall_weights: None,
        }
    );
    let event = WatchEventRecordV1 {
        experience_id: [1; 16],
        collective_id: [2; 16],
        event_type: WatchEventTypeTag::Deleted,
        timestamp_ms: 3,
    };
    let row: WatchEventRecord =
        reencode_event_row(Err(StorageError::serialization("x")), Ok(event)).unwrap();
    assert_eq!(row.entity_type, EntityTypeTag::Experience);
    assert_eq!(row.entity_id, [1; 16]);
    let list = collect_rows(vec![Ok(1u8), Err(StorageError::serialization("y")), Ok(2)]);
    assert!(list.is_err());
}

#[test]
fn an_experience_of_the_second_shape_is_reshaped() {
    let second = ExperienceV2 {
        id: ExperienceId::from_bytes([1; 16]),
        collective_id: CollectiveId::from_bytes([2; 16]),
        content: "hello".to_string(),
        embedding: vec![],
        experience_type: ExperienceType { tag: ExperienceTypeTag::Generic, detail: String::new() },
        importance: 0,
        confidence: 0,
        applications: 7,
        domain: vec![],
        related_files: vec![],
        source_agent: "agent".to_string(),
        source_task: None,
        timestamp: Timestamp::from_millis(5),
        archived: true,
    };
    let failed = || StorageError::serialization("not this shape");
    let row = reencode_experience_row(Err(failed()), Ok(second)).unwrap();
    assert_eq!(row.applications(), 7);
    assert_eq!(row.last_reinforced, Timestamp::from_millis(5));
    assert_eq!(row.content, "hello");
    assert!(row.archived);
    let kept = reencode_experience_row(Ok(row), Err(failed())).unwrap();
    assert_eq!(kept.applications(), 7);
    assert!(matches!(
        reencode_experience_row(Err(failed()), Err(StorageError::serialization("nor that one"))),
        Err(StorageError::Serialization(ref m)) if m == "nor that one"
    ));
}
