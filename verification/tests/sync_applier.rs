//! Applying a peer's changes.

use std::collections::BTreeMap;

use pulsedb::model::{Collective, Experience, ExperienceRelation, ExperienceType, RelationType};
use pulsedb::storage::schema::ExperienceTypeTag;
use pulsedb::storage::store::StoreOp;
use pulsedb::sync::applier::{
    experience_needed, is_skewed, reinforcement_time, row_needed, ApplyOutcome, ChangeOutcome,
    LocalRows, RemoteChangeApplier,
};
use pulsedb::sync::config::{ConflictResolution, SyncConfig};
use pulsedb::sync::error::SyncError;
use pulsedb::sync::payload::EntityRef;
use pulsedb::sync::types::{
    SerializableExperienceUpdate, SyncChange, SyncEntityType, SyncPayload, SyncStats,
};
use pulsedb::types::{CollectiveId, ExperienceId, InstanceId, RelationId, Timestamp};

const REMOTE_KEY: u128 = 0xABCD;

fn minimal_exp() -> Experience {
    Experience {
        id: ExperienceId::from_bytes([7; 16]),
        collective_id: CollectiveId::from_bytes([1; 16]),
        content: "applier merge test".to_string(),
        embedding: vec![0.1f32.to_bits(); 384],
        experience_type: ExperienceType { tag: ExperienceTypeTag::Generic, detail: String::new() },
        importance: 0.9f32.to_bits(),
        confidence: 0.5f32.to_bits(),
        applications: BTreeMap::new(),
        domain: vec![],
        tags: vec![],
        related_files: vec![],
        source_agent: "agent".to_string(),
        source_task: None,
        timestamp: Timestamp::from_millis(1_000),
        last_reinforced: Timestamp::from_millis(1_000),
        archived: false,
    }
}

fn no_rows() -> LocalRows {
    LocalRows { experience: None, relation: None, insight: None, collective: None }
}

fn with(experience: Experience) -> LocalRows {
    LocalRows { experience: Some(experience), ..no_rows() }
}

fn change(payload: SyncPayload) -> SyncChange {
    SyncChange {
        sequence: 1,
        source_instance: InstanceId::from_bytes([3; 16]),
        collective_id: CollectiveId::from_bytes([1; 16]),
        entity_type: SyncEntityType::Experience,
        payload,
        timestamp: Timestamp::from_millis(2_000),
    }
}

fn empty_update() -> SerializableExperienceUpdate {
    SerializableExperienceUpdate {
        importance: None,
        confidence: None,
        domain: None,
        tags: None,
        related_files: None,
        archived: None,
        applications: None,
        last_reinforced: None,
    }
}

fn lww() -> RemoteChangeApplier {
    RemoteChangeApplier::new(SyncConfig {
        conflict_resolution: ConflictResolution::LastWriteWins,
        ..SyncConfig::default()
    })
}

fn server_wins() -> RemoteChangeApplier {
    RemoteChangeApplier::new(SyncConfig::default())
}

#[test]
fn experience_created_collision_merges_gcounter_fields() {
    let incoming_last_reinforced = Timestamp::from_millis(i64::MAX);
    let mut remote = minimal_exp();
    remote.applications = BTreeMap::from([(REMOTE_KEY, 4)]);
    remote.last_reinforced = incoming_last_reinforced;

    let (plan, outcome) = server_wins()
        .apply_single(change(SyncPayload::ExperienceCreated(remote)), Ok(with(minimal_exp())))
        .unwrap();

    assert!(matches!(outcome, ApplyOutcome::Applied));
    assert_eq!(plan.ops.len(), 1);
    match &plan.ops[0] {
        StoreOp::PutExperience(id, merged) => {
            assert_eq!(*id, minimal_exp().id);
            assert_eq!(merged.applications.get(&REMOTE_KEY), Some(&4));
            assert_eq!(merged.last_reinforced, incoming_last_reinforced);
        }
        other => panic!("unexpected write {other:?}"),
    }
}

#[test]
fn lww_skip_does_not_skip_gcounter_merge() {
    let incoming_last_reinforced = Timestamp::from_millis(i64::MAX);
    let update = SerializableExperienceUpdate {
        importance: Some(0.1f32.to_bits()),
        applications: Some(BTreeMap::from([(REMOTE_KEY, 6)])),
        last_reinforced: Some(incoming_last_reinforced),
        ..empty_update()
    };
    let (plan, outcome) = lww()
        .apply_single(
            change(SyncPayload::ExperienceUpdated {
                id: minimal_exp().id,
                update,
                timestamp: Timestamp::from_millis(0),
            }),
            Ok(with(minimal_exp())),
        )
        .unwrap();

    assert!(matches!(outcome, ApplyOutcome::ConflictResolved));
    assert_eq!(plan.ops.len(), 1);
    match &plan.ops[0] {
        StoreOp::PutExperience(id, merged) => {
            assert_eq!(*id, minimal_exp().id);
            assert_eq!(merged.applications.get(&REMOTE_KEY), Some(&6));
            assert_eq!(merged.applications(), 6);
            assert_eq!(merged.last_reinforced, incoming_last_reinforced);
            assert!((f32::from_bits(merged.importance) - 0.9).abs() < f32::EPSILON);
        }
        other => panic!("unexpected write {other:?}"),
    }
}

#[test]
fn a_newer_change_wins_and_an_older_one_without_counters_is_skipped() {
    let id = minimal_exp().id;
    let update = || SerializableExperienceUpdate {
        importance: Some(0.1f32.to_bits()),
        ..empty_update()
    };
    let at = |ms| SyncPayload::ExperienceUpdated {
        id,
        update: update(),
        timestamp: Timestamp::from_millis(ms),
    };
    let (plan, outcome) = lww().apply_single(change(at(999)), Ok(with(minimal_exp()))).unwrap();
    assert_eq!(outcome, ApplyOutcome::Skipped);
    assert!(plan.ops.is_empty());
    let (plan, outcome) = lww().apply_single(change(at(1_000)), Ok(with(minimal_exp()))).unwrap();
    assert_eq!(outcome, ApplyOutcome::ConflictResolved);
    assert!(matches!(&plan.ops[0], StoreOp::PutExperience(_, e)
        if f32::from_bits(e.importance) == 0.1));
    let (_, outcome) = server_wins().apply_single(change(at(0)), Ok(with(minimal_exp()))).unwrap();
    assert_eq!(outcome, ApplyOutcome::Applied);
}

#[test]
fn an_update_of_an_absent_experience_fails() {
    let id = minimal_exp().id;
    let payload = SyncPayload::ExperienceUpdated {
        id,
        update: empty_update(),
        timestamp: Timestamp::from_millis(0),
    };
    let err = server_wins().apply_single(change(payload), Ok(no_rows())).unwrap_err();
    assert!(err.is_missing_dependency());
    assert_eq!(
        err.to_string(),
        "Sync change depends on experience 07070707-0707-0707-0707-070707070707, \
         which is absent locally"
    );
}

#[test]
fn unreadable_rows_are_a_failure() {
    let payload = SyncPayload::ExperienceCreated(minimal_exp());
    let err = server_wins().apply_single(change(payload), Err("disk".to_string())).unwrap_err();
    assert!(matches!(err, SyncError::Transport(ref m) if m == "Failed to apply sync change: disk"));
}

#[test]
fn creations_are_applied_once_and_deletions_of_nothing_are_skipped() {
    let c = Collective {
        id: CollectiveId::from_bytes([1; 16]),
        name: "c".to_string(),
        owner_id: None,
        embedding_dimension: 384,
        created_at: Timestamp::from_millis(0),
        updated_at: Timestamp::from_millis(0),
    };
    let applier = server_wins();
    let (plan, outcome) = applier
        .apply_single(change(SyncPayload::CollectiveCreated(c.clone())), Ok(no_rows()))
        .unwrap();
    assert_eq!(outcome, ApplyOutcome::Applied);
    assert_eq!(plan.ops.len(), 1);
    let there = LocalRows { collective: Some(c.clone()), ..no_rows() };
    let (plan, outcome) =
        applier.apply_single(change(SyncPayload::CollectiveCreated(c)), Ok(there)).unwrap();
    assert_eq!(outcome, ApplyOutcome::Skipped);
    assert!(plan.ops.is_empty());

    let id = minimal_exp().id;
    let timestamp = Timestamp::from_millis(1);
    for payload in [
        SyncPayload::ExperienceDeleted { id, timestamp },
        SyncPayload::ExperienceArchived { id, timestamp },
        SyncPayload::RelationDeleted { id: RelationId::from_bytes([1; 16]), timestamp },
    ] {
        let (plan, outcome) = applier.apply_single(change(payload), Ok(no_rows())).unwrap();
        assert_eq!(outcome, ApplyOutcome::Skipped);
        assert!(plan.ops.is_empty());
    }
    let archived = SyncPayload::ExperienceArchived { id, timestamp };
    let (plan, outcome) =
        applier.apply_single(change(archived), Ok(with(minimal_exp()))).unwrap();
    assert_eq!(outcome, ApplyOutcome::Applied);
    assert!(matches!(&plan.ops[0], StoreOp::PutExperience(_, e) if e.archived));
    assert!(!plan.ops.iter().any(|op| matches!(op, StoreOp::PutEvent(_, _))));
}

#[test]
fn a_relation_looks_up_its_source() {
    let r = ExperienceRelation {
        id: RelationId::from_bytes([4; 16]),
        source_id: minimal_exp().id,
        target_id: ExperienceId::from_bytes([8; 16]),
        relation_type: RelationType { code: 0 },
        strength: 0,
        metadata: None,
        created_at: Timestamp::from_millis(0),
    };
    let payload = SyncPayload::RelationCreated(r);
    assert_eq!(row_needed(&payload), EntityRef::Relation(RelationId::from_bytes([4; 16])));
    assert_eq!(experience_needed(&payload), Some(minimal_exp().id));
    let (plan, outcome) =
        server_wins().apply_single(change(payload.clone()), Ok(with(minimal_exp()))).unwrap();
    assert_eq!(outcome, ApplyOutcome::Applied);
    assert_eq!(plan.ops.len(), 3);
    let err = server_wins().apply_single(change(payload), Ok(no_rows())).unwrap_err();
    assert!(err.is_transport());
}

fn ended(sequence: u64, outcome: Option<ApplyOutcome>) -> ChangeOutcome {
    ChangeOutcome { sequence, last_reinforced: None, outcome }
}

#[test]
fn a_batch_is_accounted_for() {
    let outcomes = vec![
        ended(5, Some(ApplyOutcome::Applied)),
        ended(2, Some(ApplyOutcome::Skipped)),
        ended(8, None),
        ended(3, Some(ApplyOutcome::ConflictResolved)),
        ended(9, Some(ApplyOutcome::Applied)),
    ];
    let result = server_wins().apply_batch(&outcomes, Timestamp::from_millis(0));
    assert_eq!(result.applied, 3);
    assert_eq!(result.skipped, 2);
    assert_eq!(result.conflicts, 1);
    assert_eq!(result.failed, 1);
    assert_eq!(result.failed_sequences, vec![8]);
    assert_eq!(result.safe_through, Some(5));

    let all_failed = vec![ended(2, None), ended(4, Some(ApplyOutcome::Applied))];
    let result = server_wins().apply_batch(&all_failed, Timestamp::from_millis(0));
    assert_eq!(result.safe_through, None);
    let none_failed = vec![ended(2, Some(ApplyOutcome::Skipped)), ended(1, Some(ApplyOutcome::Applied))];
    let result = server_wins().apply_batch(&none_failed, Timestamp::from_millis(0));
    assert_eq!(result.safe_through, Some(2));
}

#[test]
fn reinforcements_from_the_future_are_counted_and_never_changed() {
    let now = Timestamp::from_millis(1_000);
    let at = |ms| Some(Timestamp::from_millis(ms));
    assert!(!is_skewed(at(301_000), now, 300_000));
    assert!(is_skewed(at(301_001), now, 300_000));
    assert!(!is_skewed(None, now, 300_000));
    assert!(!is_skewed(at(i64::MAX), now, u64::MAX));
    let outcomes = vec![
        ChangeOutcome { sequence: 1, last_reinforced: at(301_001), outcome: None },
        ChangeOutcome {
            sequence: 2,
            last_reinforced: at(301_000),
            outcome: Some(ApplyOutcome::Applied),
        },
    ];
    let result = server_wins().apply_batch(&outcomes, now);
    assert_eq!(result.skewed_timestamps, 1);
    let mut stats = SyncStats::default();
    result.record_into(&mut stats);
    result.record_into(&mut stats);
    assert_eq!(stats.skewed_timestamps, 2);
    let mut full = SyncStats { skewed_timestamps: u64::MAX };
    result.record_into(&mut full);
    assert_eq!(full.skewed_timestamps, u64::MAX);
    let payload = SyncPayload::ExperienceCreated(minimal_exp());
    assert_eq!(reinforcement_time(&payload), at(1_000));
}
