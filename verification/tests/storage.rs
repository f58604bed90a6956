//! Records, indexes and the log, on a store that carries out plans in memory.

use std::collections::{BTreeMap, BTreeSet};

use pulsedb::model::{
    Activity, Collective, DerivedInsight, Experience, ExperienceRelation, ExperienceType,
    ExperienceUpdate, InsightType, RelationType, SyncCursor,
};
use pulsedb::storage::cascade::{
    delete_experiences_by_collective, delete_insights_by_collective,
    delete_relations_for_experience, list_experience_ids_in_collective,
};
use pulsedb::storage::decay::{
    get_decay_config, DecayConfig, RecallWeights, StoredDecayConfig, StoredDecayConfigV1,
};
use pulsedb::storage::experiences::{
    bytes_to_f32_vec, delete_experience, f32_slice_to_bytes, get_experience,
    merge_experience_applications, reinforce_experience, save_embedding, save_experience,
    update_experience,
};
use pulsedb::storage::listing::{
    get_recent_experience_ids, list_experience_ids_paginated, list_insight_ids_paginated,
    list_relations_in_collective,
};
use pulsedb::storage::provider::{provider_identity_era_marker, stamp_provider_identity};
use pulsedb::storage::records::{
    delete_activities_by_collective, delete_activity, delete_collective, delete_insight,
    delete_relation, list_activities_in_collective, relation_exists, save_activity,
    save_collective, save_insight, save_relation, save_sync_cursor, set_decay_config,
};
use pulsedb::storage::schema::{
    EntityTypeTag, ExperienceTypeTag, WatchEventRecord, WatchEventRecordV1, WatchEventTypeTag,
};
use pulsedb::storage::store::{Plan, StoreOp};
use pulsedb::storage::wal::{
    compact_wal_events, get_wal_sequence, migrate_wal_v1_to_v2, poll_sync_events,
    poll_watch_events, WalContext,
};
use pulsedb::types::{CollectiveId, ExperienceId, InsightId, InstanceId, RelationId, Timestamp};

#[derive(Default)]
struct MemStore {
    wal_sequence: Option<Vec<u8>>,
    provider_identity: Option<Vec<u8>>,
    provider_stamped_at: Option<Vec<u8>>,
    collectives: BTreeMap<CollectiveId, Collective>,
    decay: BTreeMap<CollectiveId, StoredDecayConfig>,
    experiences: BTreeMap<ExperienceId, Experience>,
    embeddings: BTreeMap<ExperienceId, Vec<u8>>,
    by_collective: BTreeSet<(CollectiveId, [u8; 24])>,
    by_type: BTreeSet<([u8; 17], ExperienceId)>,
    relations: BTreeMap<RelationId, ExperienceRelation>,
    by_source: BTreeSet<(ExperienceId, RelationId)>,
    by_target: BTreeSet<(ExperienceId, RelationId)>,
    insights: BTreeMap<InsightId, DerivedInsight>,
    insights_by_collective: BTreeSet<(CollectiveId, InsightId)>,
    activities: BTreeMap<Vec<u8>, Activity>,
    events: BTreeMap<[u8; 8], WatchEventRecord>,
    cursors: BTreeMap<InstanceId, SyncCursor>,
}

impl MemStore {
    fn run(&mut self, plan: Plan) {
        for op in plan.ops {
            match op {
                StoreOp::SetWalSequence(b) => self.wal_sequence = Some(b.to_vec()),
                StoreOp::SetProviderIdentity(b) => self.provider_identity = Some(b),
                StoreOp::SetProviderStampedAt(b) => self.provider_stamped_at = Some(b),
                StoreOp::PutCollective(id, c) => {
                    self.collectives.insert(id, c);
                }
                StoreOp::RemoveCollective(id) => {
                    self.collectives.remove(&id);
                }
                StoreOp::PutDecayConfig(id, c) => {
                    self.decay.insert(id, c);
                }
                StoreOp::PutExperience(id, e) => {
                    self.experiences.insert(id, e);
                }
                StoreOp::RemoveExperience(id) => {
                    self.experiences.remove(&id);
                }
                StoreOp::PutEmbedding(id, b) => {
                    self.embeddings.insert(id, b);
                }
                StoreOp::RemoveEmbedding(id) => {
                    self.embeddings.remove(&id);
                }
                StoreOp::LinkByCollective(c, v) => {
                    self.by_collective.insert((c, v));
                }
                StoreOp::UnlinkByCollective(c, v) => {
                    self.by_collective.remove(&(c, v));
                }
                StoreOp::ClearByCollective(c) => self.by_collective.retain(|(x, _)| *x != c),
                StoreOp::LinkByType(k, id) => {
                    self.by_type.insert((k, id));
                }
                StoreOp::UnlinkByType(k, id) => {
                    self.by_type.remove(&(k, id));
                }
                StoreOp::ClearByType(k) => self.by_type.retain(|(x, _)| *x != k),
                StoreOp::PutRelation(id, r) => {
                    self.relations.insert(id, r);
                }
                StoreOp::RemoveRelation(id) => {
                    self.relations.remove(&id);
                }
                StoreOp::LinkBySource(e, r) => {
                    self.by_source.insert((e, r));
                }
                StoreOp::UnlinkBySource(e, r) => {
                    self.by_source.remove(&(e, r));
                }
                StoreOp::ClearBySource(e) => self.by_source.retain(|(x, _)| *x != e),
                StoreOp::LinkByTarget(e, r) => {
                    self.by_target.insert((e, r));
                }
                StoreOp::UnlinkByTarget(e, r) => {
                    self.by_target.remove(&(e, r));
                }
                StoreOp::ClearByTarget(e) => self.by_target.retain(|(x, _)| *x != e),
                StoreOp::PutInsight(id, x) => {
                    self.insights.insert(id, x);
                }
                StoreOp::RemoveInsight(id) => {
                    self.insights.remove(&id);
                }
                StoreOp::LinkInsight(c, i) => {
                    self.insights_by_collective.insert((c, i));
                }
                StoreOp::UnlinkInsight(c, i) => {
                    self.insights_by_collective.remove(&(c, i));
                }
                StoreOp::ClearInsights(c) => {
                    self.insights_by_collective.retain(|(x, _)| *x != c)
                }
                StoreOp::PutActivity(k, a) => {
                    self.activities.insert(k, a);
                }
                StoreOp::RemoveActivity(k) => {
                    self.activities.remove(&k);
                }
                StoreOp::PutEvent(k, r) => {
                    self.events.insert(k, r);
                }
                StoreOp::RemoveEvent(k) => {
                    self.events.remove(&k);
                }
                StoreOp::PutCursor(id, c) => {
                    self.cursors.insert(id, c);
                }
                other => panic!("no test writes {other:?}"),
            }
        }
    }

    fn wal(&self) -> WalContext {
        WalContext { applying: false, stored: self.wal_sequence.clone() }
    }

    fn save_collective(&mut self, c: &Collective) {
        let plan = save_collective(c.clone(), &self.wal()).unwrap();
        self.run(plan);
    }

    fn save_experience(&mut self, e: &Experience) {
        let plan = save_experience(e.clone(), &self.wal()).unwrap();
        self.run(plan);
    }

    fn get_experience(&self, id: ExperienceId) -> Option<Experience> {
        get_experience(self.experiences.get(&id).cloned(), &self.embeddings.get(&id).cloned())
    }

    fn update_experience(&mut self, id: ExperienceId, update: ExperienceUpdate) -> bool {
        let found = self.experiences.get(&id).cloned();
        match update_experience(id, found, update, &self.wal()).unwrap() {
            Some(plan) => {
                self.run(plan);
                true
            }
            None => false,
        }
    }

    fn delete_experience(&mut self, id: ExperienceId) -> bool {
        let found = self.experiences.get(&id).cloned();
        match delete_experience(id, &found, &self.wal()).unwrap() {
            Some(plan) => {
                self.run(plan);
                true
            }
            None => false,
        }
    }

    fn reinforce_experience(&mut self, id: ExperienceId) -> Option<u32> {
        let found = self.experiences.get(&id).cloned();
        let own = InstanceId::from_bytes([0xEE; 16]);
        let now = Timestamp::from_millis(9_000);
        match reinforce_experience(id, found, own, now, &self.wal()).unwrap() {
            Some((plan, count)) => {
                self.run(plan);
                Some(count)
            }
            None => None,
        }
    }

    fn entries(&self, c: CollectiveId) -> Vec<[u8; 24]> {
        self.by_collective.iter().filter(|(x, _)| *x == c).map(|(_, v)| *v).collect()
    }

    fn log(&self) -> Vec<(u64, WatchEventRecord)> {
        self.events.iter().map(|(k, r)| (u64::from_be_bytes(*k), *r)).collect()
    }

    fn wal_sequence(&self) -> u64 {
        get_wal_sequence(&self.wal_sequence).unwrap()
    }

    fn poll_watch_events(&self, since: u64, limit: usize) -> (Vec<WatchEventRecord>, u64) {
        poll_watch_events(&self.log(), since, limit)
    }
}

fn collective(n: u8, name: &str) -> Collective {
    Collective {
        id: CollectiveId::from_bytes([n; 16]),
        name: name.to_string(),
        owner_id: None,
        embedding_dimension: 384,
        created_at: Timestamp::from_millis(1_000),
        updated_at: Timestamp::from_millis(1_000),
    }
}

fn test_experience(collective_id: CollectiveId, n: u8) -> Experience {
    let timestamp = Timestamp::from_millis(2_000 + n as i64);
    Experience {
        id: ExperienceId::from_bytes([n; 16]),
        collective_id,
        content: "Test experience content".to_string(),
        embedding: vec![0.42f32.to_bits(); 384],
        experience_type: ExperienceType {
            tag: ExperienceTypeTag::Fact,
            detail: "redb uses shadow paging".to_string(),
        },
        importance: 0.8f32.to_bits(),
        confidence: 0.7f32.to_bits(),
        applications: BTreeMap::new(),
        domain: vec!["rust".to_string(), "databases".to_string()],
        tags: vec![],
        related_files: vec!["src/storage/redb.rs".to_string()],
        source_agent: "test-agent".to_string(),
        source_task: None,
        timestamp,
        last_reinforced: timestamp,
        archived: false,
    }
}

#[test]
fn test_save_and_get_collective() {
    let mut store = MemStore::default();
    let c = collective(1, "test-project");
    store.save_collective(&c);
    let retrieved = store.collectives.get(&c.id).unwrap();
    assert_eq!(retrieved.id, c.id);
    assert_eq!(retrieved.name, "test-project");
    assert_eq!(retrieved.embedding_dimension, 384);
    assert!(retrieved.owner_id.is_none());
}

#[test]
fn test_save_collective_overwrites_existing() {
    let mut store = MemStore::default();
    let mut c = collective(1, "original-name");
    store.save_collective(&c);
    c.name = "updated-name".to_string();
    store.save_collective(&c);
    assert_eq!(store.collectives.get(&c.id).unwrap().name, "updated-name");
    assert_eq!(store.collectives.len(), 1);
}

#[test]
fn test_delete_collective_existing() {
    let mut store = MemStore::default();
    let c = collective(1, "to-delete");
    store.save_collective(&c);
    let (plan, deleted) = delete_collective(c.id, &store.collectives.get(&c.id).cloned());
    store.run(plan);
    assert!(deleted);
    assert!(store.collectives.get(&c.id).is_none());
    assert_eq!(store.wal_sequence(), 1);
}

#[test]
fn test_delete_collective_nonexistent() {
    let (plan, deleted) = delete_collective(CollectiveId::from_bytes([5; 16]), &None::<Collective>);
    let mut store = MemStore::default();
    store.run(plan);
    assert!(!deleted);
}

fn decay(secs: u64, nanos: u32) -> DecayConfig {
    DecayConfig {
        half_life_secs: secs,
        half_life_nanos: nanos,
        freq_weight: 0.5f32.to_bits(),
        floor: 0.2f32.to_bits(),
        auto_archive_below_floor: true,
        default_recall_weights: None,
    }
}

#[test]
fn test_decay_config_absent_then_round_trips() {
    let mut store = MemStore::default();
    let id = CollectiveId::from_bytes([3; 16]);
    assert!(get_decay_config(None).unwrap().is_none());
    let config = decay(7 * 24 * 60 * 60, 0);
    store.run(set_decay_config(id, &config));
    let stored = store.decay[&id];
    let restored = get_decay_config(Some((Ok(stored), Err("unused".to_string())))).unwrap();
    assert_eq!(restored, Some(config));
}

#[test]
fn test_decay_config_preserves_subsecond_half_life() {
    let mut store = MemStore::default();
    let id = CollectiveId::from_bytes([3; 16]);
    let config = decay(0, 750_000_000);
    store.run(set_decay_config(id, &config));
    let stored = store.decay[&id];
    let restored = get_decay_config(Some((Ok(stored), Err("unused".to_string())))).unwrap();
    assert_eq!(restored, Some(config));
}

#[test]
fn test_decay_config_reads_legacy_second_precision_rows() {
    let weights = RecallWeights { similarity: 0.7f32.to_bits(), energy: 0.3f32.to_bits() };
    let legacy = StoredDecayConfigV1 {
        half_life_secs: 42,
        freq_weight: 0.5f32.to_bits(),
        floor: 0.2f32.to_bits(),
        auto_archive_below_floor: true,
        default_recall_weights: Some(weights),
    };
    let row = (Err("short".to_string()), Ok(legacy));
    let restored = get_decay_config(Some(row)).unwrap().unwrap();
    assert_eq!(restored.half_life_secs, 42);
    assert_eq!(restored.half_life_nanos, 0);
    assert_eq!(f32::from_bits(restored.freq_weight), 0.5);
    assert_eq!(f32::from_bits(restored.floor), 0.2);
    assert!(restored.auto_archive_below_floor);
    assert_eq!(restored.default_recall_weights, Some(weights));

    let neither = get_decay_config(Some((Err("a".to_string()), Err("b".to_string()))));
    assert!(format!("{:?}", neither.unwrap_err())
        .contains("decay config current format: a; legacy format: b"));
}

#[test]
fn test_save_and_get_experience() {
    let mut store = MemStore::default();
    let c = collective(1, "test");
    store.save_collective(&c);
    let exp = test_experience(c.id, 9);
    store.save_experience(&exp);
    let retrieved = store.get_experience(exp.id).unwrap();
    assert_eq!(retrieved.id, exp.id);
    assert_eq!(retrieved.collective_id, c.id);
    assert_eq!(retrieved.content, "Test experience content");
    assert_eq!(f32::from_bits(retrieved.importance), 0.8);
    assert_eq!(f32::from_bits(retrieved.confidence), 0.7);
    assert_eq!(retrieved.applications(), 0);
    assert_eq!(retrieved.domain, vec!["rust", "databases"]);
    assert!(!retrieved.archived);
    assert_eq!(retrieved.embedding.len(), 384);
    assert_eq!(f32::from_bits(retrieved.embedding[0]), 0.42);
}

#[test]
fn test_get_nonexistent_experience_returns_none() {
    let store = MemStore::default();
    assert!(store.get_experience(ExperienceId::from_bytes([1; 16])).is_none());
}

#[test]
fn test_update_experience_fields() {
    let mut store = MemStore::default();
    let c = collective(1, "test");
    store.save_collective(&c);
    let exp = test_experience(c.id, 9);
    store.save_experience(&exp);
    let update = ExperienceUpdate {
        importance: Some(0.95f32.to_bits()),
        domain: Some(vec!["updated-tag".to_string()]),
        ..Default::default()
    };
    assert!(store.update_experience(exp.id, update));
    let retrieved = store.get_experience(exp.id).unwrap();
    assert_eq!(f32::from_bits(retrieved.importance), 0.95);
    assert_eq!(retrieved.domain, vec!["updated-tag"]);
    assert_eq!(f32::from_bits(retrieved.confidence), 0.7);
}

#[test]
fn test_update_nonexistent_experience_returns_false() {
    let mut store = MemStore::default();
    let update = ExperienceUpdate { importance: Some(0.5f32.to_bits()), ..Default::default() };
    assert!(!store.update_experience(ExperienceId::from_bytes([1; 16]), update));
    assert_eq!(store.wal_sequence(), 0);
}

#[test]
fn test_delete_experience() {
    let mut store = MemStore::default();
    let c = collective(1, "test");
    store.save_collective(&c);
    let exp = test_experience(c.id, 9);
    store.save_experience(&exp);
    assert!(store.get_experience(exp.id).is_some());
    assert!(store.delete_experience(exp.id));
    assert!(store.get_experience(exp.id).is_none());
    assert!(store.embeddings.get(&exp.id).is_none());
    assert_eq!(store.entries(c.id).len(), 0);
    assert!(store.by_type.is_empty());
}

#[test]
fn test_delete_nonexistent_experience_returns_false() {
    let mut store = MemStore::default();
    assert!(!store.delete_experience(ExperienceId::from_bytes([1; 16])));
}

#[test]
fn test_save_and_get_embedding() {
    let mut store = MemStore::default();
    let id = ExperienceId::from_bytes([8; 16]);
    let embedding: Vec<f32> = vec![0.1, 0.2, 0.3, -0.5, 1.0, f32::MIN_POSITIVE];
    let bits: Vec<u32> = embedding.iter().map(|x| x.to_bits()).collect();
    store.run(save_embedding(id, &bits));
    let restored: Vec<f32> =
        bytes_to_f32_vec(&store.embeddings[&id]).iter().map(|b| f32::from_bits(*b)).collect();
    assert_eq!(restored, embedding);
}

#[test]
fn test_f32_byte_conversion_roundtrip() {
    let original = vec![0.0, 1.0, -1.0, f32::MAX, f32::MIN, std::f32::consts::PI];
    let bits: Vec<u32> = original.iter().map(|x: &f32| x.to_bits()).collect();
    let bytes = f32_slice_to_bytes(&bits);
    assert_eq!(bytes.len(), original.len() * 4);
    assert_eq!(bytes[4..8], 1.0f32.to_le_bytes());
    let restored: Vec<f32> =
        bytes_to_f32_vec(&bytes).iter().map(|b| f32::from_bits(*b)).collect();
    assert_eq!(original, restored);
}

#[test]
fn test_experience_by_collective_index() {
    let mut store = MemStore::default();
    let c = collective(1, "test");
    store.save_collective(&c);
    for n in 0..3u8 {
        store.save_experience(&test_experience(c.id, 10 + n));
    }
    assert_eq!(store.entries(c.id).len(), 3);
    let ids = list_experience_ids_in_collective(&store.entries(c.id));
    assert_eq!(ids[0], ExperienceId::from_bytes([10; 16]));
    let recent = get_recent_experience_ids(&store.entries(c.id), 2);
    assert_eq!(
        recent,
        vec![
            (ExperienceId::from_bytes([12; 16]), Timestamp::from_millis(2_012)),
            (ExperienceId::from_bytes([11; 16]), Timestamp::from_millis(2_011))
        ]
    );
}

#[test]
fn test_cascade_delete_includes_experiences() {
    let mut store = MemStore::default();
    let c = collective(1, "test");
    let other = collective(2, "other");
    let exp1 = test_experience(c.id, 21);
    let exp2 = test_experience(c.id, 22);
    let kept = test_experience(other.id, 23);
    store.save_experience(&exp1);
    store.save_experience(&exp2);
    store.save_experience(&kept);
    let (plan, count) = delete_experiences_by_collective(c.id, &store.entries(c.id), &vec![]);
    store.run(plan);
    assert_eq!(count, 2);
    assert!(store.get_experience(exp1.id).is_none());
    assert!(store.get_experience(exp2.id).is_none());
    assert!(store.embeddings.get(&exp1.id).is_none());
    assert!(store.embeddings.get(&exp2.id).is_none());
    assert!(store.get_experience(kept.id).is_some());
    assert_eq!(store.entries(c.id).len(), 0);
    assert_eq!(store.entries(other.id).len(), 1);
    assert_eq!(store.by_type.len(), 1);
}

#[test]
fn test_update_experience_archived_flag() {
    let mut store = MemStore::default();
    let exp = test_experience(CollectiveId::from_bytes([1; 16]), 9);
    store.save_experience(&exp);
    store.update_experience(
        exp.id,
        ExperienceUpdate { archived: Some(true), ..Default::default() },
    );
    assert!(store.get_experience(exp.id).unwrap().archived);
    store.update_experience(
        exp.id,
        ExperienceUpdate { archived: Some(false), ..Default::default() },
    );
    assert!(!store.get_experience(exp.id).unwrap().archived);
}

#[test]
fn test_experience_with_all_type_variants() {
    let mut store = MemStore::default();
    let c = collective(1, "test");
    for (n, tag) in ExperienceTypeTag::all().iter().enumerate() {
        let mut exp = test_experience(c.id, 30 + n as u8);
        exp.experience_type.tag = *tag;
        store.save_experience(&exp);
        let retrieved = store.get_experience(exp.id).unwrap();
        assert_eq!(retrieved.experience_type.type_tag(), *tag);
    }
    assert_eq!(store.entries(c.id).len(), 9);
    assert_eq!(store.by_type.len(), 9);
}

#[test]
fn test_reinforce_experience_atomic() {
    let mut store = MemStore::default();
    let exp = test_experience(CollectiveId::from_bytes([1; 16]), 9);
    store.save_experience(&exp);
    assert_eq!(store.reinforce_experience(exp.id), Some(1));
    assert_eq!(store.reinforce_experience(exp.id), Some(2));
    assert_eq!(store.reinforce_experience(exp.id), Some(3));
    let retrieved = store.get_experience(exp.id).unwrap();
    assert_eq!(retrieved.applications(), 3);
    assert_eq!(retrieved.last_reinforced, Timestamp::from_millis(9_000));
    assert_eq!(retrieved.embedding.len(), 384);
}

#[test]
fn test_reinforce_experience_nonexistent() {
    let mut store = MemStore::default();
    assert!(store.reinforce_experience(ExperienceId::from_bytes([1; 16])).is_none());
}

#[test]
fn merging_a_peers_counter_takes_the_larger_buckets_and_logs_nothing() {
    let mut store = MemStore::default();
    let exp = test_experience(CollectiveId::from_bytes([1; 16]), 9);
    store.save_experience(&exp);
    store.reinforce_experience(exp.id);
    let own = InstanceId::from_bytes([0xEE; 16]).value;
    let mut incoming = BTreeMap::new();
    incoming.insert(own, 5u32);
    incoming.insert(77u128, 2u32);
    let before = store.wal_sequence();
    for _ in 0..2 {
        let found = store.experiences.get(&exp.id).cloned();
        let later = Some(Timestamp::from_millis(10_000));
        let plan = merge_experience_applications(exp.id, found, &incoming, later).unwrap();
        store.run(plan);
        let merged = store.get_experience(exp.id).unwrap();
        assert_eq!(merged.applications(), 7);
        assert_eq!(merged.last_reinforced, Timestamp::from_millis(10_000));
    }
    assert_eq!(store.wal_sequence(), before);
    assert!(merge_experience_applications(exp.id, None, &incoming, None).is_none());
}

#[test]
fn test_wal_sequence_starts_at_zero() {
    assert_eq!(MemStore::default().wal_sequence(), 0);
}

#[test]
fn test_save_experience_increments_wal_sequence() {
    let mut store = MemStore::default();
    let c = collective(1, "test");
    store.save_collective(&c);
    assert_eq!(store.wal_sequence(), 1);
    store.save_experience(&test_experience(c.id, 2));
    assert_eq!(store.wal_sequence(), 2);
    store.save_experience(&test_experience(c.id, 3));
    assert_eq!(store.wal_sequence(), 3);
}

#[test]
fn a_broken_counter_is_reported_and_nothing_is_planned() {
    let broken = WalContext { applying: false, stored: Some(vec![1, 2, 3]) };
    let exp = test_experience(CollectiveId::from_bytes([1; 16]), 9);
    let err = save_experience(exp.clone(), &broken).unwrap_err();
    assert!(format!("{err:?}").contains("invalid wal_sequence bytes"));
    let applying = WalContext { applying: true, stored: Some(vec![1, 2, 3]) };
    let plan = save_experience(exp, &applying).unwrap();
    assert!(!plan.ops.iter().any(|op| matches!(op, StoreOp::PutEvent(_, _))));
}

#[test]
fn test_poll_watch_events_returns_correct_events() {
    let mut store = MemStore::default();
    let c = collective(1, "test");
    store.save_collective(&c);
    let exps: Vec<Experience> = (2..5u8).map(|n| test_experience(c.id, n)).collect();
    for e in &exps {
        store.save_experience(e);
    }
    let (events, max_seq) = store.poll_watch_events(0, 100);
    assert_eq!(events.len(), 4);
    assert_eq!(max_seq, 4);
    assert!(events.iter().all(|e| e.event_type == WatchEventTypeTag::Created));
    assert_eq!(events[0].entity_type, EntityTypeTag::Collective);
    assert_eq!(events[1].entity_id, exps[0].id.as_bytes());
    assert_eq!(events[2].entity_id, exps[1].id.as_bytes());
    assert_eq!(events[3].entity_id, exps[2].id.as_bytes());
}

#[test]
fn test_poll_watch_events_since_midpoint() {
    let mut store = MemStore::default();
    let c = collective(1, "test");
    store.save_collective(&c);
    for n in 2..7u8 {
        store.save_experience(&test_experience(c.id, n));
    }
    let (events, max_seq) = store.poll_watch_events(4, 100);
    assert_eq!(events.len(), 2);
    assert_eq!(max_seq, 6);
}

#[test]
fn test_poll_watch_events_empty_when_caught_up() {
    let mut store = MemStore::default();
    let c = collective(1, "test");
    store.save_collective(&c);
    store.save_experience(&test_experience(c.id, 2));
    let (events, max_seq) = store.poll_watch_events(0, 100);
    assert_eq!(events.len(), 2);
    assert_eq!(max_seq, 2);
    let (events, max_seq) = store.poll_watch_events(2, 100);
    assert_eq!(events.len(), 0);
    assert_eq!(max_seq, 2);
}

#[test]
fn test_delete_records_watch_event() {
    let mut store = MemStore::default();
    let c = collective(1, "test");
    store.save_collective(&c);
    let exp = test_experience(c.id, 2);
    store.save_experience(&exp);
    store.delete_experience(exp.id);
    let (events, max_seq) = store.poll_watch_events(0, 100);
    assert_eq!(events.len(), 3);
    assert_eq!(max_seq, 3);
    assert_eq!(events[0].event_type, WatchEventTypeTag::Created);
    assert_eq!(events[1].event_type, WatchEventTypeTag::Created);
    assert_eq!(events[2].event_type, WatchEventTypeTag::Deleted);
    assert_eq!(events[2].entity_id, exp.id.as_bytes());
}

#[test]
fn test_update_records_watch_event() {
    let mut store = MemStore::default();
    let c = collective(1, "test");
    store.save_collective(&c);
    let exp = test_experience(c.id, 2);
    store.save_experience(&exp);
    store.update_experience(
        exp.id,
        ExperienceUpdate { importance: Some(0.99f32.to_bits()), ..Default::default() },
    );
    let (events, _) = store.poll_watch_events(0, 100);
    assert_eq!(events.len(), 3);
    assert_eq!(events[2].event_type, WatchEventTypeTag::Updated);
}

#[test]
fn test_reinforce_records_watch_event() {
    let mut store = MemStore::default();
    let c = collective(1, "test");
    store.save_collective(&c);
    let exp = test_experience(c.id, 2);
    store.save_experience(&exp);
    store.reinforce_experience(exp.id);
    let (events, _) = store.poll_watch_events(0, 100);
    assert_eq!(events.len(), 3);
    assert_eq!(events[1].event_type, WatchEventTypeTag::Created);
    assert_eq!(events[2].event_type, WatchEventTypeTag::Updated);
}

#[test]
fn test_archive_records_archived_event() {
    let mut store = MemStore::default();
    let c = collective(1, "test");
    store.save_collective(&c);
    let exp = test_experience(c.id, 2);
    store.save_experience(&exp);
    store.update_experience(
        exp.id,
        ExperienceUpdate { archived: Some(true), ..Default::default() },
    );
    let (events, _) = store.poll_watch_events(0, 100);
    assert_eq!(events.len(), 3);
    assert_eq!(events[2].event_type, WatchEventTypeTag::Archived);
}

#[test]
fn test_poll_watch_events_batch_limit() {
    let mut store = MemStore::default();
    let c = collective(1, "test");
    store.save_collective(&c);
    for n in 2..12u8 {
        store.save_experience(&test_experience(c.id, n));
    }
    let (events, max_seq) = store.poll_watch_events(0, 3);
    assert_eq!(events.len(), 3);
    assert_eq!(max_seq, 3);
    let (events, max_seq) = store.poll_watch_events(3, 3);
    assert_eq!(events.len(), 3);
    assert_eq!(max_seq, 6);
    let rows = poll_sync_events(&store.log(), 6, 2);
    assert_eq!(rows.iter().map(|r| r.0).collect::<Vec<u64>>(), vec![7, 8]);
    let (events, max_seq) = store.poll_watch_events(3, 0);
    assert_eq!(events.len(), 0);
    assert_eq!(max_seq, 3);
    assert!(poll_sync_events(&store.log(), 0, 0).is_empty());
}

#[test]
fn compaction_removes_the_acknowledged_head_only() {
    let mut store = MemStore::default();
    for n in 2..7u8 {
        store.save_experience(&test_experience(CollectiveId::from_bytes([1; 16]), n));
    }
    let sequences: Vec<u64> = store.log().iter().map(|r| r.0).collect();
    let (plan, removed) = compact_wal_events(&sequences, 3);
    store.run(plan);
    assert_eq!(removed, 3);
    assert_eq!(store.log().iter().map(|r| r.0).collect::<Vec<u64>>(), vec![4, 5]);
    assert_eq!(store.wal_sequence(), 5);
}

#[test]
fn first_form_log_rows_become_experience_events() {
    let row = WatchEventRecordV1 {
        experience_id: [5; 16],
        collective_id: [6; 16],
        event_type: WatchEventTypeTag::Archived,
        timestamp_ms: 99,
    };
    let mut store = MemStore::default();
    store.run(migrate_wal_v1_to_v2(&vec![([0, 0, 0, 0, 0, 0, 0, 1], row)]));
    let log = store.log();
    assert_eq!(log[0].0, 1);
    assert_eq!(log[0].1.entity_id, [5; 16]);
    assert_eq!(log[0].1.collective_id, [6; 16]);
    assert_eq!(log[0].1.entity_type, EntityTypeTag::Experience);
    assert_eq!(log[0].1.event_type, WatchEventTypeTag::Archived);
    assert_eq!(log[0].1.timestamp_ms, 99);
}

fn relation(n: u8, source: u8, target: u8) -> ExperienceRelation {
    ExperienceRelation {
        id: RelationId::from_bytes([n; 16]),
        source_id: ExperienceId::from_bytes([source; 16]),
        target_id: ExperienceId::from_bytes([target; 16]),
        relation_type: RelationType { code: 1 },
        strength: 0.5f32.to_bits(),
        metadata: None,
        created_at: Timestamp::from_millis(5_000),
    }
}

#[test]
fn relations_are_indexed_both_ways_and_cascade_with_an_end() {
    let mut store = MemStore::default();
    let c = collective(1, "test");
    let a = test_experience(c.id, 40);
    let b = test_experience(c.id, 41);
    store.save_experience(&a);
    store.save_experience(&b);
    for (n, s, t) in [(50u8, 40u8, 41u8), (51, 41, 40), (52, 41, 41)] {
        let r = relation(n, s, t);
        let source = store.experiences.get(&r.source_id).cloned();
        let plan = save_relation(r, &source, &store.wal()).unwrap();
        store.run(plan);
    }
    assert_eq!(store.by_source.len(), 3);
    assert_eq!(store.by_target.len(), 3);
    let outgoing = vec![store.relations[&RelationId::from_bytes([50; 16])].clone()];
    assert!(relation_exists(&outgoing, b.id, RelationType { code: 1 }));
    assert!(!relation_exists(&outgoing, b.id, RelationType { code: 2 }));
    assert!(!relation_exists(&outgoing, a.id, RelationType { code: 1 }));

    let lost = save_relation(relation(60, 99, 40), &None, &store.wal()).unwrap_err();
    assert!(format!("{lost:?}").contains("relation source experience not found for WAL record"));

    let ids: Vec<RelationId> = store
        .by_source
        .iter()
        .filter(|(e, _)| *e == a.id)
        .chain(store.by_target.iter().filter(|(e, _)| *e == a.id))
        .map(|(_, r)| *r)
        .collect();
    let rows: Vec<ExperienceRelation> = ids.iter().map(|r| store.relations[r].clone()).collect();
    let (plan, count) = delete_relations_for_experience(&ids, &rows);
    store.run(plan);
    assert_eq!(count, 2);
    assert_eq!(store.relations.len(), 1);
    assert_eq!(store.by_source.len(), 1);
    assert_eq!(store.by_target.len(), 1);

    let last = RelationId::from_bytes([52; 16]);
    let found = store.relations.get(&last).cloned();
    let now = Timestamp::from_millis(7);
    let plan = delete_relation(last, &found, &None, now, &store.wal()).unwrap().unwrap();
    store.run(plan);
    assert!(store.relations.is_empty() && store.by_source.is_empty());
    assert_eq!(store.log().last().unwrap().1.collective_id, [0; 16]);
    assert!(delete_relation(last, &None, &None, now, &store.wal()).unwrap().is_none());
}

#[test]
fn insights_are_indexed_listed_and_removed_with_their_collective() {
    let mut store = MemStore::default();
    let c = collective(1, "test");
    for n in 1..5u8 {
        let x = DerivedInsight {
            id: InsightId::from_bytes([n; 16]),
            collective_id: c.id,
            content: "derived".to_string(),
            embedding: vec![0.5f32.to_bits(); 3],
            source_experience_ids: vec![],
            insight_type: InsightType { code: 1 },
            confidence: 0.9f32.to_bits(),
            domain: vec!["rust".to_string()],
            created_at: Timestamp::from_millis(n as i64),
            updated_at: Timestamp::from_millis(n as i64 + 1),
        };
        let plan = save_insight(x, &store.wal()).unwrap();
        store.run(plan);
    }
    let ids: Vec<InsightId> = store.insights_by_collective.iter().map(|(_, i)| *i).collect();
    assert_eq!(list_insight_ids_paginated(&ids, 2, 1), ids[1..3].to_vec());
    assert_eq!(list_insight_ids_paginated(&ids, 9, 3), ids[3..4].to_vec());
    assert_eq!(list_insight_ids_paginated(&ids, 0, 3), ids[3..4].to_vec());
    assert_eq!(list_insight_ids_paginated(&ids, 0, 4), vec![]);
    let one = ids[0];
    assert_eq!(store.insights[&one].embedding, vec![0.5f32.to_bits(); 3]);
    assert_eq!(store.insights[&one].updated_at, Timestamp::from_millis(2));
    let found = store.insights.get(&one).cloned();
    let plan =
        delete_insight(one, &found, Timestamp::from_millis(9), &store.wal()).unwrap().unwrap();
    store.run(plan);
    assert_eq!(store.insights.len(), 3);
    let (plan, count) = delete_insights_by_collective(c.id, &ids[1..].to_vec());
    store.run(plan);
    assert_eq!(count, 3);
    assert!(store.insights.is_empty() && store.insights_by_collective.is_empty());
}

#[test]
fn activities_are_kept_per_agent_and_collective() {
    let mut store = MemStore::default();
    let c = collective(1, "a");
    let d = collective(2, "b");
    for (agent, id) in [("x", c.id), ("y", c.id), ("x", d.id)] {
        store.run(save_activity(Activity {
            agent_id: agent.to_string(),
            collective_id: id,
            current_task: None,
            context_summary: Some("reading".to_string()),
            started_at: Timestamp::from_millis(0),
            last_heartbeat: Timestamp::from_millis(1),
        }));
    }
    assert_eq!(store.activities.len(), 3);
    for activity in store.activities.values() {
        assert_eq!(activity.context_summary.as_deref(), Some("reading"));
        assert_eq!(activity.started_at, Timestamp::from_millis(0));
    }
    let keys: Vec<Vec<u8>> = store.activities.keys().cloned().collect();
    assert_eq!(list_activities_in_collective(&keys, c.id).len(), 2);
    let found = store.activities.values().next().cloned();
    let (plan, existed) = delete_activity("x", c.id, &found);
    store.run(plan);
    assert!(existed);
    assert_eq!(store.activities.len(), 2);
    let keys: Vec<Vec<u8>> = store.activities.keys().cloned().collect();
    let (plan, count) = delete_activities_by_collective(&keys, c.id);
    store.run(plan);
    assert_eq!(count, 1);
    assert_eq!(store.activities.len(), 1);
    assert!(!delete_activity("x", c.id, &None::<Activity>).1);
}

#[test]
fn pages_cut_listings_in_order() {
    let mut store = MemStore::default();
    let c = collective(1, "test");
    for n in 1..6u8 {
        store.save_experience(&test_experience(c.id, n));
    }
    let entries = store.entries(c.id);
    let all = list_experience_ids_in_collective(&entries);
    assert_eq!(list_experience_ids_paginated(&entries, 2, 0), all[0..2].to_vec());
    assert_eq!(list_experience_ids_paginated(&entries, 2, 4), all[4..5].to_vec());
    assert_eq!(list_experience_ids_paginated(&entries, 2, 9), vec![]);
    assert_eq!(list_experience_ids_paginated(&entries, 0, 0), vec![]);
    let rows = vec![Some(relation(1, 1, 2)), None, Some(relation(2, 1, 2)), Some(relation(3, 1, 2))];
    assert_eq!(list_relations_in_collective(&rows, 2, 1), vec![2, 3]);
    assert_eq!(list_relations_in_collective(&rows, 0, 1), vec![2]);
    assert!(list_relations_in_collective(&rows, 0, 4).is_empty());
}

#[test]
fn stamping_writes_identity_and_moment_together() {
    let mut store = MemStore::default();
    assert!(!provider_identity_era_marker(&store.provider_stamped_at));
    let plan = stamp_provider_identity(vec![1, 2, 3], 300).unwrap();
    store.run(plan);
    assert_eq!(store.provider_identity, Some(vec![1, 2, 3]));
    assert_eq!(store.provider_stamped_at, Some(vec![0xAC, 0x02]));
    assert_eq!(postcard::to_stdvec(&300u64).unwrap(), vec![0xAC, 0x02]);
    assert!(provider_identity_era_marker(&store.provider_stamped_at));
}

#[test]
fn a_cursor_replaces_the_one_of_the_same_peer() {
    let mut store = MemStore::default();
    let peer = InstanceId::from_bytes([1; 16]);
    for n in [3u64, 8] {
        store.run(save_sync_cursor(SyncCursor {
            instance_id: peer,
            push_sequence: n,
            pull_sequence: n + 1,
        }));
    }
    assert_eq!(store.cursors.len(), 1);
    assert_eq!(store.cursors[&peer].push_sequence, 8);
}
