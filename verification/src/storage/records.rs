//! Collectives, relations, insights, activities, cursors and the provider
//! identity.

use vstd::prelude::*;

use crate::error::StorageError;
use crate::model::{Activity, Collective, DerivedInsight, Experience, ExperienceRelation, RelationType, SyncCursor};
use crate::storage::cascade::lemma_contains_push;
use crate::storage::decay::{DecayConfig, StoredDecayConfig};
use crate::storage::experiences::{array16, lemma_array16};
use crate::storage::schema::{
    decode_collective_from_activity_key, encode_activity_key, EntityTypeTag, WatchEventRecord,
    WatchEventTypeTag,
};
use crate::storage::store::{Plan, StoreOp, StoreView};
use crate::storage::wal::{increment_wal_and_record, WalContext};
use crate::types::{CollectiveId, ExperienceId, InsightId, RelationId, Timestamp};

verus! {

/// The event for a change of an entity other than an experience.
pub open spec fn entity_event(
    id: Seq<u8>,
    collective: CollectiveId,
    entity_type: EntityTypeTag,
    event_type: WatchEventTypeTag,
    timestamp: Timestamp,
) -> WatchEventRecord {
    crate::storage::wal::event_record(
        array16(id),
        array16(collective.spec_bytes()),
        entity_type,
        event_type,
        timestamp,
    )
}

/// Appends the event for a change of an entity.
fn record_entity_event(
    plan: &mut Plan,
    wal: &WalContext,
    id: [u8; 16],
    collective: CollectiveId,
    entity_type: EntityTypeTag,
    event_type: WatchEventTypeTag,
    timestamp: Timestamp,
) -> (sequence: Result<u64, StorageError>)
    requires
        wal.has_room(),
    ensures
        sequence is Ok <==> wal.records(),
        sequence matches Ok(n) ==> n == wal.next(),
        sequence matches Err(e) ==> crate::storage::wal::bad_counter(e),
        forall|s: StoreView| #[trigger]
            final(plan).effect(s) == if wal.records() {
                wal.logged(
                    old(plan).effect(s),
                    entity_event(id@, collective, entity_type, event_type, timestamp),
                )
            } else {
                old(plan).effect(s)
            },
{
    let group: [u8; 16] = collective.as_bytes();
    proof {
        lemma_array16(id);
        lemma_array16(group);
    }
    increment_wal_and_record(plan, wal, id, group, entity_type, event_type, timestamp)
}

// ---------------------------------------------------------------------------
// Collectives
// ---------------------------------------------------------------------------

/// Stores a collective and records the event.
pub fn save_collective(collective: Collective, wal: &WalContext) -> (plan: Result<
    Plan,
    StorageError,
>)
    requires
        wal.has_room(),
    ensures
        plan is Ok <==> wal.records(),
        plan matches Err(e) ==> crate::storage::wal::bad_counter(e),
        plan matches Ok(p) ==> forall|s: StoreView| #[trigger]
            p.effect(s) == wal.logged(
                StoreView { collectives: s.collectives.insert(collective.id, collective), ..s },
                entity_event(
                    collective.id.spec_bytes(),
                    collective.id,
                    EntityTypeTag::Collective,
                    WatchEventTypeTag::Created,
                    collective.created_at,
                ),
            ),
{
    let id = collective.id;
    let created_at = collective.created_at;
    let mut plan = Plan::new();
    plan.push(StoreOp::PutCollective(id, collective));
    match record_entity_event(
        &mut plan,
        wal,
        id.as_bytes(),
        id,
        EntityTypeTag::Collective,
        WatchEventTypeTag::Created,
        created_at,
    ) {
        Err(e) => Err(e),
        Ok(_) => Ok(plan),
    }
}

/// Removes a collective's record, and says whether it was there; no event is
/// recorded. `found` is the record in whatever form it is stored.
pub fn delete_collective<T>(id: CollectiveId, found: &Option<T>) -> (out: (Plan, bool))
    ensures
        out.1 == (found is Some),
        forall|s: StoreView| #[trigger]
            out.0.effect(s) == (StoreView { collectives: s.collectives.remove(id), ..s }),
{
    let mut plan = Plan::new();
    plan.push(StoreOp::RemoveCollective(id));
    (plan, found.is_some())
}

/// Stores the decay configuration of a collective.
pub fn set_decay_config(collective: CollectiveId, config: &DecayConfig) -> (plan: Plan)
    ensures
        forall|s: StoreView| #[trigger]
            plan.effect(s) == (StoreView {
                decay_configs: s.decay_configs.insert(collective, StoredDecayConfig::of(*config)),
                ..s
            }),
{
    let mut plan = Plan::new();
    plan.push(StoreOp::PutDecayConfig(collective, StoredDecayConfig::from_config(config)));
    plan
}

// ---------------------------------------------------------------------------
// Relations
// ---------------------------------------------------------------------------

/// The store with relation `r` in its three tables.
pub open spec fn with_relation(s: StoreView, r: ExperienceRelation) -> StoreView {
    StoreView {
        relations: s.relations.insert(r.id, r),
        by_source: s.by_source.insert((r.source_id, r.id)),
        by_target: s.by_target.insert((r.target_id, r.id)),
        ..s
    }
}

/// The store without relation `id` in its three tables, where `r` is its record.
pub open spec fn without_relation(s: StoreView, id: RelationId, r: ExperienceRelation) -> StoreView {
    StoreView {
        relations: s.relations.remove(id),
        by_source: s.by_source.remove((r.source_id, id)),
        by_target: s.by_target.remove((r.target_id, id)),
        ..s
    }
}

/// Whether `e` is the failure reported for a relation whose source is absent.
pub open spec fn missing_source(e: StorageError) -> bool {
    e matches StorageError::Corrupted(m) && m@
        == "relation source experience not found for WAL record"@
}

/// Stores a relation in its three tables and records the event under the
/// collective of its source experience, which must be there.
pub fn save_relation(relation: ExperienceRelation, source: &Option<Experience>, wal: &WalContext) -> (
plan: Result<Plan, StorageError>)
    requires
        wal.has_room(),
    ensures
        plan is Ok <==> source is Some && wal.records(),
        plan matches Err(e) ==> if *source is None {
            missing_source(e)
        } else {
            crate::storage::wal::bad_counter(e)
        },
        *source matches Some(x) ==> (plan matches Ok(p) ==> forall|s: StoreView| #[trigger]
            p.effect(s) == wal.logged(
                with_relation(s, relation),
                entity_event(
                    relation.id.spec_bytes(),
                    x.collective_id,
                    EntityTypeTag::Relation,
                    WatchEventTypeTag::Created,
                    relation.created_at,
                ),
            )),
{
    let id = relation.id;
    let source_id = relation.source_id;
    let target_id = relation.target_id;
    let created_at = relation.created_at;
    let collective = match source {
        Some(x) => x.collective_id,
        None => {
            return Err(
                StorageError::corrupted("relation source experience not found for WAL record"),
            );
        },
    };
    let mut plan = Plan::new();
    plan.push(StoreOp::PutRelation(id, relation));
    plan.push(StoreOp::LinkBySource(source_id, id));
    plan.push(StoreOp::LinkByTarget(target_id, id));
    match record_entity_event(
        &mut plan,
        wal,
        id.as_bytes(),
        collective,
        EntityTypeTag::Relation,
        WatchEventTypeTag::Created,
        created_at,
    ) {
        Err(e) => Err(e),
        Ok(_) => Ok(plan),
    }
}

/// The collective a relation is logged under: its source's, or the nil collective
/// where the source is gone.
pub open spec fn relation_collective(source: Option<Experience>) -> CollectiveId {
    match source {
        Some(x) => x.collective_id,
        None => CollectiveId { value: 0 },
    }
}

/// Removes a relation from its three tables and records the event at `now`.
/// Nothing is written for a relation that is not there.
pub fn delete_relation(
    id: RelationId,
    found: &Option<ExperienceRelation>,
    source: &Option<Experience>,
    now: Timestamp,
    wal: &WalContext,
) -> (plan: Result<Option<Plan>, StorageError>)
    requires
        wal.has_room(),
    ensures
        plan is Err <==> found is Some && !wal.records(),
        plan matches Err(e) ==> crate::storage::wal::bad_counter(e),
        plan matches Ok(p) ==> (p is Some <==> found is Some),
        *found matches Some(r) ==> (plan matches Ok(Some(p)) ==> forall|s: StoreView| #[trigger]
            p.effect(s) == wal.logged(
                without_relation(s, id, r),
                entity_event(
                    id.spec_bytes(),
                    relation_collective(*source),
                    EntityTypeTag::Relation,
                    WatchEventTypeTag::Deleted,
                    now,
                ),
            )),
{
    match found {
        None => Ok(None),
        Some(r) => {
            let collective = match source {
                Some(x) => x.collective_id,
                None => CollectiveId::nil(),
            };
            let mut plan = Plan::new();
            plan.push(StoreOp::RemoveRelation(id));
            plan.push(StoreOp::UnlinkBySource(r.source_id, id));
            plan.push(StoreOp::UnlinkByTarget(r.target_id, id));
            match record_entity_event(
                &mut plan,
                wal,
                id.as_bytes(),
                collective,
                EntityTypeTag::Relation,
                WatchEventTypeTag::Deleted,
                now,
            ) {
                Err(e) => Err(e),
                Ok(_) => Ok(Some(plan)),
            }
        },
    }
}

/// Whether one of the relations found under a source experience leads to
/// `target_id` with kind `relation_type`.
pub fn relation_exists(
    outgoing: &Vec<ExperienceRelation>,
    target_id: ExperienceId,
    relation_type: RelationType,
) -> (yes: bool)
    ensures
        yes <==> exists|i: int|
            #![trigger outgoing@[i]]
            0 <= i < outgoing@.len() && outgoing@[i].target_id == target_id
                && outgoing@[i].relation_type == relation_type,
{
    let mut i: usize = 0;
    while i < outgoing.len()
        invariant
            i <= outgoing@.len(),
            forall|j: int|
                #![trigger outgoing@[j]]
                0 <= j < i ==> !(outgoing@[j].target_id == target_id && outgoing@[j].relation_type
                    == relation_type),
        decreases outgoing@.len() - i,
    {
        if outgoing[i].target_id == target_id && outgoing[i].relation_type == relation_type {
            return true;
        }
        i = i + 1;
    }
    false
}

// ---------------------------------------------------------------------------
// Insights
// ---------------------------------------------------------------------------

/// The store with insight `x` in its two tables.
pub open spec fn with_insight(s: StoreView, x: DerivedInsight) -> StoreView {
    StoreView {
        insights: s.insights.insert(x.id, x),
        insights_by_collective: s.insights_by_collective.insert((x.collective_id, x.id)),
        ..s
    }
}

/// The store without insight `id` in its two tables, where `x` is its record.
pub open spec fn without_insight(s: StoreView, id: InsightId, x: DerivedInsight) -> StoreView {
    StoreView {
        insights: s.insights.remove(id),
        insights_by_collective: s.insights_by_collective.remove((x.collective_id, id)),
        ..s
    }
}

/// Stores an insight in its two tables and records the event.
pub fn save_insight(insight: DerivedInsight, wal: &WalContext) -> (plan: Result<Plan, StorageError>)
    requires
        wal.has_room(),
    ensures
        plan is Ok <==> wal.records(),
        plan matches Err(e) ==> crate::storage::wal::bad_counter(e),
        plan matches Ok(p) ==> forall|s: StoreView| #[trigger]
            p.effect(s) == wal.logged(
                with_insight(s, insight),
                entity_event(
                    insight.id.spec_bytes(),
                    insight.collective_id,
                    EntityTypeTag::Insight,
                    WatchEventTypeTag::Created,
                    insight.created_at,
                ),
            ),
{
    let id = insight.id;
    let collective = insight.collective_id;
    let created_at = insight.created_at;
    let mut plan = Plan::new();
    plan.push(StoreOp::PutInsight(id, insight));
    plan.push(StoreOp::LinkInsight(collective, id));
    match record_entity_event(
        &mut plan,
        wal,
        id.as_bytes(),
        collective,
        EntityTypeTag::Insight,
        WatchEventTypeTag::Created,
        created_at,
    ) {
        Err(e) => Err(e),
        Ok(_) => Ok(plan),
    }
}

/// Removes an insight from its two tables and records the event at `now`.
/// Nothing is written for an insight that is not there.
pub fn delete_insight(
    id: InsightId,
    found: &Option<DerivedInsight>,
    now: Timestamp,
    wal: &WalContext,
) -> (plan: Result<Option<Plan>, StorageError>)
    requires
        wal.has_room(),
    ensures
        plan is Err <==> found is Some && !wal.records(),
        plan matches Err(e) ==> crate::storage::wal::bad_counter(e),
        plan matches Ok(p) ==> (p is Some <==> found is Some),
        *found matches Some(x) ==> (plan matches Ok(Some(p)) ==> forall|s: StoreView| #[trigger]
            p.effect(s) == wal.logged(
                without_insight(s, id, x),
                entity_event(
                    id.spec_bytes(),
                    x.collective_id,
                    EntityTypeTag::Insight,
                    WatchEventTypeTag::Deleted,
                    now,
                ),
            )),
{
    match found {
        None => Ok(None),
        Some(x) => {
            let collective = x.collective_id;
            let mut plan = Plan::new();
            plan.push(StoreOp::RemoveInsight(id));
            plan.push(StoreOp::UnlinkInsight(collective, id));
            match record_entity_event(
                &mut plan,
                wal,
                id.as_bytes(),
                collective,
                EntityTypeTag::Insight,
                WatchEventTypeTag::Deleted,
                now,
            ) {
                Err(e) => Err(e),
                Ok(_) => Ok(Some(plan)),
            }
        },
    }
}

// ---------------------------------------------------------------------------
// Activities
// ---------------------------------------------------------------------------

/// The key an activity is stored under.
pub open spec fn activity_row_key(collective: CollectiveId, agent: Seq<char>) -> Seq<u8> {
    crate::storage::schema::activity_key(
        collective.spec_bytes(),
        vstd::utf8::encode_utf8(agent),
    )
}

/// Stores an agent's activity; an earlier one of the same agent in the same
/// collective is replaced.
pub fn save_activity(activity: Activity) -> (plan: Plan)
    ensures
        forall|s: StoreView| #[trigger]
            plan.effect(s) == (StoreView {
                activities: s.activities.insert(
                    activity_row_key(activity.collective_id, activity.agent_id@),
                    activity,
                ),
                ..s
            }),
{
    let key = encode_activity_key(
        &activity.collective_id.as_bytes(),
        activity.agent_id.as_str(),
    );
    let mut plan = Plan::new();
    plan.push(StoreOp::PutActivity(key, activity));
    plan
}

/// Removes an agent's activity in a collective, and says whether it was there. `found` is
/// the record in whatever form it is stored.
pub fn delete_activity<T>(agent_id: &str, collective: CollectiveId, found: &Option<T>) -> (out: (
    Plan,
    bool,
))
    ensures
        out.1 == (found is Some),
        forall|s: StoreView| #[trigger]
            out.0.effect(s) == (StoreView {
                activities: s.activities.remove(activity_row_key(collective, agent_id@)),
                ..s
            }),
{
    let key = encode_activity_key(&collective.as_bytes(), agent_id);
    let mut plan = Plan::new();
    plan.push(StoreOp::RemoveActivity(key));
    (plan, found.is_some())
}

/// Whether an activity key belongs to `collective`: it is long enough, and opens
/// with the collective's bytes.
pub open spec fn is_activity_of(key: Seq<u8>, collective: CollectiveId) -> bool {
    key.len() >= 16 && key.subrange(0, 16) == collective.spec_bytes()
}

/// Whether an activity key belongs to `collective`.
pub fn activity_in_collective(key: &[u8], collective: CollectiveId) -> (yes: bool)
    ensures
        yes == is_activity_of(key@, collective),
{
    if key.len() < 16 {
        return false;
    }
    let prefix: [u8; 16] = decode_collective_from_activity_key(key);
    let found = CollectiveId::from_bytes(prefix);
    proof {
        if found.spec_bytes() == collective.spec_bytes() {
            crate::bytes::lemma_pow256_values();
            crate::bytes::lemma_be_round_trip(found.value as nat, 16);
            crate::bytes::lemma_be_round_trip(collective.value as nat, 16);
        }
    }
    found == collective
}

/// The keys among `keys` that belong to `collective`.
pub open spec fn activity_keys_of(keys: Seq<Vec<u8>>, collective: CollectiveId) -> Set<Seq<u8>> {
    Set::new(
        |key: Seq<u8>|
            is_activity_of(key, collective) && exists|i: int|
                #![trigger keys[i]]
                0 <= i < keys.len() && keys[i]@ == key,
    )
}

/// How many of `keys` belong to `collective`.
pub open spec fn activity_count(keys: Seq<Vec<u8>>, collective: CollectiveId) -> nat
    decreases keys.len(),
{
    if keys.len() == 0 {
        0
    } else {
        activity_count(keys.drop_last(), collective) + if is_activity_of(keys.last()@, collective) {
            1nat
        } else {
            0nat
        }
    }
}

/// Positions of the rows that hold activities of `collective`, in key order.
pub fn list_activities_in_collective(keys: &Vec<Vec<u8>>, collective: CollectiveId) -> (rows: Vec<
    usize,
>)
    ensures
        forall|i: int, j: int| 0 <= i < j < rows@.len() ==> rows@[i] < rows@[j],
        forall|k: int|
            #![trigger keys@[k]]
            0 <= k < keys@.len() ==> (rows@.contains(k as usize) <==> is_activity_of(
                keys@[k]@,
                collective,
            )),
        forall|i: int| #![trigger rows@[i]] 0 <= i < rows@.len() ==> rows@[i] < keys@.len(),
        rows@.len() == activity_count(keys@, collective),
{
    let mut rows: Vec<usize> = Vec::new();
    let mut i: usize = 0;
    while i < keys.len()
        invariant
            i <= keys@.len(),
            forall|a: int, b: int| 0 <= a < b < rows@.len() ==> rows@[a] < rows@[b],
            forall|a: int| #![trigger rows@[a]] 0 <= a < rows@.len() ==> rows@[a] < i,
            rows@.len() == activity_count(keys@.take(i as int), collective),
            forall|k: int|
                #![trigger keys@[k]]
                0 <= k < i ==> (rows@.contains(k as usize) <==> is_activity_of(
                    keys@[k]@,
                    collective,
                )),
        decreases keys@.len() - i,
    {
        let ghost before = rows@;
        proof {
            assert(keys@.take(i + 1).drop_last() =~= keys@.take(i as int));
        }
        if activity_in_collective(keys[i].as_slice(), collective) {
            rows.push(i);
            proof {
                assert forall|k: usize| #[trigger] rows@.contains(k) <==> (before.contains(k) || k
                    == i) by {
                    lemma_contains_push(before, i, k);
                }
            }
        }
        proof {
            if rows@ == before && rows@.contains(i) {
                let a = choose|a: int| 0 <= a < rows@.len() && rows@[a] == i;
                assert(rows@[a] < i);
            }
        }
        i = i + 1;
    }
    proof {
        assert(keys@.take(i as int) =~= keys@);
    }
    rows
}

/// Removes every activity of a collective; returns how many there were. `keys`
/// are the keys of the activity table. Nothing is written where there is none.
pub fn delete_activities_by_collective(keys: &Vec<Vec<u8>>, collective: CollectiveId) -> (out: (
    Plan,
    u64,
))
    ensures
        out.1 == activity_count(keys@, collective),
        out.1 == 0 ==> out.0.ops@.len() == 0,
        forall|s: StoreView| #[trigger]
            out.0.effect(s) == (StoreView {
                activities: s.activities.remove_keys(activity_keys_of(keys@, collective)),
                ..s
            }),
{
    let mut plan = Plan::new();
    let mut count: u64 = 0;
    let mut i: usize = 0;
    proof {
        assert forall|s: StoreView| #[trigger] plan.effect(s) == (StoreView {
            activities: s.activities.remove_keys(activity_keys_of(keys@.take(0), collective)),
            ..s
        }) by {
            assert(s.activities.remove_keys(activity_keys_of(keys@.take(0), collective))
                =~= s.activities);
        }
    }
    while i < keys.len()
        invariant
            i <= keys@.len(),
            count <= i,
            count == activity_count(keys@.take(i as int), collective),
            count == 0 ==> plan.ops@.len() == 0,
            forall|s: StoreView| #[trigger]
                plan.effect(s) == (StoreView {
                    activities: s.activities.remove_keys(
                        activity_keys_of(keys@.take(i as int), collective),
                    ),
                    ..s
                }),
        decreases keys@.len() - i,
    {
        let ghost seen = keys@.take(i as int);
        let ghost next = keys@.take(i + 1);
        let ghost before = plan;
        let ghost key = keys@[i as int]@;
        proof {
            assert(next.drop_last() =~= seen);
            assert(next =~= seen.push(keys@[i as int]));
        }
        if activity_in_collective(keys[i].as_slice(), collective) {
            let owned: Vec<u8> = copy_bytes(keys[i].as_slice());
            plan.push(StoreOp::RemoveActivity(owned));
            count = count + 1;
        }
        proof {
            assert forall|k: Seq<u8>| #[trigger] activity_keys_of(next, collective).contains(k)
                <==> (activity_keys_of(seen, collective).contains(k) || (is_activity_of(
                key,
                collective,
            ) && k == key)) by {
                if activity_keys_of(seen, collective).contains(k) {
                    let j = choose|j: int| #![trigger seen[j]] 0 <= j < seen.len() && seen[j]@ == k;
                    assert(next[j] == seen[j]);
                }
                if k == key {
                    assert(next[i as int]@ == key);
                }
                if activity_keys_of(next, collective).contains(k) {
                    let j = choose|j: int| #![trigger next[j]] 0 <= j < next.len() && next[j]@ == k;
                    if j < i {
                        assert(seen[j] == next[j]);
                    }
                }
            }
            assert forall|s: StoreView| #[trigger] plan.effect(s) == (StoreView {
                activities: s.activities.remove_keys(activity_keys_of(next, collective)),
                ..s
            }) by {
                let rest = s.activities.remove_keys(activity_keys_of(seen, collective));
                assert(before.effect(s) == (StoreView { activities: rest, ..s }));
                if is_activity_of(key, collective) {
                    assert(rest.remove(key) =~= s.activities.remove_keys(
                        activity_keys_of(next, collective),
                    ));
                } else {
                    assert(rest =~= s.activities.remove_keys(activity_keys_of(next, collective)));
                }
            }
        }
        i = i + 1;
    }
    proof {
        assert(keys@.take(i as int) =~= keys@);
    }
    (plan, count)
}

/// An owned copy of `bytes`.
pub fn copy_bytes(bytes: &[u8]) -> (out: Vec<u8>)
    ensures
        out@ == bytes@,
{
    let mut out: Vec<u8> = Vec::new();
    out.extend_from_slice(bytes);
    assert(out@ =~= bytes@);
    out
}

// ---------------------------------------------------------------------------
// Sync cursors and provider identity
// ---------------------------------------------------------------------------

/// Stores how far syncing with a peer has come.
pub fn save_sync_cursor(cursor: SyncCursor) -> (plan: Plan)
    ensures
        forall|s: StoreView| #[trigger]
            plan.effect(s) == (StoreView {
                cursors: s.cursors.insert(cursor.instance_id, cursor),
                ..s
            }),
{
    let mut plan = Plan::new();
    plan.push(StoreOp::PutCursor(cursor.instance_id, cursor));
    plan
}

} // verus!
