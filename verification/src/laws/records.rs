//! What becomes of collectives, relations, insights, activities, cursors and decay
//! configurations, and of the log beside them.

use vstd::prelude::*;

use crate::error::StorageError;
use crate::laws::experiences::{law_recorded_event, logs_one};
use crate::model::{
    Activity, Collective, DerivedInsight, Experience, ExperienceRelation, RelationType, SyncCursor,
};
use crate::storage::decay::{
    get_decay_config, DecayConfig, StoredDecayConfig, StoredDecayConfigV1,
};
use crate::storage::provider::{provider_identity_era_marker, stamp_provider_identity};
use crate::storage::records::{
    activity_in_collective, activity_keys_of, activity_row_key, delete_activities_by_collective,
    delete_activity, delete_collective, delete_insight, delete_relation, entity_event,
    list_activities_in_collective, relation_collective, relation_exists, save_activity,
    save_collective, save_insight, save_relation, save_sync_cursor, set_decay_config, with_insight,
    with_relation, without_insight, without_relation,
};
use crate::storage::schema::{EntityTypeTag, WatchEventTypeTag};
use crate::storage::store::{Plan, StoreView};
use crate::storage::wal::WalContext;
use crate::types::{CollectiveId, ExperienceId, InsightId, RelationId, Timestamp};

verus! {

proof fn lemma_id_len(value: u128)
    ensures
        crate::bytes::be(value as nat, 16).len() == 16,
{
    crate::bytes::lemma_be_len(value as nat, 16);
}

/// Whether nothing changed but the tables of collectives, relations and insights, and the
/// log.
pub open spec fn only_entities_changed(before: StoreView, after: StoreView) -> bool {
    &&& after.metadata == before.metadata
    &&& after.marker == before.marker
    &&& after.instance_id == before.instance_id
    &&& after.provider_identity == before.provider_identity
    &&& after.provider_stamped_at == before.provider_stamped_at
    &&& after.decay_configs == before.decay_configs
    &&& after.experiences == before.experiences
    &&& after.embeddings == before.embeddings
    &&& after.by_collective == before.by_collective
    &&& after.by_type == before.by_type
    &&& after.activities == before.activities
    &&& after.cursors == before.cursors
}

/// Whether the tables of collectives did not change.
pub open spec fn collectives_kept(before: StoreView, after: StoreView) -> bool {
    after.collectives == before.collectives
}

/// Whether the tables of relations did not change.
pub open spec fn relations_kept(before: StoreView, after: StoreView) -> bool {
    &&& after.relations == before.relations
    &&& after.by_source == before.by_source
    &&& after.by_target == before.by_target
}

/// Whether the tables of insights did not change.
pub open spec fn insights_kept(before: StoreView, after: StoreView) -> bool {
    &&& after.insights == before.insights
    &&& after.insights_by_collective == before.insights_by_collective
}

// ---------------------------------------------------------------------------
// Collectives
// ---------------------------------------------------------------------------

/// A stored collective is found under its identifier as it was given. Its creation is logged
/// under the collective itself, at the moment it was created. Nothing else changes.
pub proof fn law_saved_collective(
    c: Collective,
    wal: &WalContext,
    r: Result<Plan, StorageError>,
    s: StoreView,
)
    requires
        wal.has_room(),
        call_ensures(save_collective, (c, wal), r),
    ensures
        r is Ok <==> wal.applying || (wal.stored matches Some(bytes) ==> bytes@.len() == 8),
        r matches Ok(plan) ==> {
            let after = plan.effect(s);
            &&& after.collectives == s.collectives.insert(c.id, c)
            &&& relations_kept(s, after)
            &&& insights_kept(s, after)
            &&& only_entities_changed(s, after)
            &&& logs_one(
                s,
                after,
                *wal,
                c.id.spec_bytes(),
                c.id.spec_bytes(),
                EntityTypeTag::Collective,
                WatchEventTypeTag::Created,
                c.created_at,
            )
        },
{
    assert(r is Ok <==> wal.records());
    if wal.records() {
        let t = StoreView { collectives: s.collectives.insert(c.id, c), ..s };
        assert(r->Ok_0.effect(s) == wal.logged(
            t,
            entity_event(
                c.id.spec_bytes(),
                c.id,
                EntityTypeTag::Collective,
                WatchEventTypeTag::Created,
                c.created_at,
            ),
        ));
        lemma_id_len(c.id.value);
        law_recorded_event(
            t,
            *wal,
            c.id.spec_bytes(),
            c.id.spec_bytes(),
            EntityTypeTag::Collective,
            WatchEventTypeTag::Created,
            c.created_at,
        );
    }
}

/// Deleting a collective's record says whether it was there, removes that record, and
/// changes nothing else.
pub proof fn law_deleted_collective(
    id: CollectiveId,
    found: &Option<Collective>,
    out: (Plan, bool),
    s: StoreView,
)
    requires
        call_ensures(delete_collective::<Collective>, (id, found), out),
    ensures
        out.1 <==> *found is Some,
        out.0.effect(s) == (StoreView { collectives: s.collectives.remove(id), ..s }),
{
}

// ---------------------------------------------------------------------------
// Relations
// ---------------------------------------------------------------------------

/// A relation is stored exactly where its source experience is there and the counter of the
/// log is readable. It is then found under its identifier and from both its ends, and its
/// creation is logged under the collective of its source, at the moment it was created.
pub proof fn law_saved_relation(
    x: ExperienceRelation,
    source: &Option<Experience>,
    wal: &WalContext,
    r: Result<Plan, StorageError>,
    s: StoreView,
)
    requires
        wal.has_room(),
        call_ensures(save_relation, (x, source, wal), r),
    ensures
        r is Ok <==> *source is Some && (wal.applying || (wal.stored matches Some(bytes)
            ==> bytes@.len() == 8)),
        r matches Ok(plan) ==> {
            let after = plan.effect(s);
            &&& after.relations == s.relations.insert(x.id, x)
            &&& after.by_source == s.by_source.insert((x.source_id, x.id))
            &&& after.by_target == s.by_target.insert((x.target_id, x.id))
            &&& collectives_kept(s, after)
            &&& insights_kept(s, after)
            &&& only_entities_changed(s, after)
            &&& logs_one(
                s,
                after,
                *wal,
                x.id.spec_bytes(),
                source->Some_0.collective_id.spec_bytes(),
                EntityTypeTag::Relation,
                WatchEventTypeTag::Created,
                x.created_at,
            )
        },
{
    assert(r is Ok <==> *source is Some && wal.records());
    if r is Ok {
        let e = source->Some_0;
        let t = with_relation(s, x);
        assert(r->Ok_0.effect(s) == wal.logged(
            t,
            entity_event(
                x.id.spec_bytes(),
                e.collective_id,
                EntityTypeTag::Relation,
                WatchEventTypeTag::Created,
                x.created_at,
            ),
        ));
        lemma_id_len(x.id.value);
        lemma_id_len(e.collective_id.value);
        law_recorded_event(
            t,
            *wal,
            x.id.spec_bytes(),
            e.collective_id.spec_bytes(),
            EntityTypeTag::Relation,
            WatchEventTypeTag::Created,
            x.created_at,
        );
    }
}

/// Deleting a relation that is not there writes nothing. Deleting one that is removes it
/// from its three tables and logs a deletion at the moment of deleting, under the collective
/// of its source, or under the nil collective where the source is gone.
pub proof fn law_deleted_relation(
    id: RelationId,
    found: &Option<ExperienceRelation>,
    source: &Option<Experience>,
    now: Timestamp,
    wal: &WalContext,
    r: Result<Option<Plan>, StorageError>,
    s: StoreView,
)
    requires
        wal.has_room(),
        call_ensures(delete_relation, (id, found, source, now, wal), r),
    ensures
        *found is None ==> r is Ok && r->Ok_0 is None,
        *found is Some ==> (r is Ok <==> wal.applying || (wal.stored matches Some(bytes)
            ==> bytes@.len() == 8)),
        *found is Some && r is Ok ==> r->Ok_0 is Some && {
            let x = found->Some_0;
            let after = r->Ok_0->Some_0.effect(s);
            let nil = CollectiveId { value: 0 };
            &&& after.relations == s.relations.remove(id)
            &&& after.by_source == s.by_source.remove((x.source_id, id))
            &&& after.by_target == s.by_target.remove((x.target_id, id))
            &&& collectives_kept(s, after)
            &&& insights_kept(s, after)
            &&& only_entities_changed(s, after)
            &&& *source is Some ==> logs_one(
                s,
                after,
                *wal,
                id.spec_bytes(),
                source->Some_0.collective_id.spec_bytes(),
                EntityTypeTag::Relation,
                WatchEventTypeTag::Deleted,
                now,
            )
            &&& *source is None ==> logs_one(
                s,
                after,
                *wal,
                id.spec_bytes(),
                nil.spec_bytes(),
                EntityTypeTag::Relation,
                WatchEventTypeTag::Deleted,
                now,
            )
        },
{
    assert(r is Err <==> *found is Some && !wal.records());
    if *found is Some && r is Ok {
        let x = found->Some_0;
        let t = without_relation(s, id, x);
        let c = relation_collective(*source);
        assert(r->Ok_0->Some_0.effect(s) == wal.logged(
            t,
            entity_event(
                id.spec_bytes(),
                c,
                EntityTypeTag::Relation,
                WatchEventTypeTag::Deleted,
                now,
            ),
        ));
        lemma_id_len(id.value);
        lemma_id_len(c.value);
        law_recorded_event(
            t,
            *wal,
            id.spec_bytes(),
            c.spec_bytes(),
            EntityTypeTag::Relation,
            WatchEventTypeTag::Deleted,
            now,
        );
    }
}

/// A relation of a kind to a target exists exactly where one of the relations found leads to
/// that target with that kind.
pub proof fn law_relation_exists(
    outgoing: &Vec<ExperienceRelation>,
    target: ExperienceId,
    kind: RelationType,
    yes: bool,
)
    requires
        call_ensures(relation_exists, (outgoing, target, kind), yes),
    ensures
        forall|i: int|
            0 <= i < outgoing@.len() && (#[trigger] outgoing@[i]).target_id == target
                && outgoing@[i].relation_type == kind ==> yes,
        (forall|i: int|
            0 <= i < outgoing@.len() ==> (#[trigger] outgoing@[i]).target_id != target
                || outgoing@[i].relation_type != kind) ==> !yes,
{
}

// ---------------------------------------------------------------------------
// Insights
// ---------------------------------------------------------------------------

/// A stored insight is found under its identifier as it was given and listed under its
/// collective, and its creation is logged under that collective at the moment it was
/// created. Nothing else changes.
pub proof fn law_saved_insight(
    x: DerivedInsight,
    wal: &WalContext,
    r: Result<Plan, StorageError>,
    s: StoreView,
)
    requires
        wal.has_room(),
        call_ensures(save_insight, (x, wal), r),
    ensures
        r is Ok <==> wal.applying || (wal.stored matches Some(bytes) ==> bytes@.len() == 8),
        r matches Ok(plan) ==> {
            let after = plan.effect(s);
            &&& after.insights == s.insights.insert(x.id, x)
            &&& after.insights_by_collective == s.insights_by_collective.insert(
                (x.collective_id, x.id),
            )
            &&& collectives_kept(s, after)
            &&& relations_kept(s, after)
            &&& only_entities_changed(s, after)
            &&& logs_one(
                s,
                after,
                *wal,
                x.id.spec_bytes(),
                x.collective_id.spec_bytes(),
                EntityTypeTag::Insight,
                WatchEventTypeTag::Created,
                x.created_at,
            )
        },
{
    assert(r is Ok <==> wal.records());
    if wal.records() {
        let t = with_insight(s, x);
        assert(r->Ok_0.effect(s) == wal.logged(
            t,
            entity_event(
                x.id.spec_bytes(),
                x.collective_id,
                EntityTypeTag::Insight,
                WatchEventTypeTag::Created,
                x.created_at,
            ),
        ));
        lemma_id_len(x.id.value);
        lemma_id_len(x.collective_id.value);
        law_recorded_event(
            t,
            *wal,
            x.id.spec_bytes(),
            x.collective_id.spec_bytes(),
            EntityTypeTag::Insight,
            WatchEventTypeTag::Created,
            x.created_at,
        );
    }
}

/// Deleting an insight that is not there writes nothing. Deleting one that is removes it from
/// its two tables and logs a deletion under its collective at the moment of deleting.
pub proof fn law_deleted_insight(
    id: InsightId,
    found: &Option<DerivedInsight>,
    now: Timestamp,
    wal: &WalContext,
    r: Result<Option<Plan>, StorageError>,
    s: StoreView,
)
    requires
        wal.has_room(),
        call_ensures(delete_insight, (id, found, now, wal), r),
    ensures
        *found is None ==> r is Ok && r->Ok_0 is None,
        *found is Some ==> (r is Ok <==> wal.applying || (wal.stored matches Some(bytes)
            ==> bytes@.len() == 8)),
        *found is Some && r is Ok ==> r->Ok_0 is Some && {
            let x = found->Some_0;
            let after = r->Ok_0->Some_0.effect(s);
            &&& after.insights == s.insights.remove(id)
            &&& after.insights_by_collective == s.insights_by_collective.remove(
                (x.collective_id, id),
            )
            &&& collectives_kept(s, after)
            &&& relations_kept(s, after)
            &&& only_entities_changed(s, after)
            &&& logs_one(
                s,
                after,
                *wal,
                id.spec_bytes(),
                x.collective_id.spec_bytes(),
                EntityTypeTag::Insight,
                WatchEventTypeTag::Deleted,
                now,
            )
        },
{
    assert(r is Err <==> *found is Some && !wal.records());
    if *found is Some && r is Ok {
        let x = found->Some_0;
        let t = without_insight(s, id, x);
        assert(r->Ok_0->Some_0.effect(s) == wal.logged(
            t,
            entity_event(
                id.spec_bytes(),
                x.collective_id,
                EntityTypeTag::Insight,
                WatchEventTypeTag::Deleted,
                now,
            ),
        ));
        lemma_id_len(id.value);
        lemma_id_len(x.collective_id.value);
        law_recorded_event(
            t,
            *wal,
            id.spec_bytes(),
            x.collective_id.spec_bytes(),
            EntityTypeTag::Insight,
            WatchEventTypeTag::Deleted,
            now,
        );
    }
}

// ---------------------------------------------------------------------------
// Activities
// ---------------------------------------------------------------------------

/// An activity is stored under a key that opens with its collective's bytes and ends in the
/// agent's name, and is found there as it was given; deleting the same agent's activity in
/// the same collective removes exactly that row and says whether it was there. Neither
/// changes anything else.
pub proof fn law_activity_is_stored_and_deleted(
    a: Activity,
    saved: Plan,
    agent: &str,
    found: &Option<Activity>,
    deleted: (Plan, bool),
    s: StoreView,
    t: StoreView,
)
    requires
        call_ensures(save_activity, (a,), saved),
        agent@ == a.agent_id@,
        call_ensures(delete_activity::<Activity>, (agent, a.collective_id, found), deleted),
    ensures
        deleted.1 <==> *found is Some,
        exists|key: Seq<u8>|
            {
                &&& key.len() == 18 + vstd::utf8::encode_utf8(agent@).len()
                &&& key.take(16) == a.collective_id.spec_bytes()
                &&& key.skip(18) == vstd::utf8::encode_utf8(agent@)
                &&& saved.effect(s) == (StoreView {
                    activities: #[trigger] s.activities.insert(key, a),
                    ..s
                })
                &&& deleted.0.effect(t) == (StoreView { activities: t.activities.remove(key), ..t })
            },
{
    let key = activity_row_key(a.collective_id, a.agent_id@);
    lemma_id_len(a.collective_id.value);
    let name = vstd::utf8::encode_utf8(agent@);
    crate::bytes::lemma_be_len(name.len() % 0x1_0000, 2);
    assert(key.take(16) =~= a.collective_id.spec_bytes());
    assert(key.skip(18) =~= name);
    assert(saved.effect(s) == (StoreView { activities: s.activities.insert(key, a), ..s }));
    assert(deleted.0.effect(t) == (StoreView { activities: t.activities.remove(key), ..t }));
}

/// An activity key belongs to the collective whose bytes it opens with, and to no other.
pub proof fn law_activity_belongs_to_its_collective(
    key: &[u8],
    collective: CollectiveId,
    yes: bool,
)
    requires
        call_ensures(activity_in_collective, (key, collective), yes),
    ensures
        yes <==> key@.len() >= 16 && key@.take(16) == collective.spec_bytes(),
{
    if key@.len() >= 16 {
        assert(key@.take(16) =~= key@.subrange(0, 16));
    }
}

/// The rows listed for a collective are exactly those whose keys open with its bytes, in key
/// order and each once, and there are as many of them as deleting the collective's activities
/// removes.
pub proof fn law_listed_activities(
    keys: &Vec<Vec<u8>>,
    collective: CollectiveId,
    rows: Vec<usize>,
    out: (Plan, u64),
    i: int,
    j: int,
    k: usize,
)
    requires
        call_ensures(list_activities_in_collective, (keys, collective), rows),
        call_ensures(delete_activities_by_collective, (keys, collective), out),
    ensures
        0 <= i < j < rows@.len() ==> rows@[i] < rows@[j],
        0 <= i < rows@.len() ==> rows@[i] < keys@.len() && {
            let key = keys@[rows@[i] as int]@;
            key.len() >= 16 && key.take(16) == collective.spec_bytes()
        },
        k < keys@.len() ==> (rows@.contains(k) <==> keys@[k as int]@.len() >= 16
            && keys@[k as int]@.take(16) == collective.spec_bytes()),
        rows@.len() == out.1,
{
    if k < keys@.len() {
        let owner = keys@[k as int]@;
        if owner.len() >= 16 {
            assert(owner.take(16) =~= owner.subrange(0, 16));
        }
        assert(rows@.contains((k as int) as usize) <==> crate::storage::records::is_activity_of(
            owner,
            collective,
        ));
    }
    assert(out.1 == crate::storage::records::activity_count(keys@, collective));
    if 0 <= i < rows@.len() {
        let key = keys@[rows@[i] as int];
        assert(rows@.contains(rows@[i]));
        assert(crate::storage::records::is_activity_of(key@, collective));
        assert(key@.take(16) =~= key@.subrange(0, 16));
    }
}

/// Deleting the activities of a collective removes the listed rows whose keys open with its
/// bytes, no other, and nothing else of the store.
pub proof fn law_deleted_activities(
    keys: &Vec<Vec<u8>>,
    collective: CollectiveId,
    out: (Plan, u64),
    s: StoreView,
    key: Seq<u8>,
)
    requires
        call_ensures(delete_activities_by_collective, (keys, collective), out),
    ensures
        ({
            let after = out.0.effect(s);
            let listed = exists|i: int| 0 <= i < keys@.len() && (#[trigger] keys@[i])@ == key;
            &&& after == (StoreView { activities: after.activities, ..s })
            &&& after.activities.contains_key(key) <==> s.activities.contains_key(key) && !(listed
                && key.len() >= 16 && key.take(16) == collective.spec_bytes())
            &&& after.activities.contains_key(key) ==> after.activities[key] == s.activities[key]
        }),
{
    let gone = activity_keys_of(keys@, collective);
    assert(out.0.effect(s) == (StoreView { activities: s.activities.remove_keys(gone), ..s }));
    if key.len() >= 16 {
        assert(key.take(16) =~= key.subrange(0, 16));
    }
}

/// Each further row adds one to the number of deleted activities where it belongs to the
/// collective, and nothing where it does not.
pub proof fn law_deleted_activities_are_counted(
    keys: &Vec<Vec<u8>>,
    fewer: &Vec<Vec<u8>>,
    collective: CollectiveId,
    out: (Plan, u64),
    out_fewer: (Plan, u64),
)
    requires
        call_ensures(delete_activities_by_collective, (keys, collective), out),
        call_ensures(delete_activities_by_collective, (fewer, collective), out_fewer),
    ensures
        keys@.len() == 0 ==> out.1 == 0,
        keys@.len() > 0 && fewer@ == keys@.drop_last() ==> out.1 == out_fewer.1 + if keys@.last()@.len()
            >= 16 && keys@.last()@.take(16) == collective.spec_bytes() {
            1int
        } else {
            0int
        },
{
    assert(out.1 == crate::storage::records::activity_count(keys@, collective));
    assert(out_fewer.1 == crate::storage::records::activity_count(fewer@, collective));
    if keys@.len() > 0 && keys@.last()@.len() >= 16 {
        assert(keys@.last()@.take(16) =~= keys@.last()@.subrange(0, 16));
    }
}

// ---------------------------------------------------------------------------
// Cursors, decay and the provider stamp
// ---------------------------------------------------------------------------

/// A stored cursor is found under its peer as it was given, and nothing else changes.
pub proof fn law_saved_cursor(cursor: SyncCursor, plan: Plan, s: StoreView)
    requires
        call_ensures(save_sync_cursor, (cursor,), plan),
    ensures
        plan.effect(s) == (StoreView {
            cursors: s.cursors.insert(cursor.instance_id, cursor),
            ..s
        }),
{
}

/// A decay configuration is stored under its collective with every component as it was
/// given: the half life to the nanosecond, both weights, the floor and the archiving flag.
/// Nothing else changes.
pub proof fn law_stored_decay_config(
    collective: CollectiveId,
    config: &DecayConfig,
    plan: Plan,
    s: StoreView,
)
    requires
        call_ensures(set_decay_config, (collective, config), plan),
    ensures
        ({
            let after = plan.effect(s);
            let stored = after.decay_configs[collective];
            &&& after.decay_configs.contains_key(collective)
            &&& stored.half_life_secs == config.half_life_secs
            &&& stored.half_life_nanos == config.half_life_nanos
            &&& stored.freq_weight == config.freq_weight
            &&& stored.floor == config.floor
            &&& stored.auto_archive_below_floor == config.auto_archive_below_floor
            &&& stored.default_recall_weights == config.default_recall_weights
            &&& after == (StoreView {
                decay_configs: s.decay_configs.insert(collective, stored),
                ..s
            })
        }),
{
    assert(plan.effect(s) == (StoreView {
        decay_configs: s.decay_configs.insert(collective, StoredDecayConfig::of(*config)),
        ..s
    }));
}

/// The decay configuration that is read has every component of the stored record: from the
/// current form the half life to the nanosecond, from the first form whole seconds. The
/// first form counts only where the current one did not decode, a missing record is no
/// configuration, and a record that decodes in neither form is a failure.
pub proof fn law_read_decay_config(
    row: Option<(Result<StoredDecayConfig, String>, Result<StoredDecayConfigV1, String>)>,
    r: Result<Option<DecayConfig>, StorageError>,
)
    requires
        row is Some && row->Some_0.0 is Ok ==> row->Some_0.0->Ok_0.half_life_secs
            + row->Some_0.0->Ok_0.half_life_nanos / 1_000_000_000 <= u64::MAX,
        call_ensures(get_decay_config, (row,), r),
    ensures
        row is None ==> r is Ok && r->Ok_0 is None,
        row is Some && row->Some_0.0 is Ok ==> r is Ok && r->Ok_0 is Some && {
            let stored = row->Some_0.0->Ok_0;
            let config = r->Ok_0->Some_0;
            &&& config.half_life_secs * 1_000_000_000 + config.half_life_nanos
                == stored.half_life_secs * 1_000_000_000 + stored.half_life_nanos
            &&& config.half_life_nanos < 1_000_000_000
            &&& config.freq_weight == stored.freq_weight
            &&& config.floor == stored.floor
            &&& config.auto_archive_below_floor == stored.auto_archive_below_floor
            &&& config.default_recall_weights == stored.default_recall_weights
        },
        row is Some && row->Some_0.0 is Err && row->Some_0.1 is Ok ==> r is Ok && r->Ok_0 is Some
            && {
            let stored = row->Some_0.1->Ok_0;
            let config = r->Ok_0->Some_0;
            &&& config.half_life_secs == stored.half_life_secs
            &&& config.half_life_nanos == 0
            &&& config.freq_weight == stored.freq_weight
            &&& config.floor == stored.floor
            &&& config.auto_archive_below_floor == stored.auto_archive_below_floor
            &&& config.default_recall_weights == stored.default_recall_weights
        },
        row is Some && row->Some_0.0 is Err && row->Some_0.1 is Err ==> r is Err && r->Err_0
            is Serialization,
{
}

/// A stamp writes the identity as it was given and the moment beside it, and changes nothing
/// else; a store counts as stamped exactly where a moment is there.
pub proof fn law_stamped_provider(
    identity: Vec<u8>,
    now_ms: u64,
    r: Result<Plan, StorageError>,
    s: StoreView,
    stamped_at: &Option<Vec<u8>>,
    yes: bool,
)
    requires
        call_ensures(stamp_provider_identity, (identity, now_ms), r),
        call_ensures(provider_identity_era_marker, (stamped_at,), yes),
    ensures
        r is Ok,
        ({
            let after = r->Ok_0.effect(s);
            &&& after.provider_identity == Some(identity@)
            &&& after.provider_stamped_at == Some(crate::bytes::varint(now_ms as nat))
            &&& after == (StoreView {
                provider_identity: after.provider_identity,
                provider_stamped_at: after.provider_stamped_at,
                ..s
            })
        }),
        yes <==> *stamped_at is Some,
{
}

} // verus!
