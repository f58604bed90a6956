//! What becomes of an experience, and of the log beside it.

use vstd::prelude::*;
use std::collections::BTreeMap;

use crate::error::StorageError;
use crate::model::{Experience, ExperienceUpdate, ExperienceV2};
use crate::storage::experiences::{
    apply_update, array16, delete_experience, embedding_bytes, experience_event, get_experience,
    is_counter_merge, is_legacy_bucket, is_reinforcement, legacy_applications_instance_id,
    merge_counters, merge_experience_applications, reinforce_experience, reshape_experience,
    save_embedding, save_experience, update_event, update_experience, updated, with_experience,
    without_experience,
};
use crate::storage::schema::{EntityTypeTag, WatchEventTypeTag};
use crate::storage::store::{Plan, StoreView};
use crate::storage::wal::{event_record, increment_wal_and_record, WalContext};
use crate::types::{ExperienceId, InstanceId, Timestamp};

verus! {

// ---------------------------------------------------------------------------
// The event beside a change
// ---------------------------------------------------------------------------

/// The number that the next change is logged under: one above the stored counter, and
/// one where nothing was logged yet.
pub open spec fn next_number(stored: Option<Vec<u8>>) -> nat {
    match stored {
        Some(bytes) => crate::bytes::be_value(bytes@) + 1,
        None => 1,
    }
}

/// Whether `after` has one event more in its log than `before`, under the next number:
/// an event that names the entity and its collective, says what kind of entity it is and
/// what happened to it, and carries the moment of the change. Nothing is logged for a
/// change that came from a peer.
pub open spec fn logs_one(
    before: StoreView,
    after: StoreView,
    wal: WalContext,
    entity: Seq<u8>,
    collective: Seq<u8>,
    kind: EntityTypeTag,
    what: WatchEventTypeTag,
    moment: Timestamp,
) -> bool {
    let key = crate::bytes::be(next_number(wal.stored), 8);
    if wal.applying {
        after.events == before.events && after.wal_sequence == before.wal_sequence
    } else {
        &&& after.wal_sequence == Some(key)
        &&& after.events.contains_key(key)
        &&& after.events[key].entity_id@ == entity
        &&& after.events[key].collective_id@ == collective
        &&& after.events[key].entity_type == kind
        &&& after.events[key].event_type == what
        &&& after.events[key].timestamp_ms == moment.millis
        &&& forall|k: Seq<u8>|
            k != key ==> {
                &&& #[trigger] after.events.contains_key(k) == before.events.contains_key(k)
                &&& after.events[k] == before.events[k]
            }
    }
}

proof fn lemma_array(bytes: Seq<u8>)
    requires
        bytes.len() == 16,
    ensures
        array16(bytes)@ == bytes,
{
    let a: [u8; 16] = [
        bytes[0], bytes[1], bytes[2], bytes[3], bytes[4], bytes[5], bytes[6], bytes[7],
        bytes[8], bytes[9], bytes[10], bytes[11], bytes[12], bytes[13], bytes[14], bytes[15],
    ];
    assert(a@ =~= bytes);
}

/// A recorded event is the only one that is added, under the next number, and it carries
/// the entity, the collective, both kinds and the moment it was recorded with.
pub proof fn law_recorded_event(
    s: StoreView,
    wal: WalContext,
    entity: Seq<u8>,
    collective: Seq<u8>,
    kind: EntityTypeTag,
    what: WatchEventTypeTag,
    moment: Timestamp,
)
    requires
        wal.has_room(),
        wal.records(),
        entity.len() == 16,
        collective.len() == 16,
    ensures
        ({
            let record = event_record(array16(entity), array16(collective), kind, what, moment);
            logs_one(s, wal.logged(s, record), wal, entity, collective, kind, what, moment)
        }),
{
    lemma_array(entity);
    lemma_array(collective);
}

/// Recording a change appends its one event to the log, with the entity, the collective, the
/// kinds and the moment that it was given, under the number it reports, and writes nothing
/// else. A change applied on behalf of a peer is not recorded, and reports no number; where
/// the stored counter is unreadable recording fails.
pub proof fn law_event_carries_its_moment(
    plan: &mut Plan,
    wal: &WalContext,
    entity_id: [u8; 16],
    collective: [u8; 16],
    kind: EntityTypeTag,
    what: WatchEventTypeTag,
    moment: Timestamp,
    r: Result<u64, StorageError>,
    s: StoreView,
)
    requires
        wal.has_room(),
        call_ensures(
            increment_wal_and_record,
            (plan, wal, entity_id, collective, kind, what, moment),
            r,
        ),
    ensures
        r is Ok <==> wal.applying || (wal.stored matches Some(bytes) ==> bytes@.len() == 8),
        r is Ok && wal.applying ==> r->Ok_0 == 0,
        r is Ok && !wal.applying ==> r->Ok_0 == next_number(wal.stored),
        r is Ok ==> {
            let before = old(plan).effect(s);
            let after = final(plan).effect(s);
            &&& logs_one(before, after, *wal, entity_id@, collective@, kind, what, moment)
            &&& after == (StoreView {
                events: after.events,
                wal_sequence: after.wal_sequence,
                ..before
            })
        },
        r is Ok && !wal.applying ==> {
            let event = final(plan).effect(s).events[crate::bytes::be(r->Ok_0 as nat, 8)];
            &&& event.timestamp_ms == moment.millis
            &&& event.entity_id == entity_id
            &&& event.collective_id == collective
            &&& event.entity_type == kind
            &&& event.event_type == what
        },
        r is Err ==> final(plan).effect(s) == old(plan).effect(s),
{
    assert(r is Ok <==> wal.records());
    let record = event_record(entity_id, collective, kind, what, moment);
    if wal.records() {
        assert(final(plan).effect(s) == wal.logged(old(plan).effect(s), record));
    } else {
        assert(final(plan).effect(s) == old(plan).effect(s));
    }
}

/// Whether no table changed but those that hold experiences, and the log.
pub open spec fn only_experiences_changed(before: StoreView, after: StoreView) -> bool {
    &&& after.metadata == before.metadata
    &&& after.marker == before.marker
    &&& after.instance_id == before.instance_id
    &&& after.provider_identity == before.provider_identity
    &&& after.provider_stamped_at == before.provider_stamped_at
    &&& after.collectives == before.collectives
    &&& after.decay_configs == before.decay_configs
    &&& after.relations == before.relations
    &&& after.by_source == before.by_source
    &&& after.by_target == before.by_target
    &&& after.insights == before.insights
    &&& after.insights_by_collective == before.insights_by_collective
    &&& after.activities == before.activities
    &&& after.cursors == before.cursors
}

/// Whether an experience other than `id` is as it was.
pub open spec fn others_kept(before: StoreView, after: StoreView, id: ExperienceId) -> bool {
    forall|other: ExperienceId|
        other != id ==> {
            &&& #[trigger] after.experiences.contains_key(other)
                == before.experiences.contains_key(other)
            &&& after.experiences[other] == before.experiences[other]
        }
}

/// Whether an index or the embeddings did not change.
pub open spec fn indexes_kept(before: StoreView, after: StoreView) -> bool {
    &&& after.embeddings == before.embeddings
    &&& after.by_collective == before.by_collective
    &&& after.by_type == before.by_type
}

proof fn lemma_id_len(value: u128)
    ensures
        crate::bytes::be(value as nat, 16).len() == 16,
{
    crate::bytes::lemma_be_len(value as nat, 16);
}

// ---------------------------------------------------------------------------
// Recording
// ---------------------------------------------------------------------------

/// Recording an experience succeeds unless the counter of the log is unreadable. The
/// record is then found under its identifier as it was given, its embedding beside it, and
/// it is listed under its collective and its kind. Its event is logged as a creation, at the
/// experience's own moment. No other experience and no other table changes.
pub proof fn law_saved_experience(
    e: Experience,
    wal: &WalContext,
    r: Result<Plan, StorageError>,
    s: StoreView,
)
    requires
        wal.has_room(),
        call_ensures(save_experience, (e, wal), r),
    ensures
        r is Ok <==> wal.applying || (wal.stored matches Some(bytes) ==> bytes@.len() == 8),
        r matches Ok(plan) ==> {
            let after = plan.effect(s);
            &&& after.experiences.contains_key(e.id)
            &&& after.experiences[e.id] == e
            &&& after.embeddings == s.embeddings.insert(e.id, embedding_bytes(e.embedding@))
            &&& others_kept(s, after, e.id)
            &&& forall|c, entry| #[trigger]
                after.by_collective.contains((c, entry)) <==> s.by_collective.contains((c, entry))
                    || (c == e.collective_id && entry == e.timestamp.spec_bytes()
                    + e.id.spec_bytes())
            &&& forall|key, id| #[trigger]
                after.by_type.contains((key, id)) <==> s.by_type.contains((key, id)) || (key
                    == e.collective_id.spec_bytes().push(e.experience_type.tag.byte()) && id
                    == e.id)
            &&& only_experiences_changed(s, after)
            &&& logs_one(
                s,
                after,
                *wal,
                e.id.spec_bytes(),
                e.collective_id.spec_bytes(),
                EntityTypeTag::Experience,
                WatchEventTypeTag::Created,
                e.timestamp,
            )
        },
{
    assert(r is Ok <==> wal.records());
    if wal.records() {
        let plan = r->Ok_0;
        let t = with_experience(s, e);
        assert(plan.effect(s) == wal.logged(
            t,
            experience_event(e.id, e.collective_id, WatchEventTypeTag::Created, e.timestamp),
        ));
        lemma_id_len(e.id.value);
        lemma_id_len(e.collective_id.value);
        law_recorded_event(
            t,
            *wal,
            e.id.spec_bytes(),
            e.collective_id.spec_bytes(),
            EntityTypeTag::Experience,
            WatchEventTypeTag::Created,
            e.timestamp,
        );
    }
}

// ---------------------------------------------------------------------------
// Updating
// ---------------------------------------------------------------------------

/// Whether `after` is `before` under `update`: each updatable field that the update carries
/// has the carried value, each that it does not carry is unchanged, and so is every other
/// field.
pub open spec fn took_over(before: Experience, update: ExperienceUpdate, after: Experience) -> bool {
    &&& update.importance matches Some(v) ==> after.importance == v
    &&& update.importance is None ==> after.importance == before.importance
    &&& update.confidence matches Some(v) ==> after.confidence == v
    &&& update.confidence is None ==> after.confidence == before.confidence
    &&& update.domain matches Some(v) ==> after.domain == v
    &&& update.domain is None ==> after.domain == before.domain
    &&& update.tags matches Some(v) ==> after.tags == v
    &&& update.tags is None ==> after.tags == before.tags
    &&& update.related_files matches Some(v) ==> after.related_files == v
    &&& update.related_files is None ==> after.related_files == before.related_files
    &&& update.archived matches Some(v) ==> after.archived == v
    &&& update.archived is None ==> after.archived == before.archived
    &&& after.applications == before.applications
    &&& after.last_reinforced == before.last_reinforced
    &&& same_origin(before, after)
}

/// Whether two experiences agree in what never changes once an experience is recorded.
pub open spec fn same_origin(a: Experience, b: Experience) -> bool {
    &&& b.id == a.id
    &&& b.collective_id == a.collective_id
    &&& b.content == a.content
    &&& b.embedding == a.embedding
    &&& b.experience_type == a.experience_type
    &&& b.source_agent == a.source_agent
    &&& b.source_task == a.source_task
    &&& b.timestamp == a.timestamp
}

/// Applying an update sets each updatable field to the value that the update carries for
/// it, and changes nothing that the update does not carry.
pub proof fn law_update_field_by_field(
    before: Experience,
    update: ExperienceUpdate,
    after: Experience,
)
    requires
        call_ensures(apply_update, (before, update), after),
    ensures
        update.importance matches Some(v) ==> after.importance == v,
        update.importance is None ==> after.importance == before.importance,
        update.confidence matches Some(v) ==> after.confidence == v,
        update.confidence is None ==> after.confidence == before.confidence,
        update.domain matches Some(v) ==> after.domain == v,
        update.domain is None ==> after.domain == before.domain,
        update.tags matches Some(v) ==> after.tags == v,
        update.tags is None ==> after.tags == before.tags,
        update.related_files matches Some(v) ==> after.related_files == v,
        update.related_files is None ==> after.related_files == before.related_files,
        update.archived matches Some(v) ==> after.archived == v,
        update.archived is None ==> after.archived == before.archived,
        after.applications == before.applications,
        after.last_reinforced == before.last_reinforced,
        same_origin(before, after),
{
}

/// The update that carries nothing changes nothing.
pub proof fn law_empty_update(before: Experience, update: ExperienceUpdate, after: Experience)
    requires
        call_ensures(ExperienceUpdate::default, (), update),
        call_ensures(apply_update, (before, update), after),
    ensures
        after == before,
{
}

/// Updating an experience that is not there writes nothing. Updating one that is leaves its
/// record with every carried field taken over and every other field as it was, and logs an
/// event at the experience's own moment: an archiving where the update sets the archived
/// flag, else an update. Nothing else changes.
pub proof fn law_updated_experience(
    id: ExperienceId,
    found: Option<Experience>,
    update: ExperienceUpdate,
    wal: &WalContext,
    r: Result<Option<Plan>, StorageError>,
    s: StoreView,
)
    requires
        wal.has_room(),
        call_ensures(update_experience, (id, found, update, wal), r),
    ensures
        found is None ==> r is Ok && r->Ok_0 is None,
        found is Some ==> (r is Ok <==> wal.applying || (wal.stored matches Some(bytes)
            ==> bytes@.len() == 8)),
        found is Some && r is Ok ==> r->Ok_0 is Some && {
            let before = found->Some_0;
            let after = r->Ok_0->Some_0.effect(s);
            &&& after.experiences.contains_key(id)
            &&& took_over(before, update, after.experiences[id])
            &&& others_kept(s, after, id)
            &&& indexes_kept(s, after)
            &&& only_experiences_changed(s, after)
            &&& logs_one(
                s,
                after,
                *wal,
                id.spec_bytes(),
                before.collective_id.spec_bytes(),
                EntityTypeTag::Experience,
                if update.archived == Some(true) {
                    WatchEventTypeTag::Archived
                } else {
                    WatchEventTypeTag::Updated
                },
                before.timestamp,
            )
        },
{
    assert(r is Err <==> found is Some && !wal.records());
    if found is Some && r is Ok {
        let e = found->Some_0;
        let plan = r->Ok_0->Some_0;
        let t = StoreView { experiences: s.experiences.insert(id, updated(e, update)), ..s };
        assert(plan.effect(s) == wal.logged(
            t,
            experience_event(id, e.collective_id, update_event(update), e.timestamp),
        ));
        lemma_id_len(id.value);
        lemma_id_len(e.collective_id.value);
        law_recorded_event(
            t,
            *wal,
            id.spec_bytes(),
            e.collective_id.spec_bytes(),
            EntityTypeTag::Experience,
            update_event(update),
            e.timestamp,
        );
    }
}

// ---------------------------------------------------------------------------
// Deleting
// ---------------------------------------------------------------------------

/// Deleting an experience that is not there writes nothing. Deleting one that is removes its
/// record, its embedding and its two index entries, no other, and logs a deletion at the
/// experience's own moment.
pub proof fn law_deleted_experience(
    id: ExperienceId,
    found: &Option<Experience>,
    wal: &WalContext,
    r: Result<Option<Plan>, StorageError>,
    s: StoreView,
)
    requires
        wal.has_room(),
        call_ensures(delete_experience, (id, found, wal), r),
    ensures
        *found is None ==> r is Ok && r->Ok_0 is None,
        *found is Some ==> (r is Ok <==> wal.applying || (wal.stored matches Some(bytes)
            ==> bytes@.len() == 8)),
        *found is Some && r is Ok ==> r->Ok_0 is Some && {
            let e = found->Some_0;
            let after = r->Ok_0->Some_0.effect(s);
            &&& !after.experiences.contains_key(id)
            &&& others_kept(s, after, id)
            &&& after.embeddings == s.embeddings.remove(id)
            &&& forall|c, entry| #[trigger]
                after.by_collective.contains((c, entry)) <==> s.by_collective.contains((c, entry))
                    && !(c == e.collective_id && entry == e.timestamp.spec_bytes()
                    + id.spec_bytes())
            &&& forall|key, x| #[trigger]
                after.by_type.contains((key, x)) <==> s.by_type.contains((key, x)) && !(key
                    == e.collective_id.spec_bytes().push(e.experience_type.tag.byte()) && x == id)
            &&& only_experiences_changed(s, after)
            &&& logs_one(
                s,
                after,
                *wal,
                id.spec_bytes(),
                e.collective_id.spec_bytes(),
                EntityTypeTag::Experience,
                WatchEventTypeTag::Deleted,
                e.timestamp,
            )
        },
{
    assert(r is Err <==> *found is Some && !wal.records());
    if *found is Some && r is Ok {
        let e = found->Some_0;
        let plan = r->Ok_0->Some_0;
        let t = without_experience(s, id, e);
        assert(plan.effect(s) == wal.logged(
            t,
            experience_event(id, e.collective_id, WatchEventTypeTag::Deleted, e.timestamp),
        ));
        lemma_id_len(id.value);
        lemma_id_len(e.collective_id.value);
        law_recorded_event(
            t,
            *wal,
            id.spec_bytes(),
            e.collective_id.spec_bytes(),
            EntityTypeTag::Experience,
            WatchEventTypeTag::Deleted,
            e.timestamp,
        );
    }
}

// ---------------------------------------------------------------------------
// Counting
// ---------------------------------------------------------------------------

/// The count an instance has in a counter: zero where it has none.
pub open spec fn count_of(counter: Map<u128, u32>, instance: u128) -> int {
    if counter.contains_key(instance) {
        counter[instance] as int
    } else {
        0
    }
}

/// Merging two counters leaves each instance with the larger of its two counts, and holds
/// exactly the instances that either holds.
pub proof fn law_merge_takes_the_larger_count(
    a: Map<u128, u32>,
    b: Map<u128, u32>,
    instance: u128,
)
    ensures
        ({
            let m = crate::gcounter::merged(a, b);
            &&& m.contains_key(instance) <==> a.contains_key(instance) || b.contains_key(instance)
            &&& count_of(m, instance) >= count_of(a, instance)
            &&& count_of(m, instance) >= count_of(b, instance)
            &&& count_of(m, instance) == count_of(a, instance) || count_of(m, instance)
                == count_of(b, instance)
        }),
{
}

/// A reinforcement raises the reinforcing instance's count by one, up to the largest count
/// there is, and no other instance's.
pub proof fn law_reinforcement_counts_for_one_instance(
    counter: Map<u128, u32>,
    own: u128,
    instance: u128,
)
    ensures
        ({
            let m = crate::gcounter::bumped(counter, own);
            &&& m.contains_key(instance) <==> counter.contains_key(instance) || instance == own
            &&& instance != own ==> count_of(m, instance) == count_of(counter, instance)
            &&& count_of(counter, own) < u32::MAX ==> count_of(m, own) == count_of(counter, own)
                + 1
            &&& count_of(counter, own) == u32::MAX ==> count_of(m, own) == u32::MAX
        }),
{
}

/// Merging a counter into another, and counting a reinforcement in one, do so as laid down of
/// the counters themselves.
pub proof fn law_counters_change_in_place(
    local: &mut BTreeMap<u128, u32>,
    incoming: &BTreeMap<u128, u32>,
    merged: (),
    own: &mut BTreeMap<u128, u32>,
    key: u128,
    bumped: (),
    instance: u128,
)
    requires
        call_ensures(crate::gcounter::merge, (local, incoming), merged),
        call_ensures(crate::gcounter::bump, (own, key), bumped),
    ensures
        count_of(final(local)@, instance) >= count_of(old(local)@, instance),
        count_of(final(local)@, instance) >= count_of(incoming@, instance),
        count_of(final(local)@, instance) == count_of(old(local)@, instance) || count_of(
            final(local)@,
            instance,
        ) == count_of(incoming@, instance),
        instance != key ==> count_of(final(own)@, instance) == count_of(old(own)@, instance),
        count_of(old(own)@, key) < u32::MAX ==> count_of(final(own)@, key) == count_of(
            old(own)@,
            key,
        ) + 1,
{
    law_merge_takes_the_larger_count(old(local)@, incoming@, instance);
    law_reinforcement_counts_for_one_instance(old(own)@, key, instance);
}

/// The total of a counter is the sum of its counts: nothing for an empty counter, and each
/// instance adds its own count.
pub proof fn law_total_is_the_sum(counter: Map<u128, u32>, instance: u128, count: u32)
    requires
        counter.dom().finite(),
        !counter.contains_key(instance),
    ensures
        crate::gcounter::total(Map::empty()) == 0,
        crate::gcounter::total(counter.insert(instance, count)) == crate::gcounter::total(counter)
            + count,
{
    crate::gcounter::lemma_total_remove(counter.insert(instance, count), instance);
    assert(counter.insert(instance, count).remove(instance) =~= counter);
}

/// The number of applications of an experience is the sum over all instances, up to the
/// largest number there is.
pub proof fn law_applications_is_the_capped_sum(e: &Experience, n: u32)
    requires
        call_ensures(Experience::applications, (e,), n),
    ensures
        crate::gcounter::total(e.applications@) <= u32::MAX ==> n == crate::gcounter::total(
            e.applications@,
        ),
        crate::gcounter::total(e.applications@) > u32::MAX ==> n == u32::MAX,
{
}

/// Whether `after` is `before` with a peer's counts and reinforcement time merged in: per
/// instance the larger count, the later of the two times, and nothing else changed.
pub open spec fn counts_merged(
    before: Experience,
    incoming: Map<u128, u32>,
    reinforced: Option<Timestamp>,
    after: Experience,
) -> bool {
    &&& forall|i: u128|
        {
            let n = #[trigger] count_of(after.applications@, i);
            &&& n >= count_of(before.applications@, i)
            &&& n >= count_of(incoming, i)
            &&& n == count_of(before.applications@, i) || n == count_of(incoming, i)
        }
    &&& after.last_reinforced.millis >= before.last_reinforced.millis
    &&& reinforced matches Some(t) ==> after.last_reinforced.millis >= t.millis
    &&& after.last_reinforced.millis == before.last_reinforced.millis || reinforced
        == Some(after.last_reinforced)
    &&& after.importance == before.importance
    &&& after.confidence == before.confidence
    &&& after.domain == before.domain
    &&& after.tags == before.tags
    &&& after.related_files == before.related_files
    &&& after.archived == before.archived
    &&& same_origin(before, after)
}

pub(crate) proof fn lemma_counts_merged(
    before: Experience,
    incoming: Map<u128, u32>,
    reinforced: Option<Timestamp>,
    after: Experience,
)
    requires
        is_counter_merge(before, incoming, reinforced, after),
    ensures
        counts_merged(before, incoming, reinforced, after),
{
    assert forall|i: u128|
        {
            let n = #[trigger] count_of(after.applications@, i);
            &&& n >= count_of(before.applications@, i)
            &&& n >= count_of(incoming, i)
            &&& n == count_of(before.applications@, i) || n == count_of(incoming, i)
        } by {
        law_merge_takes_the_larger_count(before.applications@, incoming, i);
    }
}

/// Merging a peer's counter keeps per instance the larger count and the later of the two
/// reinforcement times, and changes nothing else of the experience.
pub proof fn law_merged_counters(
    before: Experience,
    incoming: &BTreeMap<u128, u32>,
    reinforced: Option<Timestamp>,
    after: Experience,
)
    requires
        call_ensures(merge_counters, (before, incoming, reinforced), after),
    ensures
        counts_merged(before, incoming@, reinforced, after),
{
    lemma_counts_merged(before, incoming@, reinforced, after);
}

/// Merging a peer's counter into a stored experience changes that one record as the merge of
/// the counters does, logs nothing and touches no other table. Nothing is written for an
/// experience that is not there.
pub proof fn law_merged_experience(
    id: ExperienceId,
    found: Option<Experience>,
    incoming: &BTreeMap<u128, u32>,
    reinforced: Option<Timestamp>,
    r: Option<Plan>,
    s: StoreView,
)
    requires
        call_ensures(merge_experience_applications, (id, found, incoming, reinforced), r),
    ensures
        found is None ==> r is None,
        found is Some ==> r is Some && {
            let after = r->Some_0.effect(s);
            &&& after.experiences.contains_key(id)
            &&& counts_merged(found->Some_0, incoming@, reinforced, after.experiences[id])
            &&& others_kept(s, after, id)
            &&& indexes_kept(s, after)
            &&& only_experiences_changed(s, after)
            &&& after.events == s.events
            &&& after.wal_sequence == s.wal_sequence
        },
{
    assert(r is Some <==> found is Some);
    if found is Some {
        let plan = r->Some_0;
        assert(plan.ops@.len() == 1);
        assert(plan.ops@.drop_last() =~= Seq::empty());
        assert(plan.effect(s) == crate::storage::store::apply_op(s, plan.ops@[0])) by {
            reveal_with_fuel(crate::storage::store::apply_all, 2);
        }
        lemma_counts_merged(
            found->Some_0,
            incoming@,
            reinforced,
            plan.effect(s).experiences[id],
        );
    }
}

/// Reinforcing an experience that is not there writes nothing. Reinforcing one that is adds
/// one to the reinforcing instance's count, sets the reinforcement time to the given moment,
/// changes nothing else of the record, reports the sum of the counts, and logs an update at
/// the experience's own moment.
pub proof fn law_reinforced_experience(
    id: ExperienceId,
    found: Option<Experience>,
    own: InstanceId,
    now: Timestamp,
    wal: &WalContext,
    r: Result<Option<(Plan, u32)>, StorageError>,
    s: StoreView,
)
    requires
        wal.has_room(),
        call_ensures(reinforce_experience, (id, found, own, now, wal), r),
    ensures
        found is None ==> r is Ok && r->Ok_0 is None,
        found is Some ==> (r is Ok <==> wal.applying || (wal.stored matches Some(bytes)
            ==> bytes@.len() == 8)),
        found is Some && r is Ok ==> r->Ok_0 is Some && {
            let before = found->Some_0;
            let after = r->Ok_0->Some_0.0.effect(s);
            let e = after.experiences[id];
            let total = crate::gcounter::total(e.applications@);
            &&& after.experiences.contains_key(id)
            &&& forall|i: u128|
                i != own.value ==> #[trigger] count_of(e.applications@, i) == count_of(
                    before.applications@,
                    i,
                )
            &&& count_of(before.applications@, own.value) < u32::MAX ==> count_of(
                e.applications@,
                own.value,
            ) == count_of(before.applications@, own.value) + 1
            &&& count_of(before.applications@, own.value) == u32::MAX ==> count_of(
                e.applications@,
                own.value,
            ) == u32::MAX
            &&& e.last_reinforced == now
            &&& took_over(
                before,
                ExperienceUpdate::spec_empty(),
                Experience {
                    applications: before.applications,
                    last_reinforced: before.last_reinforced,
                    ..e
                },
            )
            &&& total <= u32::MAX ==> r->Ok_0->Some_0.1 == total
            &&& total > u32::MAX ==> r->Ok_0->Some_0.1 == u32::MAX
            &&& others_kept(s, after, id)
            &&& indexes_kept(s, after)
            &&& only_experiences_changed(s, after)
            &&& logs_one(
                s,
                after,
                *wal,
                id.spec_bytes(),
                before.collective_id.spec_bytes(),
                EntityTypeTag::Experience,
                WatchEventTypeTag::Updated,
                before.timestamp,
            )
        },
{
    assert(r is Err <==> found is Some && !wal.records());
    if found is Some && r is Ok {
        let before = found->Some_0;
        let plan = r->Ok_0->Some_0.0;
        let event = experience_event(
            id,
            before.collective_id,
            WatchEventTypeTag::Updated,
            before.timestamp,
        );
        let e = choose|e: Experience|
            {
                &&& is_reinforcement(before, own, now, e)
                &&& r->Ok_0->Some_0.1 as nat == if crate::gcounter::total(e.applications@)
                    > u32::MAX {
                    u32::MAX as nat
                } else {
                    crate::gcounter::total(e.applications@)
                }
                &&& forall|s: StoreView| #[trigger]
                    plan.effect(s) == wal.logged(
                        StoreView { experiences: s.experiences.insert(id, e), ..s },
                        experience_event(
                            id,
                            before.collective_id,
                            WatchEventTypeTag::Updated,
                            before.timestamp,
                        ),
                    )
            };
        let t = StoreView { experiences: s.experiences.insert(id, e), ..s };
        assert(plan.effect(s) == wal.logged(t, event));
        assert forall|i: u128| i != own.value implies #[trigger] count_of(e.applications@, i)
            == count_of(before.applications@, i) by {
            law_reinforcement_counts_for_one_instance(before.applications@, own.value, i);
        }
        law_reinforcement_counts_for_one_instance(before.applications@, own.value, own.value);
        lemma_id_len(id.value);
        lemma_id_len(before.collective_id.value);
        law_recorded_event(
            t,
            *wal,
            id.spec_bytes(),
            before.collective_id.spec_bytes(),
            EntityTypeTag::Experience,
            WatchEventTypeTag::Updated,
            before.timestamp,
        );
    }
}

// ---------------------------------------------------------------------------
// Embeddings
// ---------------------------------------------------------------------------

/// Storing an embedding touches the embedding of that experience and nothing else.
pub proof fn law_saved_embedding(
    id: ExperienceId,
    embedding: &[u32],
    plan: Plan,
    s: StoreView,
    read: Option<Experience>,
    record: Option<Experience>,
    bytes: &Option<Vec<u8>>,
)
    requires
        call_ensures(save_embedding, (id, embedding), plan),
        *bytes is Some,
        bytes->Some_0@ == plan.effect(s).embeddings[id],
        record is Some,
        call_ensures(get_experience, (record, bytes), read),
    ensures
        plan.effect(s) == (StoreView {
            embeddings: s.embeddings.insert(id, plan.effect(s).embeddings[id]),
            ..s
        }),
        read is Some,
        read->Some_0.embedding@ == embedding@,
        read->Some_0 == (Experience { embedding: read->Some_0.embedding, ..record->Some_0 }),
{
    assert(plan.effect(s) == (StoreView {
        embeddings: s.embeddings.insert(id, embedding_bytes(embedding@)),
        ..s
    }));
    crate::storage::experiences::law_embedding_round_trip(embedding@, read->Some_0.embedding@);
}

/// An experience is read as its record, with the embedding that is stored beside it where
/// there is one, and as nothing where there is no record.
pub proof fn law_read_experience(
    record: Option<Experience>,
    bytes: &Option<Vec<u8>>,
    read: Option<Experience>,
)
    requires
        call_ensures(get_experience, (record, bytes), read),
    ensures
        read is Some <==> record is Some,
        read is Some ==> took_over(
            record->Some_0,
            ExperienceUpdate::spec_empty(),
            Experience { embedding: record->Some_0.embedding, ..read->Some_0 },
        ),
        read is Some && *bytes is None ==> read->Some_0.embedding == record->Some_0.embedding,
        read is Some && *bytes is Some ==> read->Some_0.embedding@.len()
            == bytes->Some_0@.len() / 4,
{
}

// ---------------------------------------------------------------------------
// The form before counters were kept per instance
// ---------------------------------------------------------------------------

/// Bringing an experience of the second schema into current form keeps, field by field,
/// its identifiers, content, embedding, kind, importance, confidence, domain, related files,
/// source agent, source task, recording time and archived flag.
pub proof fn law_reshaping_field_by_field(v2: ExperienceV2, v3: Experience)
    requires
        call_ensures(reshape_experience, (v2,), v3),
    ensures
        v3.id == v2.id,
        v3.collective_id == v2.collective_id,
        v3.content == v2.content,
        v3.embedding == v2.embedding,
        v3.experience_type == v2.experience_type,
        v3.importance == v2.importance,
        v3.confidence == v2.confidence,
        v3.domain == v2.domain,
        v3.related_files == v2.related_files,
        v3.source_agent == v2.source_agent,
        v3.source_task == v2.source_task,
        v3.timestamp == v2.timestamp,
        v3.archived == v2.archived,
{
}

/// Bringing an experience of the second schema into current form takes the recording time
/// for the time of the last reinforcement, gives no tags, and counts its applications in the
/// bucket of unknown instances and in no other.
pub proof fn law_reshaping_counts_in_the_legacy_bucket(
    v2: ExperienceV2,
    v3: Experience,
    legacy: InstanceId,
    instance: u128,
)
    requires
        call_ensures(reshape_experience, (v2,), v3),
        call_ensures(legacy_applications_instance_id, (), legacy),
    ensures
        v3.last_reinforced == v2.timestamp,
        v3.tags@.len() == 0,
        v3.applications@.contains_key(instance) <==> instance == legacy.value,
        v3.applications@[legacy.value] == v2.applications,
        crate::gcounter::total(v3.applications@) == v2.applications,
{
    let bucket = choose|bucket: u128| #[trigger]
        is_legacy_bucket(bucket) && v3.applications@ == map![bucket => v2.applications];
    crate::bytes::lemma_pow256_values();
    crate::bytes::lemma_be_round_trip(bucket as nat, 16);
    crate::bytes::lemma_be_round_trip(legacy.value as nat, 16);
    assert(bucket == legacy.value);
    law_total_is_the_sum(Map::empty(), bucket, v2.applications);
    assert(v3.applications@ =~= Map::empty().insert(bucket, v2.applications));
}

/// The sum of a counter is its total, up to the largest number there is.
pub proof fn law_capped_sum(counter: &BTreeMap<u128, u32>, n: u32)
    requires
        call_ensures(crate::gcounter::sum, (counter,), n),
    ensures
        crate::gcounter::total(counter@) <= u32::MAX ==> n == crate::gcounter::total(counter@),
        crate::gcounter::total(counter@) > u32::MAX ==> n == u32::MAX,
{
}

} // verus!
