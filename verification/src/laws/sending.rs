//! What an event of the log becomes on its way to a peer.

use vstd::prelude::*;

use crate::model::{Collective, Experience};
use crate::storage::schema::{EntityTypeTag, WatchEventRecord, WatchEventTypeTag};
use crate::sync::batch::{covered, kept, LogCandidate};
use crate::sync::config::is_allowed;
use crate::sync::error::SyncError;
use crate::sync::payload::{
    build_payload, entity_needed, make_change, needed, payload, Entity, EntityRef,
};
use crate::sync::progress::next_progress;
use crate::sync::pusher::{
    pack, tighter_budget, validate_ack, LocalChangePusher, PackedPush, PushOutcome, PushStep,
};
use crate::sync::server::build_change_from_record;
use crate::sync::types::{PushAck, PushRequest, SyncChange, SyncEntityType, SyncPayload, WireReply};
use crate::types::{CollectiveId, InstanceId};

verus! {

// ---------------------------------------------------------------------------
// Payloads
// ---------------------------------------------------------------------------

/// Whether `record` is an event of this kind.
pub open spec fn is_event(
    record: WatchEventRecord,
    kind: EntityTypeTag,
    what: WatchEventTypeTag,
) -> bool {
    record.entity_type == kind && record.event_type == what
}

/// Whether `value` is the number that the identifier bytes `bytes` stand for.
pub open spec fn stands_for(value: u128, bytes: [u8; 16]) -> bool {
    crate::bytes::be(value as nat, 16) == bytes@
}

pub(crate) proof fn lemma_id_value(bytes: [u8; 16])
    ensures
        stands_for(crate::sync::payload::id_value(bytes), bytes),
        crate::sync::payload::id_value(bytes) as nat == crate::bytes::be_value(bytes@),
{
    crate::bytes::lemma_pow256_values();
    crate::bytes::lemma_be_of_value(bytes@);
}

/// The event of a recorded experience, relation, insight or collective whose record is found
/// becomes the creation of exactly that record.
pub proof fn law_creation_carries_the_record(
    record: &WatchEventRecord,
    found: Result<Option<Entity>, String>,
    context: &str,
    built: Result<Option<SyncPayload>, SyncError>,
)
    requires
        record.event_type == WatchEventTypeTag::Created,
        found is Ok,
        found->Ok_0 is Some,
        call_ensures(build_payload, (record, found, context), built),
    ensures
        record.entity_type == EntityTypeTag::Experience && found->Ok_0->Some_0 is Experience
            ==> built is Ok && built->Ok_0 == Some(
            SyncPayload::ExperienceCreated(found->Ok_0->Some_0->Experience_0),
        ),
        record.entity_type == EntityTypeTag::Relation && found->Ok_0->Some_0 is Relation
            ==> built is Ok && built->Ok_0 == Some(
            SyncPayload::RelationCreated(found->Ok_0->Some_0->Relation_0),
        ),
        record.entity_type == EntityTypeTag::Insight && found->Ok_0->Some_0 is Insight
            ==> built is Ok && built->Ok_0 == Some(
            SyncPayload::InsightCreated(found->Ok_0->Some_0->Insight_0),
        ),
        record.entity_type == EntityTypeTag::Collective && found->Ok_0->Some_0 is Collective
            ==> built is Ok && built->Ok_0 == Some(
            SyncPayload::CollectiveCreated(found->Ok_0->Some_0->Collective_0),
        ),
{
    let f = found->Ok_0;
    assert(needed(*record) is Some);
    assert(built == Ok::<Option<SyncPayload>, SyncError>(payload(*record, f)));
}

/// The event of a changed experience whose record is found becomes an update of that
/// experience, dated as the event is, that carries every mutable field of the record.
pub proof fn law_update_carries_every_field(
    record: &WatchEventRecord,
    found: Result<Option<Entity>, String>,
    context: &str,
    built: Result<Option<SyncPayload>, SyncError>,
    e: Experience,
)
    requires
        record.event_type == WatchEventTypeTag::Updated,
        record.entity_type == EntityTypeTag::Experience,
        found is Ok,
        found->Ok_0 == Some(Entity::Experience(e)),
        call_ensures(build_payload, (record, found, context), built),
    ensures
        built is Ok,
        built->Ok_0 is Some,
        built->Ok_0->Some_0 is ExperienceUpdated,
        ({
            let p = built->Ok_0->Some_0;
            let update = p->ExperienceUpdated_update;
            &&& stands_for(p->ExperienceUpdated_id.value, record.entity_id)
            &&& p->ExperienceUpdated_timestamp.millis == record.timestamp_ms
            &&& update.importance == Some(e.importance)
            &&& update.confidence == Some(e.confidence)
            &&& update.domain == Some(e.domain)
            &&& update.tags == Some(e.tags)
            &&& update.related_files == Some(e.related_files)
            &&& update.archived == Some(e.archived)
            &&& update.applications == Some(e.applications)
            &&& update.last_reinforced == Some(e.last_reinforced)
        }),
{
    lemma_id_value(record.entity_id);
    assert(needed(*record) is Some);
    assert(built == Ok::<Option<SyncPayload>, SyncError>(payload(*record, found->Ok_0)));
}

/// An archiving or a deletion is sent whatever became of the record, under the identifier
/// that the event carries and with its date. Of a relation or an insight only the deletion is
/// sent beside the creation, and of a collective only the creation.
pub proof fn law_removal_carries_identifier_and_date(
    record: &WatchEventRecord,
    found: Result<Option<Entity>, String>,
    context: &str,
    built: Result<Option<SyncPayload>, SyncError>,
)
    requires
        record.event_type != WatchEventTypeTag::Created,
        !is_event(*record, EntityTypeTag::Experience, WatchEventTypeTag::Updated),
        call_ensures(build_payload, (record, found, context), built),
    ensures
        built is Ok,
        is_event(*record, EntityTypeTag::Experience, WatchEventTypeTag::Archived)
            ==> built->Ok_0 is Some && built->Ok_0->Some_0 is ExperienceArchived && {
            let p = built->Ok_0->Some_0;
            &&& stands_for(p->ExperienceArchived_id.value, record.entity_id)
            &&& p->ExperienceArchived_timestamp.millis == record.timestamp_ms
        },
        is_event(*record, EntityTypeTag::Experience, WatchEventTypeTag::Deleted)
            ==> built->Ok_0 is Some && built->Ok_0->Some_0 is ExperienceDeleted && {
            let p = built->Ok_0->Some_0;
            &&& stands_for(p->ExperienceDeleted_id.value, record.entity_id)
            &&& p->ExperienceDeleted_timestamp.millis == record.timestamp_ms
        },
        is_event(*record, EntityTypeTag::Relation, WatchEventTypeTag::Deleted)
            ==> built->Ok_0 is Some && built->Ok_0->Some_0 is RelationDeleted && {
            let p = built->Ok_0->Some_0;
            &&& stands_for(p->RelationDeleted_id.value, record.entity_id)
            &&& p->RelationDeleted_timestamp.millis == record.timestamp_ms
        },
        is_event(*record, EntityTypeTag::Insight, WatchEventTypeTag::Deleted)
            ==> built->Ok_0 is Some && built->Ok_0->Some_0 is InsightDeleted && {
            let p = built->Ok_0->Some_0;
            &&& stands_for(p->InsightDeleted_id.value, record.entity_id)
            &&& p->InsightDeleted_timestamp.millis == record.timestamp_ms
        },
        record.entity_type == EntityTypeTag::Collective ==> built->Ok_0 is None,
        record.entity_type != EntityTypeTag::Experience && record.event_type
            != WatchEventTypeTag::Deleted ==> built->Ok_0 is None,
{
    lemma_id_value(record.entity_id);
    assert(needed(*record) is None);
    assert(built == Ok::<Option<SyncPayload>, SyncError>(payload(*record, None)));
}

/// Exactly the creations, and the changes of an experience, are built from the record they
/// are about, under the identifier that the event carries: where that record is gone nothing
/// is sent, and where it could not be read building fails. No other event looks at a record.
pub proof fn law_records_needed(
    record: &WatchEventRecord,
    entity: Option<EntityRef>,
    found: Result<Option<Entity>, String>,
    context: &str,
    built: Result<Option<SyncPayload>, SyncError>,
)
    requires
        call_ensures(entity_needed, (record,), entity),
        call_ensures(build_payload, (record, found, context), built),
    ensures
        entity is Some <==> record.event_type == WatchEventTypeTag::Created || is_event(
            *record,
            EntityTypeTag::Experience,
            WatchEventTypeTag::Updated,
        ),
        entity matches Some(EntityRef::Experience(id)) ==> record.entity_type
            == EntityTypeTag::Experience && stands_for(id.value, record.entity_id),
        entity matches Some(EntityRef::Relation(id)) ==> record.entity_type
            == EntityTypeTag::Relation && stands_for(id.value, record.entity_id),
        entity matches Some(EntityRef::Insight(id)) ==> record.entity_type
            == EntityTypeTag::Insight && stands_for(id.value, record.entity_id),
        entity matches Some(EntityRef::Collective(id)) ==> record.entity_type
            == EntityTypeTag::Collective && stands_for(id.value, record.entity_id),
        built is Err <==> entity is Some && found is Err,
        entity is Some && found is Ok && found->Ok_0 is None ==> built is Ok && built->Ok_0 is None,
{
    lemma_id_value(record.entity_id);
    if needed(*record) is Some && found is Ok {
        assert(built == Ok::<Option<SyncPayload>, SyncError>(payload(*record, found->Ok_0)));
    }
}

/// Whether a change is the one that an event of `source`'s log stands for: under the event's
/// sequence, of its collective and its kind, and dated as it is.
pub open spec fn speaks_of(
    change: SyncChange,
    sequence: u64,
    record: WatchEventRecord,
    source: InstanceId,
) -> bool {
    &&& change.sequence == sequence
    &&& change.source_instance == source
    &&& stands_for(change.collective_id.value, record.collective_id)
    &&& change.timestamp.millis == record.timestamp_ms
    &&& record.entity_type == EntityTypeTag::Experience <==> change.entity_type
        == SyncEntityType::Experience
    &&& record.entity_type == EntityTypeTag::Relation <==> change.entity_type
        == SyncEntityType::Relation
    &&& record.entity_type == EntityTypeTag::Insight <==> change.entity_type
        == SyncEntityType::Insight
    &&& record.entity_type == EntityTypeTag::Collective <==> change.entity_type
        == SyncEntityType::Collective
}

/// A change speaks of its event, and carries the payload it was made with.
pub proof fn law_change_speaks_of_its_event(
    sequence: u64,
    record: &WatchEventRecord,
    source: InstanceId,
    p: SyncPayload,
    change: SyncChange,
)
    requires
        call_ensures(make_change, (sequence, record, source, p), change),
    ensures
        speaks_of(change, sequence, *record, source),
        change.payload == p,
{
    lemma_id_value(record.collective_id);
}

// ---------------------------------------------------------------------------
// Changes of the local log
// ---------------------------------------------------------------------------

/// A served event becomes a change exactly where it has something to tell, and that change
/// speaks of the event and carries its payload.
pub proof fn law_served_event(
    sequence: u64,
    record: &WatchEventRecord,
    source: InstanceId,
    found: Result<Option<Entity>, String>,
    context: &str,
    built: Result<Option<SyncPayload>, SyncError>,
    r: Result<Option<SyncChange>, SyncError>,
)
    requires
        call_ensures(build_change_from_record, (sequence, record, source, found), r),
        call_ensures(build_payload, (record, found, context), built),
    ensures
        r is Err <==> built is Err,
        r is Ok ==> (r->Ok_0 is Some <==> built->Ok_0 is Some),
        r is Ok && r->Ok_0 is Some ==> {
            &&& speaks_of(r->Ok_0->Some_0, sequence, *record, source)
            &&& r->Ok_0->Some_0.payload == built->Ok_0->Some_0
        },
{
    lemma_id_value(record.collective_id);
    if r is Ok {
        if needed(*record) is Some {
            assert(built == Ok::<Option<SyncPayload>, SyncError>(payload(*record, found->Ok_0)));
        } else {
            assert(built == Ok::<Option<SyncPayload>, SyncError>(payload(*record, None)));
        }
    }
}

/// The settings leave an event out where its collective is not among those to sync, or where
/// it is of a relation or an insight and those are not synced. Every other event becomes a
/// change exactly where it has something to tell, and that change speaks of the event, names
/// this instance as its source and carries the event's payload.
pub proof fn law_pushed_event(
    pusher: &LocalChangePusher,
    sequence: u64,
    record: &WatchEventRecord,
    found: Result<Option<Entity>, String>,
    context: &str,
    built: Result<Option<SyncPayload>, SyncError>,
    collective: CollectiveId,
    r: Result<Option<SyncChange>, SyncError>,
)
    requires
        stands_for(collective.value, record.collective_id),
        call_ensures(LocalChangePusher::record_to_change, (pusher, sequence, record, found), r),
        call_ensures(build_payload, (record, found, context), built),
    ensures
        ({
            let left_out = (pusher.config.collectives is Some
                && !pusher.config.collectives->Some_0@.contains(collective)) || (record.entity_type
                == EntityTypeTag::Relation && !pusher.config.sync_relations) || (
            record.entity_type == EntityTypeTag::Insight && !pusher.config.sync_insights);
            &&& left_out ==> r is Ok && r->Ok_0 is None
            &&& !left_out ==> (r is Err <==> built is Err)
            &&& !left_out && r is Ok ==> (r->Ok_0 is Some <==> built->Ok_0 is Some)
            &&& r is Ok && r->Ok_0 is Some ==> {
                &&& speaks_of(r->Ok_0->Some_0, sequence, *record, pusher.local_instance_id)
                &&& r->Ok_0->Some_0.payload == built->Ok_0->Some_0
            }
        }),
{
    lemma_id_value(record.collective_id);
    crate::bytes::lemma_pow256_values();
    crate::bytes::lemma_be_round_trip(collective.value as nat, 16);
    assert(collective == CollectiveId {
        value: crate::sync::payload::id_value(record.collective_id),
    });
    if built is Ok {
        if needed(*record) is Some {
            assert(built == Ok::<Option<SyncPayload>, SyncError>(payload(*record, found->Ok_0)));
        } else {
            assert(built == Ok::<Option<SyncPayload>, SyncError>(payload(*record, None)));
        }
    }
}

/// A collective filter lets a collective through exactly where it lists it, and no filter
/// lets every collective through.
pub proof fn law_filter(filter: &Option<Vec<CollectiveId>>, collective: CollectiveId, yes: bool)
    requires
        call_ensures(is_allowed, (filter, collective), yes),
    ensures
        *filter is None ==> yes,
        *filter is Some ==> (yes <==> exists|i: int|
            0 <= i < filter->Some_0@.len() && #[trigger] filter->Some_0@[i] == collective),
{
    if *filter is Some && yes {
        let ids = filter->Some_0;
        assert(ids@.contains(collective));
    }
}

// ---------------------------------------------------------------------------
// Packing
// ---------------------------------------------------------------------------

/// What is sent of a run of events are their changes in order: nothing of no events, and of
/// each further event its change where it has one. Their size is the sum of the sizes of
/// those changes, and the run reaches as far as its last event.
pub proof fn law_run_of_events(events: Seq<LogCandidate>, next: LogCandidate, prior: u64)
    ensures
        kept(Seq::empty()) == Seq::<SyncChange>::empty(),
        crate::sync::batch::kept_bytes(Seq::empty()) == 0,
        covered(Seq::empty(), prior) == prior,
        covered(events.push(next), prior) == next.sequence,
        next.change is Ok && next.change->Ok_0 is Some ==> kept(events.push(next)) == kept(
            events,
        ).push(next.change->Ok_0->Some_0) && crate::sync::batch::kept_bytes(events.push(next))
            == crate::sync::batch::kept_bytes(events) + next.item_len,
        !(next.change is Ok && next.change->Ok_0 is Some) ==> kept(events.push(next)) == kept(
            events,
        ) && crate::sync::batch::kept_bytes(events.push(next)) == crate::sync::batch::kept_bytes(
            events,
        ),
{
    assert(events.push(next).drop_last() =~= events);
}

/// The size of a frame is that of its envelope, which has one byte for the length of the
/// list, of its items, and of what the length of the list takes beyond that byte; where that
/// exceeds what the machine can count, it is the largest number that it can.
pub proof fn law_frame_size(envelope: nat, count: nat, items: nat)
    ensures
        ({
            let size = envelope + items + crate::bytes::varint(count).len() - 1;
            &&& size <= usize::MAX ==> crate::sync::wire::frame_len(envelope, count, items) == size
            &&& size > usize::MAX ==> crate::sync::wire::frame_len(envelope, count, items)
                == usize::MAX
        }),
        count < 128 ==> crate::bytes::varint(count).len() == 1,
        count >= 128 ==> crate::bytes::varint(count).len() == 1 + crate::bytes::varint(
            count / 128,
        ).len(),
{
}

/// Size of the frame that carries the changes among `events`.
pub open spec fn size_of(events: Seq<LogCandidate>, envelope: usize) -> nat {
    crate::sync::wire::frame_len(
        envelope as nat,
        kept(events).len(),
        crate::sync::batch::kept_bytes(events),
    )
}

/// A packed batch covers events from the first on, sends exactly their changes and reports
/// how far they reach. It holds no more changes than allowed, and fits the byte budget
/// wherever the empty request does. It ends before the last event only at a change, and only
/// where that change would be one too many or would not fit.
pub proof fn law_longest_batch(
    candidates: Vec<LogCandidate>,
    prior: u64,
    envelope: usize,
    cap: usize,
    batch_size: usize,
    r: Result<PackedPush, SyncError>,
)
    requires
        envelope <= cap,
        call_ensures(pack, (candidates, prior, envelope, cap, batch_size), r),
    ensures
        r is Ok ==> {
            let n = r->Ok_0.taken as int;
            let events = candidates@.take(n);
            &&& 0 <= n <= candidates@.len()
            &&& r->Ok_0.changes@ == kept(events)
            &&& r->Ok_0.scanned == covered(events, prior)
            &&& kept(events).len() <= batch_size
            &&& size_of(events, envelope) <= cap
            &&& n < candidates@.len() ==> {
                &&& candidates@[n].change is Ok
                &&& candidates@[n].change->Ok_0 is Some
                &&& kept(events).len() == batch_size || size_of(
                    candidates@.take(n + 1),
                    envelope,
                ) > cap
            }
        },
{
    if r is Ok {
        let n = r->Ok_0.taken as int;
        assert(crate::sync::pusher::covers(candidates@, n, envelope, cap, batch_size));
        crate::sync::pusher::law_packed_push_fits(candidates@, n, envelope, cap, batch_size);
        if n < candidates@.len() {
            assert(!crate::sync::pusher::extends(candidates@, n, envelope, cap, batch_size));
        }
    }
}

/// Packing succeeds wherever every event could be read and every change fits a request of
/// its own.
pub proof fn law_packing_succeeds(
    candidates: Vec<LogCandidate>,
    prior: u64,
    envelope: usize,
    cap: usize,
    batch_size: usize,
    r: Result<PackedPush, SyncError>,
)
    requires
        call_ensures(pack, (candidates, prior, envelope, cap, batch_size), r),
        forall|i: int|
            0 <= i < candidates@.len() ==> (#[trigger] candidates@[i]).change is Ok && (
            candidates@[i].change->Ok_0 is Some ==> size_of(seq![candidates@[i]], envelope) <= cap),
    ensures
        r is Ok,
{
    if r is Err {
        let e = r->Err_0;
        let all = candidates@;
        let n = choose|n: int|
            {
                &&& #[trigger] crate::sync::pusher::covers(all, n, envelope, cap, batch_size)
                &&& n < all.len()
                &&& match all[n].change {
                    Err(fault) => e == fault,
                    Ok(_) => crate::sync::pusher::blocks(all, n, prior, envelope, cap, batch_size)
                        && (all[n].change matches Ok(Some(change)) && e == (
                    SyncError::ChangeTooLarge {
                        sequence: change.sequence,
                        needed: crate::sync::pusher::kept_frame_len(
                            all.take(n + 1),
                            envelope,
                        ) as u64,
                        cap: cap as u64,
                    })),
                }
            };
        assert(all[n].change is Ok);
        lemma_alone(all, n);
        assert(size_of(seq![all[n]], envelope) == size_of(all.take(n + 1), envelope));
    }
}

/// A change that no request can carry is reported under its own sequence, with the size it
/// needs and the budget it exceeds: it is the first change, alone it exceeds the budget, and
/// no event before it moved the position.
pub proof fn law_change_too_large(
    candidates: Vec<LogCandidate>,
    prior: u64,
    envelope: usize,
    cap: usize,
    batch_size: usize,
    r: Result<PackedPush, SyncError>,
)
    requires
        call_ensures(pack, (candidates, prior, envelope, cap, batch_size), r),
        r is Err,
    ensures
        exists|n: int|
            {
                &&& 0 <= n < candidates@.len()
                &&& forall|i: int| 0 <= i < n ==> (#[trigger] candidates@[i]).change is Ok
                &&& (#[trigger] candidates@[n]).change is Err ==> r->Err_0
                    == candidates@[n].change->Err_0
                &&& candidates@[n].change is Ok ==> candidates@[n].change->Ok_0 is Some && {
                    &&& size_of(seq![candidates@[n]], envelope) > cap
                    &&& kept(candidates@.take(n)).len() == 0
                    &&& covered(candidates@.take(n), prior) <= prior
                    &&& r->Err_0 == (SyncError::ChangeTooLarge {
                        sequence: candidates@[n].change->Ok_0->Some_0.sequence,
                        needed: size_of(seq![candidates@[n]], envelope) as u64,
                        cap: cap as u64,
                    })
                }
            },
{
    let e = r->Err_0;
    let all = candidates@;
    let n = choose|n: int|
        {
            &&& #[trigger] crate::sync::pusher::covers(all, n, envelope, cap, batch_size)
            &&& n < all.len()
            &&& match all[n].change {
                Err(fault) => e == fault,
                Ok(_) => crate::sync::pusher::blocks(all, n, prior, envelope, cap, batch_size) && (
                all[n].change matches Ok(Some(change)) && e == (SyncError::ChangeTooLarge {
                    sequence: change.sequence,
                    needed: crate::sync::pusher::kept_frame_len(
                        all.take(n + 1),
                        envelope,
                    ) as u64,
                    cap: cap as u64,
                })),
            }
        };
    assert forall|i: int| 0 <= i < n implies (#[trigger] all[i]).change is Ok by {
        assert(crate::sync::pusher::extends(all, i, envelope, cap, batch_size));
    }
    if all[n].change is Ok {
        lemma_alone(all, n);
        assert(size_of(seq![all[n]], envelope) == size_of(all.take(n + 1), envelope));
    }
}

/// Packing never stands still: where a batch may hold a change and there is an event, it
/// covers the first one, or fails. It fails, and says what the frame takes, where the first
/// event is a change that alone does not fit.
pub proof fn law_packing_moves_on(
    candidates: Vec<LogCandidate>,
    prior: u64,
    envelope: usize,
    cap: usize,
    batch_size: usize,
    r: Result<PackedPush, SyncError>,
)
    requires
        call_ensures(pack, (candidates, prior, envelope, cap, batch_size), r),
        batch_size > 0,
        candidates@.len() > 0,
    ensures
        r is Ok ==> r->Ok_0.taken > 0,
        candidates@[0].change is Err ==> r is Err && r->Err_0 == candidates@[0].change->Err_0,
        candidates@[0].change is Ok && candidates@[0].change->Ok_0 is Some && size_of(
            seq![candidates@[0]],
            envelope,
        ) > cap ==> r is Err && r->Err_0 == (SyncError::ChangeTooLarge {
            sequence: candidates@[0].change->Ok_0->Some_0.sequence,
            needed: size_of(seq![candidates@[0]], envelope) as u64,
            cap: cap as u64,
        }),
{
    let all = candidates@;
    assert(all.take(0) =~= Seq::empty());
    assert(all.take(1) =~= seq![all[0]]);
    if r is Ok {
        let n = r->Ok_0.taken as int;
        assert(crate::sync::pusher::covers(all, n, envelope, cap, batch_size));
        if n > 0 {
            assert(crate::sync::pusher::extends(all, 0, envelope, cap, batch_size));
        }
    } else {
        let e = r->Err_0;
        let n = choose|n: int|
            {
                &&& #[trigger] crate::sync::pusher::covers(all, n, envelope, cap, batch_size)
                &&& n < all.len()
                &&& match all[n].change {
                    Err(fault) => e == fault,
                    Ok(_) => crate::sync::pusher::blocks(all, n, prior, envelope, cap, batch_size)
                        && (all[n].change matches Ok(Some(change)) && e == (
                    SyncError::ChangeTooLarge {
                        sequence: change.sequence,
                        needed: crate::sync::pusher::kept_frame_len(
                            all.take(n + 1),
                            envelope,
                        ) as u64,
                        cap: cap as u64,
                    })),
                }
            };
        if n > 0 {
            assert(crate::sync::pusher::extends(all, 0, envelope, cap, batch_size));
        }
    }
}

/// Where no event before event `n` has a change, what is sent through `n` is its own change.
proof fn lemma_alone(all: Seq<LogCandidate>, n: int)
    requires
        0 <= n < all.len(),
        all[n].change is Ok && all[n].change->Ok_0 is Some,
        kept(all.take(n)).len() == 0,
    ensures
        kept(all.take(n + 1)).len() == kept(seq![all[n]]).len(),
        crate::sync::batch::kept_bytes(all.take(n + 1)) == crate::sync::batch::kept_bytes(
            seq![all[n]],
        ),
{
    crate::sync::batch::lemma_take_next(all, n);
    lemma_no_bytes(all.take(n));
    assert(seq![all[n]].drop_last() =~= Seq::empty());
    assert(seq![all[n]].last() == all[n]);
    assert(kept(Seq::<LogCandidate>::empty()).len() == 0);
    assert(crate::sync::batch::kept_bytes(Seq::<LogCandidate>::empty()) == 0);
}

proof fn lemma_no_bytes(events: Seq<LogCandidate>)
    requires
        kept(events).len() == 0,
    ensures
        crate::sync::batch::kept_bytes(events) == 0,
    decreases events.len(),
{
    if events.len() > 0 {
        lemma_no_bytes(events.drop_last());
    }
}

/// A push packs what lies behind the stored position, within the smaller of what this
/// instance may build and the peer accepts, and with no more changes than a batch may hold.
pub proof fn law_push_packs_behind_the_position(
    pusher: &LocalChangePusher,
    candidates: Vec<LogCandidate>,
    envelope: usize,
    r: Result<PackedPush, SyncError>,
)
    requires
        envelope <= pusher.config.max_request_bytes,
        envelope <= pusher.peer_receive_limit_bytes,
        call_ensures(LocalChangePusher::push_pending, (pusher, candidates, envelope), r),
    ensures
        r is Ok ==> {
            let n = r->Ok_0.taken as int;
            let events = candidates@.take(n);
            &&& 0 <= n <= candidates@.len()
            &&& r->Ok_0.changes@ == kept(events)
            &&& r->Ok_0.scanned == covered(events, pusher.position)
            &&& kept(events).len() <= pusher.config.batch_size
            &&& size_of(events, envelope) <= pusher.config.max_request_bytes
            &&& size_of(events, envelope) <= pusher.peer_receive_limit_bytes
            &&& n < candidates@.len() ==> {
                let size = size_of(candidates@.take(n + 1), envelope);
                ||| kept(events).len() == pusher.config.batch_size
                ||| size > pusher.config.max_request_bytes
                ||| size > pusher.peer_receive_limit_bytes
            }
        },
{
    if r is Ok {
        let n = r->Ok_0.taken as int;
        let cap = crate::sync::pusher::tighter(
            pusher.config.max_request_bytes,
            pusher.peer_receive_limit_bytes,
        );
        let batch_size = pusher.config.batch_size;
        assert(crate::sync::pusher::covers(candidates@, n, envelope, cap, batch_size));
        crate::sync::pusher::law_packed_push_fits(candidates@, n, envelope, cap, batch_size);
        if n < candidates@.len() {
            assert(!crate::sync::pusher::extends(candidates@, n, envelope, cap, batch_size));
        }
    }
}

/// A push is sent from this instance to its peer under the current protocol version, with
/// the changes as they were packed; the answer may take what this instance accepts and its
/// transport reads, whichever is less.
pub proof fn law_push_request(
    pusher: &LocalChangePusher,
    changes: Vec<SyncChange>,
    transport_limit: usize,
    request: PushRequest,
)
    requires
        call_ensures(LocalChangePusher::request, (pusher, changes, transport_limit), request),
    ensures
        request.protocol_version == crate::sync::SYNC_PROTOCOL_VERSION,
        request.source_instance == pusher.local_instance_id,
        request.target_instance == pusher.peer_instance_id,
        request.changes == changes,
        request.reply_limit_bytes <= pusher.config.max_request_bytes,
        request.reply_limit_bytes <= transport_limit,
        request.reply_limit_bytes == pusher.config.max_request_bytes || request.reply_limit_bytes
            == transport_limit,
{
}

// ---------------------------------------------------------------------------
// Acknowledgements
// ---------------------------------------------------------------------------

/// An acknowledgement is accepted where it speaks of this instance's log, counts as many
/// changes as were sent, splits them into accepted and rejected ones and names a position
/// that was sent, if any; every other one is refused.
pub proof fn law_valid_acknowledgement(
    ack: &PushAck,
    local: InstanceId,
    sent: &Vec<u64>,
    r: Result<(), SyncError>,
)
    requires
        ack.accepted + ack.rejected <= u64::MAX,
        call_ensures(validate_ack, (ack, local, sent), r),
    ensures
        r is Ok <==> {
            &&& ack.wal_owner == local
            &&& ack.total == sent@.len()
            &&& ack.accepted + ack.rejected == sent@.len()
            &&& ack.safe_through is Some ==> sent@.contains(ack.safe_through->Some_0)
        },
{
}

/// A cursor moves to what was scanned where nothing failed, and only to what is safe where
/// anything did; it stays where neither lies ahead of it.
pub proof fn law_cursor_moves(
    prior: u64,
    scanned: u64,
    failed: usize,
    safe: Option<u64>,
    next: u64,
)
    requires
        call_ensures(next_progress, (prior, scanned, failed, safe), next),
    ensures
        next >= prior,
        failed == 0 ==> next >= scanned && (next == prior || next == scanned),
        failed > 0 && safe is None ==> next == prior,
        failed > 0 && safe is Some ==> next >= safe->Some_0 && (next == prior || next
            == safe->Some_0),
{
}

/// The smaller of two budgets is one of them, and exceeds neither.
pub proof fn law_tighter_budget(a: usize, b: usize, n: usize)
    requires
        call_ensures(tighter_budget, (a, b), n),
    ensures
        n <= a,
        n <= b,
        n == a || n == b,
{
}

/// An answer may be as large as both this instance and its transport take.
pub proof fn law_reply_limit(
    pusher: &LocalChangePusher,
    config: &crate::sync::config::SyncConfig,
    transport_limit: usize,
    sent: u64,
    asked: u64,
)
    requires
        *config == pusher.config,
        call_ensures(LocalChangePusher::reply_limit_bytes, (pusher, transport_limit), sent),
        call_ensures(crate::sync::manager::reply_limit_bytes, (config, transport_limit), asked),
    ensures
        sent == asked,
        sent <= config.max_request_bytes,
        sent <= transport_limit,
        sent == config.max_request_bytes || sent == transport_limit,
{
}

/// A push ends without a new position where the answer did not come, where someone else
/// answered, which is reported, and where the answer is no acknowledgement of what was sent.
/// An answer of the peer that accepts everything moves the position through what was scanned;
/// one that rejects anything moves it at most to the acknowledged position.
pub proof fn law_concluded_push(
    pusher: &LocalChangePusher,
    scanned: u64,
    sent: &Vec<u64>,
    reply: Result<WireReply<PushAck>, SyncError>,
    step: PushStep,
)
    requires
        call_ensures(LocalChangePusher::conclude, (pusher, scanned, sent, reply), step),
    ensures
        reply is Err ==> step == PushStep::Over(Err::<PushOutcome, SyncError>(reply->Err_0)),
        reply is Ok && reply->Ok_0.responder != pusher.peer_instance_id ==> step == PushStep::Over(
            Ok::<PushOutcome, SyncError>(PushOutcome::PeerChanged(reply->Ok_0.responder)),
        ),
        reply is Ok && reply->Ok_0.responder == pusher.peer_instance_id
            && reply->Ok_0.protocol_version == crate::sync::SYNC_PROTOCOL_VERSION
            && reply->Ok_0.result is Served ==> {
            let ack = reply->Ok_0.result->Served_0;
            let matching = ack.wal_owner == pusher.local_instance_id && ack.total == sent@.len()
                && ack.accepted + ack.rejected == sent@.len() && (ack.safe_through is Some
                ==> sent@.contains(ack.safe_through->Some_0));
            &&& matching ==> step is Save && step->Save_count == sent@.len() && {
                let next = step->Save_next;
                &&& next >= pusher.position
                &&& ack.rejected == 0 ==> next >= scanned && (next == pusher.position || next
                    == scanned)
                &&& ack.rejected > 0 && ack.safe_through is None ==> next == pusher.position
                &&& ack.rejected > 0 && ack.safe_through is Some ==> next >= ack.safe_through->Some_0
                    && (next == pusher.position || next == ack.safe_through->Some_0)
            }
            &&& !matching && ack.accepted + ack.rejected <= u64::MAX ==> step is Over
                && step->Over_0 is Err
        },
        reply is Ok && reply->Ok_0.responder == pusher.peer_instance_id
            && !(reply->Ok_0.protocol_version == crate::sync::SYNC_PROTOCOL_VERSION
            && reply->Ok_0.result is Served) ==> step is Over,
{
    assert(sent@.len() == sent.len());
}

} // verus!
