//! What a peer's change does to the store it meets.

use vstd::prelude::*;

use crate::laws::experiences::{
    counts_merged, indexes_kept, lemma_counts_merged, only_experiences_changed, others_kept,
    same_origin,
};
use crate::model::{
    Collective, DerivedInsight, Experience, ExperienceRelation,
};
use crate::storage::store::{Plan, StoreView};
use crate::sync::applier::{
    archiving, carried_applications, carries_counters, is_application, is_merged, is_skewed,
    lacks_dependency, local_wins, reinforcement_time, safe_position, with_record, ApplyOutcome,
    ApplyResult, ChangeOutcome, LocalRows, RemoteChangeApplier,
};
use crate::sync::config::ConflictResolution;
use crate::sync::error::SyncError;
use crate::sync::types::{SerializableExperienceUpdate, SyncChange, SyncPayload};
use crate::types::{ExperienceId, InsightId, RelationId, Timestamp};

verus! {

// ---------------------------------------------------------------------------
// Changes of an experience
// ---------------------------------------------------------------------------

/// Whether every scalar field that `update` carries has the carried value in `after`, and
/// every one that it does not carry has the value of `local`.
pub open spec fn scalars_taken(
    local: Experience,
    update: SerializableExperienceUpdate,
    after: Experience,
) -> bool {
    &&& update.importance matches Some(v) ==> after.importance == v
    &&& update.importance is None ==> after.importance == local.importance
    &&& update.confidence matches Some(v) ==> after.confidence == v
    &&& update.confidence is None ==> after.confidence == local.confidence
    &&& update.domain matches Some(v) ==> after.domain == v
    &&& update.domain is None ==> after.domain == local.domain
    &&& update.tags matches Some(v) ==> after.tags == v
    &&& update.tags is None ==> after.tags == local.tags
    &&& update.related_files matches Some(v) ==> after.related_files == v
    &&& update.related_files is None ==> after.related_files == local.related_files
    &&& update.archived matches Some(v) ==> after.archived == v
    &&& update.archived is None ==> after.archived == local.archived
}

/// Whether every scalar field of `after` is that of `local`.
pub open spec fn scalars_kept(local: Experience, after: Experience) -> bool {
    &&& after.importance == local.importance
    &&& after.confidence == local.confidence
    &&& after.domain == local.domain
    &&& after.tags == local.tags
    &&& after.related_files == local.related_files
    &&& after.archived == local.archived
}

/// Whether `after` has the counts and the reinforcement time of `local` with those that
/// `update` carries merged in: per instance the larger count, and the later time.
pub open spec fn counters_taken(
    local: Experience,
    update: SerializableExperienceUpdate,
    after: Experience,
) -> bool {
    &&& forall|i: u128|
        {
            let n = #[trigger] crate::laws::experiences::count_of(after.applications@, i);
            let ours = crate::laws::experiences::count_of(local.applications@, i);
            let theirs = match update.applications {
                Some(m) => crate::laws::experiences::count_of(m@, i),
                None => 0,
            };
            &&& n >= ours
            &&& n >= theirs
            &&& n == ours || n == theirs
        }
    &&& after.last_reinforced.millis >= local.last_reinforced.millis
    &&& update.last_reinforced matches Some(t) ==> after.last_reinforced.millis >= t.millis
    &&& after.last_reinforced.millis == local.last_reinforced.millis || update.last_reinforced
        == Some(after.last_reinforced)
}

proof fn lemma_merged(
    local: Experience,
    update: SerializableExperienceUpdate,
    after: Experience,
)
    requires
        is_merged(local, update, after),
    ensures
        counters_taken(local, update, after),
        scalars_kept(local, after),
        same_origin(local, after),
{
    if carries_counters(update) {
        lemma_counts_merged(local, carried_applications(update), update.last_reinforced, after);
    }
    assert forall|i: u128|
        {
            let n = #[trigger] crate::laws::experiences::count_of(after.applications@, i);
            let ours = crate::laws::experiences::count_of(local.applications@, i);
            let theirs = match update.applications {
                Some(m) => crate::laws::experiences::count_of(m@, i),
                None => 0,
            };
            &&& n >= ours
            &&& n >= theirs
            &&& n == ours || n == theirs
        } by {
        if carries_counters(update) {
            let n = crate::laws::experiences::count_of(after.applications@, i);
            assert(n == crate::laws::experiences::count_of(local.applications@, i) || n
                == crate::laws::experiences::count_of(carried_applications(update), i));
        }
    }
}

/// Under last-write-wins, a change of an experience that is dated at or after the local
/// record's moment decides the conflict for itself: the outcome says that a conflict was
/// resolved, and in the store after the plan every scalar field that the update carries has
/// the carried value. Fields that it does not carry keep their values, counters are merged,
/// and nothing else of the record, of its indexes or of the store changes.
pub proof fn law_later_write_wins(
    applier: &RemoteChangeApplier,
    change: SyncChange,
    rows: Result<LocalRows, String>,
    r: Result<(Plan, ApplyOutcome), SyncError>,
    id: ExperienceId,
    update: SerializableExperienceUpdate,
    timestamp: Timestamp,
    s: StoreView,
)
    requires
        applier.config.conflict_resolution == ConflictResolution::LastWriteWins,
        change.payload == (SyncPayload::ExperienceUpdated { id, update, timestamp }),
        rows is Ok,
        rows->Ok_0.experience is Some,
        timestamp.millis >= rows->Ok_0.experience->Some_0.timestamp.millis,
        call_ensures(RemoteChangeApplier::apply_single, (applier, change, rows), r),
    ensures
        r is Ok,
        r->Ok_0.1 == ApplyOutcome::ConflictResolved,
        ({
            let local = rows->Ok_0.experience->Some_0;
            let after = r->Ok_0.0.effect(s);
            &&& after.experiences.contains_key(id)
            &&& scalars_taken(local, update, after.experiences[id])
            &&& counters_taken(local, update, after.experiences[id])
            &&& same_origin(local, after.experiences[id])
            &&& others_kept(s, after, id)
            &&& indexes_kept(s, after)
            &&& only_experiences_changed(s, after)
        }),
{
    lemma_change_taken(applier, change, rows, r, id, update, timestamp, s);
}

/// Where the server wins, every change of an experience that is there is applied, whatever
/// its date: every scalar field that the update carries has the carried value, and the rest
/// is as under a later write.
pub proof fn law_server_wins(
    applier: &RemoteChangeApplier,
    change: SyncChange,
    rows: Result<LocalRows, String>,
    r: Result<(Plan, ApplyOutcome), SyncError>,
    id: ExperienceId,
    update: SerializableExperienceUpdate,
    timestamp: Timestamp,
    s: StoreView,
)
    requires
        applier.config.conflict_resolution == ConflictResolution::ServerWins,
        change.payload == (SyncPayload::ExperienceUpdated { id, update, timestamp }),
        rows is Ok,
        rows->Ok_0.experience is Some,
        call_ensures(RemoteChangeApplier::apply_single, (applier, change, rows), r),
    ensures
        r is Ok,
        r->Ok_0.1 == ApplyOutcome::Applied,
        ({
            let local = rows->Ok_0.experience->Some_0;
            let after = r->Ok_0.0.effect(s);
            &&& after.experiences.contains_key(id)
            &&& scalars_taken(local, update, after.experiences[id])
            &&& counters_taken(local, update, after.experiences[id])
            &&& same_origin(local, after.experiences[id])
            &&& others_kept(s, after, id)
            &&& indexes_kept(s, after)
            &&& only_experiences_changed(s, after)
        }),
{
    lemma_change_taken(applier, change, rows, r, id, update, timestamp, s);
}

proof fn lemma_change_taken(
    applier: &RemoteChangeApplier,
    change: SyncChange,
    rows: Result<LocalRows, String>,
    r: Result<(Plan, ApplyOutcome), SyncError>,
    id: ExperienceId,
    update: SerializableExperienceUpdate,
    timestamp: Timestamp,
    s: StoreView,
)
    requires
        change.payload == (SyncPayload::ExperienceUpdated { id, update, timestamp }),
        rows is Ok,
        rows->Ok_0.experience is Some,
        applier.config.conflict_resolution == ConflictResolution::LastWriteWins ==> timestamp.millis
            >= rows->Ok_0.experience->Some_0.timestamp.millis,
        call_ensures(RemoteChangeApplier::apply_single, (applier, change, rows), r),
    ensures
        r is Ok,
        r->Ok_0.1 == if applier.config.conflict_resolution == ConflictResolution::LastWriteWins {
            ApplyOutcome::ConflictResolved
        } else {
            ApplyOutcome::Applied
        },
        ({
            let local = rows->Ok_0.experience->Some_0;
            let after = r->Ok_0.0.effect(s);
            &&& after.experiences.contains_key(id)
            &&& scalars_taken(local, update, after.experiences[id])
            &&& counters_taken(local, update, after.experiences[id])
            &&& same_origin(local, after.experiences[id])
            &&& others_kept(s, after, id)
            &&& indexes_kept(s, after)
            &&& only_experiences_changed(s, after)
        }),
{
    let met = rows->Ok_0;
    let local = met.experience->Some_0;
    assert(r is Err <==> (rows is Err || lacks_dependency(change.payload, met)));
    let plan = r->Ok_0.0;
    let outcome = r->Ok_0.1;
    let resolution = applier.config.conflict_resolution;
    assert(is_application(change.payload, met, resolution, plan, outcome));
    assert(!local_wins(resolution, local, timestamp));
    let m = choose|m: Experience|
        #[trigger] is_merged(local, update, m) && forall|t: StoreView| #[trigger]
            plan.effect(t) == with_record(
                t,
                id,
                crate::storage::experiences::updated(m, update.scalars()),
            );
    assert(plan.effect(s) == with_record(
        s,
        id,
        crate::storage::experiences::updated(m, update.scalars()),
    ));
    lemma_merged(local, update, m);
    assert(plan.effect(s).experiences[id].applications == m.applications);
    assert forall|i: u128|
        {
            let n = #[trigger] crate::laws::experiences::count_of(
                plan.effect(s).experiences[id].applications@,
                i,
            );
            let ours = crate::laws::experiences::count_of(local.applications@, i);
            let theirs = match update.applications {
                Some(m) => crate::laws::experiences::count_of(m@, i),
                None => 0,
            };
            &&& n >= ours
            &&& n >= theirs
            &&& n == ours || n == theirs
        } by {
        let n = crate::laws::experiences::count_of(m.applications@, i);
    }
}

/// Under last-write-wins, a change of an experience that is dated before the local record's
/// moment changes no scalar field: the counters that it carries are merged and a conflict is
/// reported, or, where it carries none, it is skipped and nothing is written.
pub proof fn law_earlier_write_loses(
    applier: &RemoteChangeApplier,
    change: SyncChange,
    rows: Result<LocalRows, String>,
    r: Result<(Plan, ApplyOutcome), SyncError>,
    id: ExperienceId,
    update: SerializableExperienceUpdate,
    timestamp: Timestamp,
    s: StoreView,
)
    requires
        applier.config.conflict_resolution == ConflictResolution::LastWriteWins,
        change.payload == (SyncPayload::ExperienceUpdated { id, update, timestamp }),
        rows is Ok,
        rows->Ok_0.experience is Some,
        timestamp.millis < rows->Ok_0.experience->Some_0.timestamp.millis,
        call_ensures(RemoteChangeApplier::apply_single, (applier, change, rows), r),
    ensures
        r is Ok,
        update.applications is None && update.last_reinforced is None ==> r->Ok_0.1
            == ApplyOutcome::Skipped && r->Ok_0.0.effect(s) == s,
        update.applications is Some || update.last_reinforced is Some ==> r->Ok_0.1
            == ApplyOutcome::ConflictResolved && {
            let local = rows->Ok_0.experience->Some_0;
            let after = r->Ok_0.0.effect(s);
            &&& after.experiences.contains_key(id)
            &&& scalars_kept(local, after.experiences[id])
            &&& counters_taken(local, update, after.experiences[id])
            &&& same_origin(local, after.experiences[id])
            &&& others_kept(s, after, id)
            &&& indexes_kept(s, after)
            &&& only_experiences_changed(s, after)
        },
{
    let met = rows->Ok_0;
    let local = met.experience->Some_0;
    assert(r is Err <==> (rows is Err || lacks_dependency(change.payload, met)));
    let plan = r->Ok_0.0;
    assert(is_application(
        change.payload,
        met,
        applier.config.conflict_resolution,
        plan,
        r->Ok_0.1,
    ));
    assert(local_wins(applier.config.conflict_resolution, local, timestamp));
    let m = choose|m: Experience|
        #[trigger] is_merged(local, update, m) && if carries_counters(update) {
            forall|t: StoreView| #[trigger] plan.effect(t) == with_record(t, id, m)
        } else {
            forall|t: StoreView| #[trigger] plan.effect(t) == t
        };
    lemma_merged(local, update, m);
    if carries_counters(update) {
        assert(plan.effect(s) == with_record(s, id, m));
    } else {
        assert(plan.effect(s) == s);
    }
}

/// A change of an experience that is not there fails, and so does every change whose local
/// records could not be read.
pub proof fn law_change_without_its_record_fails(
    applier: &RemoteChangeApplier,
    change: SyncChange,
    rows: Result<LocalRows, String>,
    r: Result<(Plan, ApplyOutcome), SyncError>,
)
    requires
        call_ensures(RemoteChangeApplier::apply_single, (applier, change, rows), r),
    ensures
        rows is Err ==> r is Err,
        rows is Ok && change.payload is ExperienceUpdated ==> (r is Err
            <==> rows->Ok_0.experience is None),
        rows is Ok && change.payload is RelationCreated ==> (r is Err <==> rows->Ok_0.relation
            is None && rows->Ok_0.experience is None),
        rows is Ok && !(change.payload is ExperienceUpdated) && !(change.payload
            is RelationCreated) ==> r is Ok,
{
}

/// The recording of an experience that is not there yet stores it as it was recorded: its
/// record, its embedding and both index entries. Nothing else changes.
pub proof fn law_new_experience_is_stored(
    applier: &RemoteChangeApplier,
    change: SyncChange,
    rows: Result<LocalRows, String>,
    r: Result<(Plan, ApplyOutcome), SyncError>,
    e: Experience,
    s: StoreView,
)
    requires
        change.payload == SyncPayload::ExperienceCreated(e),
        rows is Ok,
        rows->Ok_0.experience is None,
        call_ensures(RemoteChangeApplier::apply_single, (applier, change, rows), r),
    ensures
        r is Ok,
        r->Ok_0.1 == ApplyOutcome::Applied,
        ({
            let after = r->Ok_0.0.effect(s);
            let entry = e.timestamp.spec_bytes() + e.id.spec_bytes();
            let key = e.collective_id.spec_bytes().push(e.experience_type.tag.byte());
            &&& after.experiences == s.experiences.insert(e.id, e)
            &&& after.embeddings == s.embeddings.insert(
                e.id,
                crate::storage::experiences::embedding_bytes(e.embedding@),
            )
            &&& after.by_collective == s.by_collective.insert((e.collective_id, entry))
            &&& after.by_type == s.by_type.insert((key, e.id))
            &&& only_experiences_changed(s, after)
            &&& after.events == s.events
            &&& after.wal_sequence == s.wal_sequence
        }),
{
    let plan = r->Ok_0.0;
    assert(is_application(
        change.payload,
        rows->Ok_0,
        applier.config.conflict_resolution,
        plan,
        r->Ok_0.1,
    ));
    assert(plan.effect(s) == crate::storage::experiences::with_experience(s, e));
}

/// The recording of an experience that is there already merges its counters into the local
/// record and changes nothing else.
pub proof fn law_known_experience_is_merged(
    applier: &RemoteChangeApplier,
    change: SyncChange,
    rows: Result<LocalRows, String>,
    r: Result<(Plan, ApplyOutcome), SyncError>,
    e: Experience,
    s: StoreView,
)
    requires
        change.payload == SyncPayload::ExperienceCreated(e),
        rows is Ok,
        rows->Ok_0.experience is Some,
        call_ensures(RemoteChangeApplier::apply_single, (applier, change, rows), r),
    ensures
        r is Ok,
        r->Ok_0.1 == ApplyOutcome::Applied,
        ({
            let local = rows->Ok_0.experience->Some_0;
            let after = r->Ok_0.0.effect(s);
            &&& after.experiences.contains_key(e.id)
            &&& counts_merged(
                local,
                e.applications@,
                Some(e.last_reinforced),
                after.experiences[e.id],
            )
            &&& others_kept(s, after, e.id)
            &&& indexes_kept(s, after)
            &&& only_experiences_changed(s, after)
            &&& after.events == s.events
            &&& after.wal_sequence == s.wal_sequence
        }),
{
    let local = rows->Ok_0.experience->Some_0;
    let plan = r->Ok_0.0;
    assert(is_application(
        change.payload,
        rows->Ok_0,
        applier.config.conflict_resolution,
        plan,
        r->Ok_0.1,
    ));
    let m = choose|m: Experience|
        #[trigger] crate::storage::experiences::is_counter_merge(
            local,
            e.applications@,
            Some(e.last_reinforced),
            m,
        ) && forall|t: StoreView| #[trigger] plan.effect(t) == with_record(t, e.id, m);
    assert(plan.effect(s) == with_record(s, e.id, m));
    lemma_counts_merged(local, e.applications@, Some(e.last_reinforced), m);
}

/// Archiving an experience that is there sets its archived flag and changes nothing else;
/// archiving one that is not is skipped.
pub proof fn law_archiving_sets_the_flag(
    applier: &RemoteChangeApplier,
    change: SyncChange,
    rows: Result<LocalRows, String>,
    r: Result<(Plan, ApplyOutcome), SyncError>,
    id: ExperienceId,
    timestamp: Timestamp,
    s: StoreView,
)
    requires
        change.payload == (SyncPayload::ExperienceArchived { id, timestamp }),
        rows is Ok,
        call_ensures(RemoteChangeApplier::apply_single, (applier, change, rows), r),
    ensures
        r is Ok,
        rows->Ok_0.experience is None ==> r->Ok_0.1 == ApplyOutcome::Skipped
            && r->Ok_0.0.effect(s) == s,
        rows->Ok_0.experience is Some ==> r->Ok_0.1 == ApplyOutcome::Applied && {
            let local = rows->Ok_0.experience->Some_0;
            let after = r->Ok_0.0.effect(s);
            &&& after.experiences.contains_key(id)
            &&& after.experiences[id] == (Experience { archived: true, ..local })
            &&& others_kept(s, after, id)
            &&& indexes_kept(s, after)
            &&& only_experiences_changed(s, after)
            &&& after.events == s.events
            &&& after.wal_sequence == s.wal_sequence
        },
{
    let plan = r->Ok_0.0;
    assert(is_application(
        change.payload,
        rows->Ok_0,
        applier.config.conflict_resolution,
        plan,
        r->Ok_0.1,
    ));
    match rows->Ok_0.experience {
        None => {
            assert(plan.effect(s) == s);
        },
        Some(local) => {
            assert(plan.effect(s) == with_record(
                s,
                id,
                crate::storage::experiences::updated(local, archiving()),
            ));
        },
    }
}

/// Deleting an experience that is there removes its record, its embedding and its two index
/// entries, and changes nothing else; deleting one that is not is skipped.
pub proof fn law_deletion_removes_the_experience(
    applier: &RemoteChangeApplier,
    change: SyncChange,
    rows: Result<LocalRows, String>,
    r: Result<(Plan, ApplyOutcome), SyncError>,
    id: ExperienceId,
    timestamp: Timestamp,
    s: StoreView,
)
    requires
        change.payload == (SyncPayload::ExperienceDeleted { id, timestamp }),
        rows is Ok,
        call_ensures(RemoteChangeApplier::apply_single, (applier, change, rows), r),
    ensures
        r is Ok,
        rows->Ok_0.experience is None ==> r->Ok_0.1 == ApplyOutcome::Skipped
            && r->Ok_0.0.effect(s) == s,
        rows->Ok_0.experience is Some ==> r->Ok_0.1 == ApplyOutcome::Applied && {
            let local = rows->Ok_0.experience->Some_0;
            let after = r->Ok_0.0.effect(s);
            let entry = local.timestamp.spec_bytes() + id.spec_bytes();
            let key = local.collective_id.spec_bytes().push(local.experience_type.tag.byte());
            &&& after.experiences == s.experiences.remove(id)
            &&& after.embeddings == s.embeddings.remove(id)
            &&& after.by_collective == s.by_collective.remove((local.collective_id, entry))
            &&& after.by_type == s.by_type.remove((key, id))
            &&& only_experiences_changed(s, after)
            &&& after.events == s.events
            &&& after.wal_sequence == s.wal_sequence
        },
{
    let plan = r->Ok_0.0;
    assert(is_application(
        change.payload,
        rows->Ok_0,
        applier.config.conflict_resolution,
        plan,
        r->Ok_0.1,
    ));
    match rows->Ok_0.experience {
        None => {
            assert(plan.effect(s) == s);
        },
        Some(local) => {
            assert(plan.effect(s) == crate::storage::experiences::without_experience(s, id, local));
        },
    }
}

// ---------------------------------------------------------------------------
// Relations, insights and collectives
// ---------------------------------------------------------------------------

/// The recording of a relation stores it where it is not there yet and its source is, and is
/// skipped where it is there already.
pub proof fn law_new_relation_is_stored(
    applier: &RemoteChangeApplier,
    change: SyncChange,
    rows: Result<LocalRows, String>,
    r: Result<(Plan, ApplyOutcome), SyncError>,
    x: ExperienceRelation,
    s: StoreView,
)
    requires
        change.payload == SyncPayload::RelationCreated(x),
        rows is Ok,
        rows->Ok_0.relation is Some || rows->Ok_0.experience is Some,
        call_ensures(RemoteChangeApplier::apply_single, (applier, change, rows), r),
    ensures
        r is Ok,
        rows->Ok_0.relation is Some ==> r->Ok_0.1 == ApplyOutcome::Skipped && r->Ok_0.0.effect(s)
            == s,
        rows->Ok_0.relation is None ==> r->Ok_0.1 == ApplyOutcome::Applied && r->Ok_0.0.effect(s)
            == (StoreView {
            relations: s.relations.insert(x.id, x),
            by_source: s.by_source.insert((x.source_id, x.id)),
            by_target: s.by_target.insert((x.target_id, x.id)),
            ..s
        }),
{
    let plan = r->Ok_0.0;
    assert(is_application(
        change.payload,
        rows->Ok_0,
        applier.config.conflict_resolution,
        plan,
        r->Ok_0.1,
    ));
    match rows->Ok_0.relation {
        Some(_) => {
            assert(plan.effect(s) == s);
        },
        None => {
            assert(plan.effect(s) == crate::storage::records::with_relation(s, x));
        },
    }
}

/// Deleting a relation removes it from its three tables where it is there, and is skipped
/// where it is not.
pub proof fn law_deletion_removes_the_relation(
    applier: &RemoteChangeApplier,
    change: SyncChange,
    rows: Result<LocalRows, String>,
    r: Result<(Plan, ApplyOutcome), SyncError>,
    id: RelationId,
    timestamp: Timestamp,
    s: StoreView,
)
    requires
        change.payload == (SyncPayload::RelationDeleted { id, timestamp }),
        rows is Ok,
        call_ensures(RemoteChangeApplier::apply_single, (applier, change, rows), r),
    ensures
        r is Ok,
        rows->Ok_0.relation is None ==> r->Ok_0.1 == ApplyOutcome::Skipped && r->Ok_0.0.effect(s)
            == s,
        rows->Ok_0.relation is Some ==> r->Ok_0.1 == ApplyOutcome::Applied && {
            let x = rows->Ok_0.relation->Some_0;
            r->Ok_0.0.effect(s) == (StoreView {
                relations: s.relations.remove(id),
                by_source: s.by_source.remove((x.source_id, id)),
                by_target: s.by_target.remove((x.target_id, id)),
                ..s
            })
        },
{
    let plan = r->Ok_0.0;
    assert(is_application(
        change.payload,
        rows->Ok_0,
        applier.config.conflict_resolution,
        plan,
        r->Ok_0.1,
    ));
    match rows->Ok_0.relation {
        None => {
            assert(plan.effect(s) == s);
        },
        Some(x) => {
            assert(plan.effect(s) == crate::storage::records::without_relation(s, id, x));
        },
    }
}

/// The recording of an insight stores it where it is not there yet, and is skipped where it
/// is.
pub proof fn law_new_insight_is_stored(
    applier: &RemoteChangeApplier,
    change: SyncChange,
    rows: Result<LocalRows, String>,
    r: Result<(Plan, ApplyOutcome), SyncError>,
    x: DerivedInsight,
    s: StoreView,
)
    requires
        change.payload == SyncPayload::InsightCreated(x),
        rows is Ok,
        call_ensures(RemoteChangeApplier::apply_single, (applier, change, rows), r),
    ensures
        r is Ok,
        rows->Ok_0.insight is Some ==> r->Ok_0.1 == ApplyOutcome::Skipped && r->Ok_0.0.effect(s)
            == s,
        rows->Ok_0.insight is None ==> r->Ok_0.1 == ApplyOutcome::Applied && r->Ok_0.0.effect(s)
            == (StoreView {
            insights: s.insights.insert(x.id, x),
            insights_by_collective: s.insights_by_collective.insert((x.collective_id, x.id)),
            ..s
        }),
{
    let plan = r->Ok_0.0;
    assert(is_application(
        change.payload,
        rows->Ok_0,
        applier.config.conflict_resolution,
        plan,
        r->Ok_0.1,
    ));
    match rows->Ok_0.insight {
        Some(_) => {
            assert(plan.effect(s) == s);
        },
        None => {
            assert(plan.effect(s) == crate::storage::records::with_insight(s, x));
        },
    }
}

/// Deleting an insight removes it from its two tables where it is there, and is skipped
/// where it is not.
pub proof fn law_deletion_removes_the_insight(
    applier: &RemoteChangeApplier,
    change: SyncChange,
    rows: Result<LocalRows, String>,
    r: Result<(Plan, ApplyOutcome), SyncError>,
    id: InsightId,
    timestamp: Timestamp,
    s: StoreView,
)
    requires
        change.payload == (SyncPayload::InsightDeleted { id, timestamp }),
        rows is Ok,
        call_ensures(RemoteChangeApplier::apply_single, (applier, change, rows), r),
    ensures
        r is Ok,
        rows->Ok_0.insight is None ==> r->Ok_0.1 == ApplyOutcome::Skipped && r->Ok_0.0.effect(s)
            == s,
        rows->Ok_0.insight is Some ==> r->Ok_0.1 == ApplyOutcome::Applied && {
            let x = rows->Ok_0.insight->Some_0;
            r->Ok_0.0.effect(s) == (StoreView {
                insights: s.insights.remove(id),
                insights_by_collective: s.insights_by_collective.remove((x.collective_id, id)),
                ..s
            })
        },
{
    let plan = r->Ok_0.0;
    assert(is_application(
        change.payload,
        rows->Ok_0,
        applier.config.conflict_resolution,
        plan,
        r->Ok_0.1,
    ));
    match rows->Ok_0.insight {
        None => {
            assert(plan.effect(s) == s);
        },
        Some(x) => {
            assert(plan.effect(s) == crate::storage::records::without_insight(s, id, x));
        },
    }
}

/// The recording of a collective stores it where it is not there yet, and is skipped where
/// it is.
pub proof fn law_new_collective_is_stored(
    applier: &RemoteChangeApplier,
    change: SyncChange,
    rows: Result<LocalRows, String>,
    r: Result<(Plan, ApplyOutcome), SyncError>,
    c: Collective,
    s: StoreView,
)
    requires
        change.payload == SyncPayload::CollectiveCreated(c),
        rows is Ok,
        call_ensures(RemoteChangeApplier::apply_single, (applier, change, rows), r),
    ensures
        r is Ok,
        rows->Ok_0.collective is Some ==> r->Ok_0.1 == ApplyOutcome::Skipped && r->Ok_0.0.effect(s)
            == s,
        rows->Ok_0.collective is None ==> r->Ok_0.1 == ApplyOutcome::Applied && r->Ok_0.0.effect(s)
            == (StoreView { collectives: s.collectives.insert(c.id, c), ..s }),
{
    let plan = r->Ok_0.0;
    assert(is_application(
        change.payload,
        rows->Ok_0,
        applier.config.conflict_resolution,
        plan,
        r->Ok_0.1,
    ));
    match rows->Ok_0.collective {
        Some(_) => {
            assert(plan.effect(s) == s);
        },
        None => {
            assert(plan.effect(s) == (StoreView {
                collectives: s.collectives.insert(c.id, c),
                ..s
            }));
        },
    }
}

// ---------------------------------------------------------------------------
// A batch
// ---------------------------------------------------------------------------

/// A batch is accounted for change by change. An empty batch counts nothing. Each further
/// change counts as applied where it was applied or won a conflict, as skipped where it was
/// skipped or failed, as a conflict where it won one and as failed, under its sequence,
/// where it failed; and as skewed where the reinforcement time that it carries lies more than
/// the allowance ahead of the clock.
pub proof fn law_batch_accounts_for_each_change(
    applier: &RemoteChangeApplier,
    fewer: &Vec<ChangeOutcome>,
    outcomes: &Vec<ChangeOutcome>,
    now: Timestamp,
    before: ApplyResult,
    result: ApplyResult,
)
    requires
        call_ensures(RemoteChangeApplier::apply_batch, (applier, fewer, now), before),
        call_ensures(RemoteChangeApplier::apply_batch, (applier, outcomes, now), result),
    ensures
        outcomes@.len() == 0 ==> {
            &&& result.applied == 0
            &&& result.skipped == 0
            &&& result.conflicts == 0
            &&& result.failed == 0
            &&& result.failed_sequences@.len() == 0
            &&& result.skewed_timestamps == 0
            &&& result.safe_through is None
        },
        outcomes@.len() > 0 && fewer@ == outcomes@.drop_last() ==> {
            let o = outcomes@.last();
            let won = o.outcome == Some(ApplyOutcome::ConflictResolved);
            let applied = o.outcome == Some(ApplyOutcome::Applied) || won;
            &&& result.applied == before.applied + if applied {
                1int
            } else {
                0int
            }
            &&& result.skipped == before.skipped + if applied {
                0int
            } else {
                1int
            }
            &&& result.conflicts == before.conflicts + if won {
                1int
            } else {
                0int
            }
            &&& result.failed == before.failed + if o.outcome is None {
                1int
            } else {
                0int
            }
            &&& o.outcome is None ==> result.failed_sequences@ == before.failed_sequences@.push(
                o.sequence,
            )
            &&& o.outcome is Some ==> result.failed_sequences@ == before.failed_sequences@
            &&& result.skewed_timestamps == before.skewed_timestamps + if o.last_reinforced is Some
                && o.last_reinforced->Some_0.millis > now.millis
                + applier.config.max_clock_skew_ms {
                1int
            } else {
                0int
            }
        },
{
    if outcomes@.len() == 0 {
        assert(crate::sync::applier::is_safe_through(outcomes@, result.safe_through));
    }
}

/// The position that a batch is acknowledged through is the sequence of one of its changes;
/// every change at or below it succeeded, and it is the highest such. There is none exactly
/// where no change has only successes at or below it.
pub proof fn law_safe_position(outcomes: &Vec<ChangeOutcome>, safe: Option<u64>, q: int)
    requires
        call_ensures(safe_position, (outcomes,), safe),
    ensures
        safe matches Some(p) ==> exists|i: int|
            0 <= i < outcomes@.len() && (#[trigger] outcomes@[i]).sequence == p,
        safe matches Some(p) ==> forall|i: int|
            0 <= i < outcomes@.len() && (#[trigger] outcomes@[i]).sequence <= p
                ==> outcomes@[i].outcome is Some,
        0 <= q < outcomes@.len() && (forall|i: int|
            0 <= i < outcomes@.len() && (#[trigger] outcomes@[i]).sequence <= outcomes@[q].sequence
                ==> outcomes@[i].outcome is Some) ==> safe is Some && outcomes@[q].sequence
            <= safe->Some_0,
{
    if 0 <= q < outcomes@.len() && (forall|i: int|
        0 <= i < outcomes@.len() && (#[trigger] outcomes@[i]).sequence <= outcomes@[q].sequence
            ==> outcomes@[i].outcome is Some) {
        assert(crate::sync::applier::clear_through(outcomes@, outcomes@[q].sequence));
    }
}

/// A batch is acknowledged through the position that its outcomes make safe.
pub proof fn law_batch_is_safe_through(
    applier: &RemoteChangeApplier,
    outcomes: &Vec<ChangeOutcome>,
    now: Timestamp,
    result: ApplyResult,
    safe: Option<u64>,
)
    requires
        call_ensures(RemoteChangeApplier::apply_batch, (applier, outcomes, now), result),
        call_ensures(safe_position, (outcomes,), safe),
    ensures
        result.safe_through == safe,
{
    assert(crate::sync::applier::is_safe_through(outcomes@, result.safe_through));
    assert(crate::sync::applier::is_safe_through(outcomes@, safe));
}

/// A reinforcement is skewed exactly where its time lies more than the allowance ahead of
/// the clock; one without a time is not.
pub proof fn law_skew(t: Option<Timestamp>, now: Timestamp, allowance_ms: u64, yes: bool)
    requires
        call_ensures(is_skewed, (t, now, allowance_ms), yes),
    ensures
        yes <==> t is Some && t->Some_0.millis - now.millis > allowance_ms,
{
}

/// The reinforcement time of a change is that of the experience it records, or the one that
/// its update carries; no other change has one.
pub proof fn law_reinforcement_time(payload: &SyncPayload, t: Option<Timestamp>)
    requires
        call_ensures(reinforcement_time, (payload,), t),
    ensures
        *payload is ExperienceCreated ==> t == Some(payload->ExperienceCreated_0.last_reinforced),
        *payload is ExperienceUpdated ==> t == payload->ExperienceUpdated_update.last_reinforced,
        !(*payload is ExperienceCreated) && !(*payload is ExperienceUpdated) ==> t is None,
{
}

/// A change looks up the record it is about by the identifier it carries, and, where it
/// records a relation, the experience the relation starts from.
pub proof fn law_records_looked_up(
    payload: &SyncPayload,
    row: crate::sync::payload::EntityRef,
    met: Option<ExperienceId>,
)
    requires
        call_ensures(crate::sync::applier::row_needed, (payload,), row),
        call_ensures(crate::sync::applier::experience_needed, (payload,), met),
    ensures
        match *payload {
            SyncPayload::ExperienceCreated(e) => row == crate::sync::payload::EntityRef::Experience(
                e.id,
            ) && met == Some(e.id),
            SyncPayload::ExperienceUpdated { id, .. } => row
                == crate::sync::payload::EntityRef::Experience(id) && met == Some(id),
            SyncPayload::ExperienceArchived { id, .. } => row
                == crate::sync::payload::EntityRef::Experience(id) && met == Some(id),
            SyncPayload::ExperienceDeleted { id, .. } => row
                == crate::sync::payload::EntityRef::Experience(id) && met == Some(id),
            SyncPayload::RelationCreated(x) => row == crate::sync::payload::EntityRef::Relation(
                x.id,
            ) && met == Some(x.source_id),
            SyncPayload::RelationDeleted { id, .. } => row
                == crate::sync::payload::EntityRef::Relation(id) && met is None,
            SyncPayload::InsightCreated(x) => row == crate::sync::payload::EntityRef::Insight(x.id)
                && met is None,
            SyncPayload::InsightDeleted { id, .. } => row
                == crate::sync::payload::EntityRef::Insight(id) && met is None,
            SyncPayload::CollectiveCreated(c) => row == crate::sync::payload::EntityRef::Collective(
                c.id,
            ) && met is None,
        },
{
}

} // verus!
