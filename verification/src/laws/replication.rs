//! What a change of one store becomes in another.

use vstd::prelude::*;

use crate::error::StorageError;
use crate::laws::applying::{
    law_deletion_removes_the_experience, law_later_write_wins, law_new_experience_is_stored,
};
use crate::laws::experiences::{
    law_deleted_experience, law_saved_experience, law_updated_experience, next_number,
};
use crate::model::{Experience, ExperienceUpdate};
use crate::storage::experiences::{delete_experience, save_experience, update_experience};
use crate::storage::schema::WatchEventRecord;
use crate::storage::store::{Plan, StoreView};
use crate::storage::wal::WalContext;
use crate::sync::applier::{ApplyOutcome, LocalRows, RemoteChangeApplier};
use crate::sync::config::ConflictResolution;
use crate::sync::error::SyncError;
use crate::sync::payload::{needed, payload, Entity};
use crate::sync::server::build_change_from_record;
use crate::sync::types::{SyncChange, SyncPayload};
use crate::types::{ExperienceId, InstanceId};

verus! {

/// Whether `record` is the event that a change of the store just logged under the number
/// `sequence`.
pub open spec fn just_logged(
    home: StoreView,
    wal: WalContext,
    sequence: u64,
    record: WatchEventRecord,
) -> bool {
    &&& !wal.applying
    &&& sequence == next_number(wal.stored)
    &&& home.events[crate::bytes::be(sequence as nat, 8)] == record
}

proof fn lemma_same_id(id: ExperienceId, bytes: [u8; 16])
    requires
        bytes@ == id.spec_bytes(),
    ensures
        crate::sync::payload::id_value(bytes) == id.value,
{
    crate::bytes::lemma_pow256_values();
    crate::bytes::lemma_be_round_trip(id.value as nat, 16);
}

/// An experience that one store records is, once its event has been served to a store without
/// it, there under the same identifier and the same in every field.
pub proof fn law_recorded_experience_reaches_a_peer(
    e: Experience,
    wal: &WalContext,
    saved: Result<Plan, StorageError>,
    home: StoreView,
    sequence: u64,
    record: &WatchEventRecord,
    source: InstanceId,
    found: Result<Option<Entity>, String>,
    served: Result<Option<SyncChange>, SyncError>,
    change: SyncChange,
    applier: &RemoteChangeApplier,
    rows: Result<LocalRows, String>,
    applied: Result<(Plan, ApplyOutcome), SyncError>,
    peer: StoreView,
)
    requires
        wal.has_room(),
        call_ensures(save_experience, (e, wal), saved),
        saved is Ok,
        just_logged(saved->Ok_0.effect(home), *wal, sequence, *record),
        found is Ok,
        found->Ok_0 == Some(Entity::Experience(saved->Ok_0.effect(home).experiences[e.id])),
        call_ensures(build_change_from_record, (sequence, record, source, found), served),
        served is Ok && served->Ok_0 is Some ==> change == served->Ok_0->Some_0,
        rows is Ok,
        rows->Ok_0.experience is None,
        call_ensures(RemoteChangeApplier::apply_single, (applier, change, rows), applied),
    ensures
        served is Ok,
        served->Ok_0 is Some,
        applied is Ok,
        applied->Ok_0.1 == ApplyOutcome::Applied,
        applied->Ok_0.0.effect(peer).experiences == peer.experiences.insert(e.id, e),
{
    law_saved_experience(e, wal, saved, home);
    assert(needed(*record) is Some);
    assert(payload(*record, found->Ok_0) == Some(SyncPayload::ExperienceCreated(e)));
    law_new_experience_is_stored(applier, change, rows, applied, e, peer);
}

/// An update that one store makes is, once its event has been served to a store that held the
/// experience as it was before, in that store too: the two records then agree in every field
/// that an update can change. This is so for every update but an archiving, which is sent as
/// such, under last-write-wins.
pub proof fn law_updated_experience_reaches_a_peer(
    id: ExperienceId,
    before: Option<Experience>,
    update: ExperienceUpdate,
    wal: &WalContext,
    made: Result<Option<Plan>, StorageError>,
    home: StoreView,
    sequence: u64,
    record: &WatchEventRecord,
    source: InstanceId,
    found: Result<Option<Entity>, String>,
    served: Result<Option<SyncChange>, SyncError>,
    change: SyncChange,
    applier: &RemoteChangeApplier,
    rows: Result<LocalRows, String>,
    applied: Result<(Plan, ApplyOutcome), SyncError>,
    peer: StoreView,
)
    requires
        wal.has_room(),
        before is Some,
        update.archived != Some(true),
        call_ensures(update_experience, (id, before, update, wal), made),
        made is Ok,
        just_logged(made->Ok_0->Some_0.effect(home), *wal, sequence, *record),
        found is Ok,
        found->Ok_0 == Some(
            Entity::Experience(made->Ok_0->Some_0.effect(home).experiences[id]),
        ),
        call_ensures(build_change_from_record, (sequence, record, source, found), served),
        served is Ok && served->Ok_0 is Some ==> change == served->Ok_0->Some_0,
        applier.config.conflict_resolution == ConflictResolution::LastWriteWins,
        rows is Ok,
        rows->Ok_0.experience == before,
        call_ensures(RemoteChangeApplier::apply_single, (applier, change, rows), applied),
    ensures
        served is Ok,
        served->Ok_0 is Some,
        applied is Ok,
        applied->Ok_0.1 == ApplyOutcome::ConflictResolved,
        ({
            let here = made->Ok_0->Some_0.effect(home).experiences[id];
            let there = applied->Ok_0.0.effect(peer).experiences[id];
            &&& applied->Ok_0.0.effect(peer).experiences.contains_key(id)
            &&& there.importance == here.importance
            &&& there.confidence == here.confidence
            &&& there.domain == here.domain
            &&& there.tags == here.tags
            &&& there.related_files == here.related_files
            &&& there.archived == here.archived
            &&& there.content == here.content
            &&& there.timestamp == here.timestamp
        }),
{
    law_updated_experience(id, before, update, wal, made, home);
    let p = change.payload;
    assert(needed(*record) is Some);
    lemma_same_id(id, record.entity_id);
    assert(payload(*record, found->Ok_0) == Some(p));
    law_later_write_wins(
        applier,
        change,
        rows,
        applied,
        id,
        p->ExperienceUpdated_update,
        p->ExperienceUpdated_timestamp,
        peer,
    );
}

/// An experience that one store deletes is, once its event has been served to another store,
/// no longer there either.
pub proof fn law_deleted_experience_leaves_a_peer(
    id: ExperienceId,
    before: &Option<Experience>,
    wal: &WalContext,
    made: Result<Option<Plan>, StorageError>,
    home: StoreView,
    sequence: u64,
    record: &WatchEventRecord,
    source: InstanceId,
    found: Result<Option<Entity>, String>,
    served: Result<Option<SyncChange>, SyncError>,
    change: SyncChange,
    applier: &RemoteChangeApplier,
    rows: Result<LocalRows, String>,
    applied: Result<(Plan, ApplyOutcome), SyncError>,
    peer: StoreView,
)
    requires
        wal.has_room(),
        *before is Some,
        call_ensures(delete_experience, (id, before, wal), made),
        made is Ok,
        just_logged(made->Ok_0->Some_0.effect(home), *wal, sequence, *record),
        call_ensures(build_change_from_record, (sequence, record, source, found), served),
        served is Ok && served->Ok_0 is Some ==> change == served->Ok_0->Some_0,
        rows is Ok,
        rows->Ok_0.experience is None ==> !peer.experiences.contains_key(id),
        call_ensures(RemoteChangeApplier::apply_single, (applier, change, rows), applied),
    ensures
        served is Ok,
        served->Ok_0 is Some,
        applied is Ok,
        !applied->Ok_0.0.effect(peer).experiences.contains_key(id),
{
    law_deleted_experience(id, before, wal, made, home);
    lemma_same_id(id, record.entity_id);
    let p = change.payload;
    assert(needed(*record) is None);
    assert(payload(*record, None) == Some(p));
    law_deletion_removes_the_experience(
        applier,
        change,
        rows,
        applied,
        id,
        p->ExperienceDeleted_timestamp,
        peer,
    );
}

} // verus!
